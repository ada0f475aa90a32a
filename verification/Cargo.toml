[package]
name = "haxonite"
version = "0.1.0"
edition = "2021"
publish = false

[dependencies]
regex = "1"
iron = "0.6"
router = "0.6"
mount = "0.4"
staticfile = "0.5"
logger = "0.4"
clap = "2"
toml = "0.2"
rustc-serialize = "0.3"
log = "0.3"
simplelog = "0.4"
notify = "4"
rustache = "0.1"
random_choice = "0.3"

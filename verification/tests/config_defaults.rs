use haxonite::config::{
    default_content_type, default_headers, default_host, default_method, default_port,
    default_status, default_type, default_weight, ServerConfig,
};
use haxonite::utils::{config_toml_content, BARE_CONFIG_TOML, FULL_CONFIG_TOML};

#[test]
fn defaults_match_the_documentation() {
    assert_eq!(default_port(), 4000);
    assert_eq!(default_host(), "localhost");
    assert_eq!(default_status(), 200);
    assert_eq!(default_weight(), 1);
    assert_eq!(default_method(), "GET");
    assert_eq!(default_content_type(), "application/json");
    assert_eq!(default_headers(), vec!["Content-Type: application/json".to_string()]);
    assert_eq!(default_type(), "single");
}

#[test]
fn default_server_config_uses_default_port_and_host() {
    let server = ServerConfig::default();
    assert_eq!(server.port, Some(4000));
    assert_eq!(server.host, Some("localhost".to_string()));
}

#[test]
fn config_toml_content_picks_bare_or_full() {
    assert_eq!(config_toml_content(false), BARE_CONFIG_TOML.as_bytes());
    assert_eq!(config_toml_content(true), FULL_CONFIG_TOML.as_bytes());
    let bare = String::from_utf8(config_toml_content(false).to_vec()).unwrap();
    assert!(bare.starts_with("[server]\nport = 4000\nhost = \"localhost\"\n"));
    assert!(bare.contains("[requests.example_request]"));
    assert!(bare.contains("response = \"responses/haxonite.json\""));
    assert!(bare.contains("type = \"static\""));
    let full = String::from_utf8(config_toml_content(true).to_vec()).unwrap();
    assert!(full.contains("type = \"random\""));
    assert!(full.contains("type = \"roundrobin\""));
    assert_ne!(bare, full);
}

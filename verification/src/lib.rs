//! A verified core for an API mocking server: configuration defaults,
//! route construction from a request configuration, response selection
//! for round-robin, chained and weighted responses, and error messages.

pub mod config;
pub mod error;
pub mod handlers;
mod text;
pub mod headers;
pub mod routes;
pub mod serve;
pub mod utils;

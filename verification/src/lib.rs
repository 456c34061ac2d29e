//! Core modules of the ANX HTTP server: an HTTP-aware object cache with
//! verified size accounting, eviction and freshness rules, and the HTTP
//! message and configuration helpers around it.

pub mod cache;
pub mod cli;
pub mod config;
pub mod http_parser;
pub mod text;

pub use cache::Cache;
pub use config::{AnxConfig, LocationConfig, ServerConfig};
pub use http_parser::HttpRequest;

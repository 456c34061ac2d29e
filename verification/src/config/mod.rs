//! Server configuration: the settings, their defaults and their
//! validation.

pub mod model;
pub mod nginx_compat;
pub mod nginx_model;
pub mod toml_parser;
pub mod types;

pub use self::types::{
    AnxConfig, CacheConfig, ConfigError, LocationConfig, LoggingConfig, ProxyConfig, ServerConfig,
    SslConfig, Upstream,
};

//! The configuration as plain mathematical values.

use vstd::prelude::*;
use crate::http_parser::headers::HeaderModel;

verus! {

/// Server settings.
pub struct ServerModel {
    pub listen: Seq<Seq<char>>,
    pub server_name: Option<Seq<char>>,
    pub root: Seq<char>,
    pub index: Seq<Seq<char>>,
    pub worker_processes: Option<usize>,
    pub worker_connections: Option<usize>,
    pub keepalive_timeout: Option<u64>,
    pub client_max_body_size: Option<Seq<char>>,
}

/// Logging settings.
pub struct LoggingModel {
    pub access_log: Option<Seq<char>>,
    pub error_log: Option<Seq<char>>,
    pub log_level: Option<Seq<char>>,
}

/// TLS settings.
pub struct SslModel {
    pub certificate: Seq<char>,
    pub private_key: Seq<char>,
    pub protocols: Seq<Seq<char>>,
    pub ciphers: Option<Seq<char>>,
}

/// A named group of upstream servers.
pub struct UpstreamModel {
    pub name: Seq<char>,
    pub servers: Seq<Seq<char>>,
}

/// Proxy settings.
pub struct ProxyModel {
    pub upstream: Seq<UpstreamModel>,
    pub proxy_timeout: Option<u64>,
    pub proxy_connect_timeout: Option<u64>,
}

/// Cache settings, as the configuration file gives them.
pub struct CacheSettingsModel {
    pub enabled: bool,
    pub max_size: Option<Seq<char>>,
    pub ttl: Option<u64>,
    pub keys_zone: Option<Seq<char>>,
}

/// Settings of one location.
pub struct LocationModel {
    pub path: Seq<char>,
    pub root: Option<Seq<char>>,
    pub index: Option<Seq<Seq<char>>>,
    pub proxy_pass: Option<Seq<char>>,
    pub return_code: Option<u16>,
    pub return_url: Option<Seq<char>>,
    pub try_files: Option<Seq<Seq<char>>>,
    pub headers: Option<Seq<HeaderModel>>,
}

/// The whole configuration of a server.
pub struct ConfigModel {
    pub server: ServerModel,
    pub logging: Option<LoggingModel>,
    pub ssl: Option<SslModel>,
    pub proxy: Option<ProxyModel>,
    pub cache: Option<CacheSettingsModel>,
    pub locations: Seq<LocationModel>,
}

/// A configuration error as plain text.
pub enum ConfigFailure {
    Io(Seq<char>),
    Toml(Seq<char>),
    Invalid(Seq<char>),
    NotFound(Seq<char>),
}

/// A location without a path and without settings.
pub open spec fn empty_location() -> LocationModel {
    LocationModel {
        path: Seq::empty(),
        root: None,
        index: None,
        proxy_pass: None,
        return_code: None,
        return_url: None,
        try_files: None,
        headers: None,
    }
}

/// The configuration that a server starts from.
pub open spec fn default_config() -> ConfigModel {
    ConfigModel {
        server: ServerModel {
            listen: seq!["80"@],
            server_name: None,
            root: "/var/www/html"@,
            index: seq!["index.html"@, "index.htm"@],
            worker_processes: Some(1usize),
            worker_connections: Some(1024usize),
            keepalive_timeout: Some(65u64),
            client_max_body_size: Some("1M"@),
        },
        logging: Some(
            LoggingModel {
                access_log: Some("/var/log/anx/access.log"@),
                error_log: Some("/var/log/anx/error.log"@),
                log_level: Some("info"@),
            },
        ),
        ssl: None,
        proxy: None,
        cache: None,
        locations: Seq::empty(),
    }
}

/// Some location has an empty path.
pub open spec fn has_empty_location(c: ConfigModel) -> bool {
    exists|i: int| 0 <= i < c.locations.len() && (#[trigger] c.locations[i]).path.len() == 0
}

/// What is wrong with the configuration, if anything: the first of the
/// rules that it breaks.
pub open spec fn validation_failure(c: ConfigModel) -> Option<Seq<char>> {
    if c.server.listen.len() == 0 {
        Some("Server must have at least one listen address"@)
    } else if c.server.root.len() == 0 {
        Some("Server root directory cannot be empty"@)
    } else if c.server.index.len() == 0 {
        Some("Server must have at least one index file"@)
    } else if c.ssl matches Some(ssl) && ssl.certificate.len() == 0 {
        Some("SSL certificate path cannot be empty"@)
    } else if c.ssl matches Some(ssl) && ssl.private_key.len() == 0 {
        Some("SSL private key path cannot be empty"@)
    } else if has_empty_location(c) {
        Some("Location path cannot be empty"@)
    } else {
        None
    }
}

} // verus!

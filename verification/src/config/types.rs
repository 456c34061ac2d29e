//! The configuration types and their views.

use vstd::prelude::*;
use vstd::string::StringExecFns;
use crate::text::{text_of, texts_of};
use crate::config::model::{
    CacheSettingsModel, ConfigFailure, ConfigModel, LocationModel, LoggingModel, ProxyModel,
    ServerModel, SslModel, UpstreamModel, default_config, has_empty_location, validation_failure,
};
use crate::http_parser::headers::{Header, HeaderModel, fields_of};

verus! {

/// The texts of an optional list of strings.
pub open spec fn opt_texts_of(o: Option<Vec<String>>) -> Option<Seq<Seq<char>>> {
    match o {
        Some(v) => Some(texts_of(v@)),
        None => None,
    }
}

/// The fields of an optional list of headers.
pub open spec fn opt_fields_of(o: Option<Vec<Header>>) -> Option<Seq<HeaderModel>> {
    match o {
        Some(v) => Some(fields_of(v@)),
        None => None,
    }
}

/// Server settings.
#[derive(Debug, Clone)]
pub struct ServerConfig {
    pub listen: Vec<String>,
    pub server_name: Option<String>,
    pub root: String,
    pub index: Vec<String>,
    pub worker_processes: Option<usize>,
    pub worker_connections: Option<usize>,
    pub keepalive_timeout: Option<u64>,
    pub client_max_body_size: Option<String>,
}

impl View for ServerConfig {
    type V = ServerModel;

    open spec fn view(&self) -> ServerModel {
        ServerModel {
            listen: texts_of(self.listen@),
            server_name: text_of(self.server_name),
            root: self.root@,
            index: texts_of(self.index@),
            worker_processes: self.worker_processes,
            worker_connections: self.worker_connections,
            keepalive_timeout: self.keepalive_timeout,
            client_max_body_size: text_of(self.client_max_body_size),
        }
    }
}

/// Logging settings.
#[derive(Debug, Clone)]
pub struct LoggingConfig {
    pub access_log: Option<String>,
    pub error_log: Option<String>,
    pub log_level: Option<String>,
}

impl View for LoggingConfig {
    type V = LoggingModel;

    open spec fn view(&self) -> LoggingModel {
        LoggingModel {
            access_log: text_of(self.access_log),
            error_log: text_of(self.error_log),
            log_level: text_of(self.log_level),
        }
    }
}

/// TLS settings.
#[derive(Debug, Clone)]
pub struct SslConfig {
    pub certificate: String,
    pub private_key: String,
    pub protocols: Vec<String>,
    pub ciphers: Option<String>,
}

impl View for SslConfig {
    type V = SslModel;

    open spec fn view(&self) -> SslModel {
        SslModel {
            certificate: self.certificate@,
            private_key: self.private_key@,
            protocols: texts_of(self.protocols@),
            ciphers: text_of(self.ciphers),
        }
    }
}

/// A named group of upstream servers.
#[derive(Debug, Clone)]
pub struct Upstream {
    pub name: String,
    pub servers: Vec<String>,
}

impl View for Upstream {
    type V = UpstreamModel;

    open spec fn view(&self) -> UpstreamModel {
        UpstreamModel { name: self.name@, servers: texts_of(self.servers@) }
    }
}

/// The models of a list of upstream groups.
pub open spec fn upstreams_of(v: Seq<Upstream>) -> Seq<UpstreamModel> {
    Seq::new(v.len(), |i: int| v[i]@)
}

/// Proxy settings.
#[derive(Debug, Clone)]
pub struct ProxyConfig {
    pub upstream: Vec<Upstream>,
    pub proxy_timeout: Option<u64>,
    pub proxy_connect_timeout: Option<u64>,
}

impl View for ProxyConfig {
    type V = ProxyModel;

    open spec fn view(&self) -> ProxyModel {
        ProxyModel {
            upstream: upstreams_of(self.upstream@),
            proxy_timeout: self.proxy_timeout,
            proxy_connect_timeout: self.proxy_connect_timeout,
        }
    }
}

/// Cache settings, as the configuration file gives them.
#[derive(Debug, Clone)]
pub struct CacheConfig {
    pub enabled: bool,
    pub max_size: Option<String>,
    pub ttl: Option<u64>,
    pub keys_zone: Option<String>,
}

impl View for CacheConfig {
    type V = CacheSettingsModel;

    open spec fn view(&self) -> CacheSettingsModel {
        CacheSettingsModel {
            enabled: self.enabled,
            max_size: text_of(self.max_size),
            ttl: self.ttl,
            keys_zone: text_of(self.keys_zone),
        }
    }
}

/// Settings of one location.
#[derive(Debug, Clone)]
pub struct LocationConfig {
    pub path: String,
    pub root: Option<String>,
    pub index: Option<Vec<String>>,
    pub proxy_pass: Option<String>,
    pub return_code: Option<u16>,
    pub return_url: Option<String>,
    pub try_files: Option<Vec<String>>,
    pub headers: Option<Vec<Header>>,
}

impl View for LocationConfig {
    type V = LocationModel;

    open spec fn view(&self) -> LocationModel {
        LocationModel {
            path: self.path@,
            root: text_of(self.root),
            index: opt_texts_of(self.index),
            proxy_pass: text_of(self.proxy_pass),
            return_code: self.return_code,
            return_url: text_of(self.return_url),
            try_files: opt_texts_of(self.try_files),
            headers: opt_fields_of(self.headers),
        }
    }
}

/// The models of a list of locations.
pub open spec fn locations_of(v: Seq<LocationConfig>) -> Seq<LocationModel> {
    Seq::new(v.len(), |i: int| v[i]@)
}

/// The whole configuration of a server.
#[derive(Debug, Clone)]
pub struct AnxConfig {
    pub server: ServerConfig,
    pub logging: Option<LoggingConfig>,
    pub ssl: Option<SslConfig>,
    pub proxy: Option<ProxyConfig>,
    pub cache: Option<CacheConfig>,
    pub locations: Vec<LocationConfig>,
}

impl View for AnxConfig {
    type V = ConfigModel;

    open spec fn view(&self) -> ConfigModel {
        ConfigModel {
            server: self.server@,
            logging: match self.logging {
                Some(l) => Some(l@),
                None => None,
            },
            ssl: match self.ssl {
                Some(s) => Some(s@),
                None => None,
            },
            proxy: match self.proxy {
                Some(p) => Some(p@),
                None => None,
            },
            cache: match self.cache {
                Some(c) => Some(c@),
                None => None,
            },
            locations: locations_of(self.locations@),
        }
    }
}

/// Why a configuration could not be loaded or is not valid.
#[derive(Debug)]
pub enum ConfigError {
    Io(String),
    Toml(String),
    Invalid(String),
    NotFound(String),
}

impl View for ConfigError {
    type V = ConfigFailure;

    open spec fn view(&self) -> ConfigFailure {
        match self {
            ConfigError::Io(s) => ConfigFailure::Io(s@),
            ConfigError::Toml(s) => ConfigFailure::Toml(s@),
            ConfigError::Invalid(s) => ConfigFailure::Invalid(s@),
            ConfigError::NotFound(s) => ConfigFailure::NotFound(s@),
        }
    }
}

impl Default for AnxConfig {
    fn default() -> (c: AnxConfig)
        ensures
            c@ == default_config(),
    {
        let mut listen: Vec<String> = Vec::new();
        listen.push(String::from_str("80"));
        let mut index: Vec<String> = Vec::new();
        index.push(String::from_str("index.html"));
        index.push(String::from_str("index.htm"));
        let c = AnxConfig {
            server: ServerConfig {
                listen,
                server_name: None,
                root: String::from_str("/var/www/html"),
                index,
                worker_processes: Some(1),
                worker_connections: Some(1024),
                keepalive_timeout: Some(65),
                client_max_body_size: Some(String::from_str("1M")),
            },
            logging: Some(
                LoggingConfig {
                    access_log: Some(String::from_str("/var/log/anx/access.log")),
                    error_log: Some(String::from_str("/var/log/anx/error.log")),
                    log_level: Some(String::from_str("info")),
                },
            ),
            ssl: None,
            proxy: None,
            cache: None,
            locations: Vec::new(),
        };
        assert(c@.server.listen =~= default_config().server.listen);
        assert(c@.server.index =~= default_config().server.index);
        assert(c@.locations =~= Seq::empty());
        c
    }
}

impl AnxConfig {
    /// Checks the configuration: the server needs a listen address, a root
    /// directory and an index file, TLS needs both paths, and every
    /// location needs a path. The error names the first rule that is
    /// broken.
    pub fn validate(&self) -> (res: Result<(), ConfigError>)
        ensures
            match res {
                Ok(_) => validation_failure(self@).is_none(),
                Err(e) => validation_failure(self@) matches Some(msg) && e@
                    == ConfigFailure::Invalid(msg),
            },
    {
        if self.server.listen.len() == 0 {
            return Err(
                ConfigError::Invalid(
                    String::from_str("Server must have at least one listen address"),
                ),
            );
        }
        if self.server.root.as_str().is_empty() {
            return Err(
                ConfigError::Invalid(String::from_str("Server root directory cannot be empty")),
            );
        }
        if self.server.index.len() == 0 {
            return Err(
                ConfigError::Invalid(String::from_str("Server must have at least one index file")),
            );
        }
        match &self.ssl {
            Some(ssl) => {
                if ssl.certificate.as_str().is_empty() {
                    return Err(
                        ConfigError::Invalid(
                            String::from_str("SSL certificate path cannot be empty"),
                        ),
                    );
                }
                if ssl.private_key.as_str().is_empty() {
                    return Err(
                        ConfigError::Invalid(
                            String::from_str("SSL private key path cannot be empty"),
                        ),
                    );
                }
            },
            None => {},
        }
        let mut i: usize = 0;
        while i < self.locations.len()
            invariant
                i <= self.locations.len(),
                validation_failure(self@) == if has_empty_location(self@) {
                    Some("Location path cannot be empty"@)
                } else {
                    None
                },
                forall|j: int| 0 <= j < i ==> (#[trigger] self@.locations[j]).path.len() != 0,
            decreases self.locations.len() - i,
        {
            if self.locations[i].path.as_str().is_empty() {
                assert(self@.locations[i as int].path.len() == 0);
                return Err(ConfigError::Invalid(String::from_str("Location path cannot be empty")));
            }
            i += 1;
        }
        Ok(())
    }
}

} // verus!

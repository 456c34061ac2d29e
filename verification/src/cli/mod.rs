//! Command line arguments of the server.

pub mod model;
pub mod parser;

pub use self::model::ServerMode;
pub use self::parser::{CliAction, CliConfig, CliError, CliParser, ProxyConfig, SslConfig};

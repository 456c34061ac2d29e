//! The command line as plain mathematical values, and what each argument
//! does to the configuration.

use vstd::prelude::*;
use crate::http_parser::message::lowercase_of;
use crate::text::{digit_value, matches_at, parse_decimal};

verus! {

/// How the server runs.
#[derive(Debug, Clone, Copy, PartialEq, Eq, Structural)]
pub enum ServerMode {
    /// Serves files from a directory.
    Static,
    /// Forwards requests to other servers.
    Proxy,
    /// Serves files and forwards requests.
    Hybrid,
}

/// One proxy target.
pub struct CliProxyModel {
    pub target_url: Seq<char>,
    pub path_prefix: Option<Seq<char>>,
    pub timeout: Option<u64>,
    pub health_check: bool,
}

/// The TLS files.
pub struct CliSslModel {
    pub cert_file: Seq<char>,
    pub key_file: Seq<char>,
    pub enabled: bool,
}

/// The settings that the command line gives.
pub struct CliModel {
    pub port: u16,
    pub host: Seq<char>,
    pub mode: ServerMode,
    pub static_dir: Option<Seq<char>>,
    pub index_files: Seq<Seq<char>>,
    pub auto_index: bool,
    pub proxy_configs: Seq<CliProxyModel>,
    pub ssl: Option<CliSslModel>,
    pub log_level: Seq<char>,
    pub log_file: Option<Seq<char>>,
    pub cache_enabled: bool,
    pub cache_size: usize,
    pub cache_ttl: u64,
    pub threads: usize,
    pub max_connections: usize,
    pub config_file: Option<Seq<char>>,
    pub daemon: bool,
    pub pid_file: Option<Seq<char>>,
}

/// A command line error as plain text.
pub enum CliFailure {
    InvalidArgument(Seq<char>),
    MissingArgument(Seq<char>),
    InvalidPort(Seq<char>),
    InvalidPath(Seq<char>),
    InvalidUrl(Seq<char>),
    ConfigError(Seq<char>),
}

/// The configuration before any argument is read, for a machine with
/// `threads` processors.
pub open spec fn default_cli(threads: usize) -> CliModel {
    CliModel {
        port: 8080,
        host: "0.0.0.0"@,
        mode: ServerMode::Static,
        static_dir: None,
        index_files: seq!["index.html"@, "index.htm"@],
        auto_index: true,
        proxy_configs: Seq::empty(),
        ssl: None,
        log_level: "info"@,
        log_file: None,
        cache_enabled: true,
        cache_size: 104857600,
        cache_ttl: 3600,
        threads,
        max_connections: 1000,
        config_file: None,
        daemon: false,
        pid_file: None,
    }
}

/// What is missing from the configuration, if anything.
pub open spec fn config_failure(c: CliModel) -> Option<CliFailure> {
    if c.mode == ServerMode::Static && c.static_dir.is_none() {
        Some(CliFailure::MissingArgument("static directory (use -d or --dir)"@))
    } else if c.mode == ServerMode::Proxy && c.proxy_configs.len() == 0 {
        Some(CliFailure::MissingArgument("proxy target (use --proxy)"@))
    } else if c.ssl matches Some(ssl) && (ssl.cert_file.len() == 0 || ssl.key_file.len() == 0) {
        Some(CliFailure::MissingArgument("SSL certificate and key files"@))
    } else {
        None
    }
}

/// Length of the leading run of decimal digits.
pub open spec fn digits_len(s: Seq<char>) -> int
    decreases s.len(),
{
    if s.len() == 0 || digit_value(s[0]).is_none() {
        0
    } else {
        1 + digits_len(s.drop_first())
    }
}

/// The factor that a unit of size stands for.
pub open spec fn unit_factor(unit: Seq<char>) -> Option<int> {
    if unit == ""@ || unit == "b"@ {
        Some(1)
    } else if unit == "kb"@ {
        Some(1024)
    } else if unit == "mb"@ {
        Some(1048576)
    } else if unit == "gb"@ {
        Some(1073741824)
    } else {
        None
    }
}

/// The size that a text in lower case writes: a decimal number, then a
/// unit. A number that is missing or does not fit, or a product that does
/// not fit, is an invalid number; an unknown unit is an invalid unit.
pub open spec fn size_of_lower(lower: Seq<char>) -> Result<usize, CliFailure> {
    let n = digits_len(lower);
    let number = lower.take(n);
    let unit = lower.skip(n);
    match parse_decimal(number, usize::MAX as nat) {
        None => Err(CliFailure::InvalidArgument("Invalid size number: "@ + number)),
        Some(v) => match unit_factor(unit) {
            None => Err(CliFailure::InvalidArgument("Invalid size unit: "@ + unit)),
            Some(f) => if v * f <= usize::MAX {
                Ok((v * f) as usize)
            } else {
                Err(CliFailure::InvalidArgument("Invalid size number: "@ + number))
            },
        },
    }
}

/// The size that a text writes, whatever its case.
pub open spec fn size_of(s: Seq<char>) -> Result<usize, CliFailure> {
    size_of_lower(lowercase_of(s))
}

/// Whether the argument at `i` names a path that exists; arguments beyond
/// the list of answers count as paths that do not exist.
pub open spec fn path_exists(exists: Seq<bool>, i: int) -> bool {
    0 <= i < exists.len() && exists[i]
}

/// What reading one argument leads to.
pub enum StepModel {
    /// Go on with this configuration at this position.
    Next(CliModel, int),
    /// Show the help text and stop.
    Help,
    /// Show the version and stop.
    Version,
    /// Stop with this error.
    Fail(CliFailure),
}

/// Whether the level is one that the log knows.
pub open spec fn known_log_level(level: Seq<char>) -> bool {
    level == "debug"@ || level == "info"@ || level == "warn"@ || level == "error"@
}

/// The TLS settings after the certificate was given.
pub open spec fn with_cert(ssl: Option<CliSslModel>, path: Seq<char>) -> Option<CliSslModel> {
    match ssl {
        None => Some(CliSslModel { cert_file: path, key_file: Seq::empty(), enabled: true }),
        Some(s) => Some(CliSslModel { cert_file: path, ..s }),
    }
}

/// The TLS settings after the key was given.
pub open spec fn with_key(ssl: Option<CliSslModel>, path: Seq<char>) -> Option<CliSslModel> {
    match ssl {
        None => Some(CliSslModel { cert_file: Seq::empty(), key_file: path, enabled: true }),
        Some(s) => Some(CliSslModel { key_file: path, ..s }),
    }
}

/// The configuration after a proxy target was given, and the position of
/// the next argument. A following argument that does not start with a
/// hyphen is the path prefix of the target.
pub open spec fn with_proxy(c: CliModel, args: Seq<Seq<char>>, i: int) -> StepModel {
    let target = args[i + 1];
    let has_prefix = i + 2 < args.len() && !matches_at(args[i + 2], seq!['-'], 0);
    let proxy = CliProxyModel {
        target_url: target,
        path_prefix: if has_prefix {
            Some(args[i + 2])
        } else {
            Some("/"@)
        },
        timeout: Some(30u64),
        health_check: true,
    };
    let mode = if c.mode == ServerMode::Static {
        ServerMode::Hybrid
    } else {
        ServerMode::Proxy
    };
    StepModel::Next(
        CliModel { proxy_configs: c.proxy_configs.push(proxy), mode, ..c },
        if has_prefix {
            i + 3
        } else {
            i + 2
        },
    )
}

/// What an option that takes a value does, once its value `v` at position
/// `i + 1` is there.
pub open spec fn value_step(
    c: CliModel,
    args: Seq<Seq<char>>,
    exists: Seq<bool>,
    i: int,
) -> StepModel {
    let arg = args[i];
    let v = args[i + 1];
    if arg == "-p"@ || arg == "--port"@ {
        match parse_decimal(v, 65535) {
            Some(p) => StepModel::Next(CliModel { port: p as u16, ..c }, i + 2),
            None => StepModel::Fail(CliFailure::InvalidPort(v)),
        }
    } else if arg == "--host"@ {
        StepModel::Next(CliModel { host: v, ..c }, i + 2)
    } else if arg == "-d"@ || arg == "--dir"@ || arg == "--static-dir"@ {
        if path_exists(exists, i + 1) {
            StepModel::Next(
                CliModel { static_dir: Some(v), mode: ServerMode::Static, ..c },
                i + 2,
            )
        } else {
            StepModel::Fail(CliFailure::InvalidPath(v))
        }
    } else if arg == "--proxy"@ {
        if matches_at(v, "http://"@, 0) || matches_at(v, "https://"@, 0) {
            with_proxy(c, args, i)
        } else {
            StepModel::Fail(CliFailure::InvalidUrl(v))
        }
    } else if arg == "--ssl-cert"@ {
        if path_exists(exists, i + 1) {
            StepModel::Next(CliModel { ssl: with_cert(c.ssl, v), ..c }, i + 2)
        } else {
            StepModel::Fail(CliFailure::InvalidPath(v))
        }
    } else if arg == "--ssl-key"@ {
        if path_exists(exists, i + 1) {
            StepModel::Next(CliModel { ssl: with_key(c.ssl, v), ..c }, i + 2)
        } else {
            StepModel::Fail(CliFailure::InvalidPath(v))
        }
    } else if arg == "--log-level"@ {
        if known_log_level(v) {
            StepModel::Next(CliModel { log_level: v, ..c }, i + 2)
        } else {
            StepModel::Fail(CliFailure::InvalidArgument("Invalid log level: "@ + v))
        }
    } else if arg == "--log-file"@ {
        StepModel::Next(CliModel { log_file: Some(v), ..c }, i + 2)
    } else if arg == "--cache-size"@ {
        match size_of(v) {
            Ok(size) => StepModel::Next(CliModel { cache_size: size, ..c }, i + 2),
            Err(e) => StepModel::Fail(e),
        }
    } else if arg == "--cache-ttl"@ {
        match parse_decimal(v, u64::MAX as nat) {
            Some(t) => StepModel::Next(CliModel { cache_ttl: t as u64, ..c }, i + 2),
            None => StepModel::Fail(CliFailure::InvalidArgument("Invalid TTL: "@ + v)),
        }
    } else if arg == "--threads"@ {
        match parse_decimal(v, usize::MAX as nat) {
            Some(t) => StepModel::Next(CliModel { threads: t as usize, ..c }, i + 2),
            None => StepModel::Fail(CliFailure::InvalidArgument("Invalid threads: "@ + v)),
        }
    } else if arg == "--max-connections"@ {
        match parse_decimal(v, usize::MAX as nat) {
            Some(t) => StepModel::Next(CliModel { max_connections: t as usize, ..c }, i + 2),
            None => StepModel::Fail(
                CliFailure::InvalidArgument("Invalid max connections: "@ + v),
            ),
        }
    } else if arg == "-c"@ || arg == "--config"@ {
        StepModel::Next(CliModel { config_file: Some(v), ..c }, i + 2)
    } else {
        StepModel::Next(CliModel { pid_file: Some(v), ..c }, i + 2)
    }
}

/// What a missing value of the option is called in the error, for the
/// options that take a value.
pub open spec fn value_name(arg: Seq<char>) -> Option<Seq<char>> {
    if arg == "-p"@ || arg == "--port"@ {
        Some("port"@)
    } else if arg == "--host"@ {
        Some("host"@)
    } else if arg == "-d"@ || arg == "--dir"@ || arg == "--static-dir"@ {
        Some("static directory"@)
    } else if arg == "--proxy"@ {
        Some("proxy target"@)
    } else if arg == "--ssl-cert"@ {
        Some("SSL certificate"@)
    } else if arg == "--ssl-key"@ {
        Some("SSL key"@)
    } else if arg == "--log-level"@ {
        Some("log level"@)
    } else if arg == "--log-file"@ {
        Some("log file"@)
    } else if arg == "--cache-size"@ {
        Some("cache size"@)
    } else if arg == "--cache-ttl"@ {
        Some("cache TTL"@)
    } else if arg == "--threads"@ {
        Some("threads"@)
    } else if arg == "--max-connections"@ {
        Some("max connections"@)
    } else if arg == "-c"@ || arg == "--config"@ {
        Some("config file"@)
    } else if arg == "--pid-file"@ {
        Some("PID file"@)
    } else {
        None
    }
}

/// What reading the argument at `i` leads to.
pub open spec fn step(c: CliModel, args: Seq<Seq<char>>, exists: Seq<bool>, i: int) -> StepModel {
    let arg = args[i];
    if arg == "-h"@ || arg == "--help"@ {
        StepModel::Help
    } else if arg == "-v"@ || arg == "--version"@ {
        StepModel::Version
    } else if value_name(arg).is_some() {
        if i + 1 >= args.len() {
            StepModel::Fail(CliFailure::MissingArgument(value_name(arg).unwrap()))
        } else {
            value_step(c, args, exists, i)
        }
    } else if arg == "--no-cache"@ {
        StepModel::Next(CliModel { cache_enabled: false, ..c }, i + 1)
    } else if arg == "-D"@ || arg == "--daemon"@ {
        StepModel::Next(CliModel { daemon: true, ..c }, i + 1)
    } else if arg == "--auto-index"@ {
        StepModel::Next(CliModel { auto_index: true, ..c }, i + 1)
    } else if arg == "--no-auto-index"@ {
        StepModel::Next(CliModel { auto_index: false, ..c }, i + 1)
    } else {
        StepModel::Fail(CliFailure::InvalidArgument(arg))
    }
}

/// What the command line asks for.
pub enum ActionModel {
    /// Run the server with this configuration.
    Run(CliModel),
    /// Show the help text.
    Help,
    /// Show the version.
    Version,
}

/// What reading the arguments from position `i` on leads to, starting from
/// configuration `c`. The configuration is checked once all arguments are
/// read.
pub open spec fn run_from(c: CliModel, args: Seq<Seq<char>>, exists: Seq<bool>, i: int) -> Result<
    ActionModel,
    CliFailure,
>
    decreases args.len() - i,
{
    if i < 0 || i >= args.len() {
        match config_failure(c) {
            Some(e) => Err(e),
            None => Ok(ActionModel::Run(c)),
        }
    } else {
        match step(c, args, exists, i) {
            StepModel::Help => Ok(ActionModel::Help),
            StepModel::Version => Ok(ActionModel::Version),
            StepModel::Fail(e) => Err(e),
            StepModel::Next(next, j) => if j > i {
                run_from(next, args, exists, j)
            } else {
                Err(CliFailure::InvalidArgument(args[i]))
            },
        }
    }
}

} // verus!

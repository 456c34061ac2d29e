//! The command line parser.

use vstd::prelude::*;
use vstd::string::StringExecFns;
use crate::cli::model::{
    ActionModel, CliFailure, CliModel, CliProxyModel, CliSslModel, ServerMode, StepModel,
    config_failure, default_cli, digits_len, path_exists, run_from, size_of, size_of_lower, step,
    unit_factor, value_name, value_step,
};
use crate::http_parser::message::to_lowercase;
use crate::text::{
    chars_are, chars_of, clone_text, clone_texts, copy_range, parse_decimal, parse_number,
    string_of, text_of, text_starts_with, texts_equal, texts_of,
};

verus! {

/// Wraps `num_cpus::get`, the number of processors that the machine offers
/// to this process. Nothing is claimed of the number.
#[verifier::external_body]
pub(crate) fn cpu_count() -> (n: usize) {
    num_cpus::get()
}

/// Why the command line was refused.
#[derive(Debug)]
pub enum CliError {
    InvalidArgument(String),
    MissingArgument(String),
    InvalidPort(String),
    InvalidPath(String),
    InvalidUrl(String),
    ConfigError(String),
}

impl View for CliError {
    type V = CliFailure;

    open spec fn view(&self) -> CliFailure {
        match self {
            CliError::InvalidArgument(s) => CliFailure::InvalidArgument(s@),
            CliError::MissingArgument(s) => CliFailure::MissingArgument(s@),
            CliError::InvalidPort(s) => CliFailure::InvalidPort(s@),
            CliError::InvalidPath(s) => CliFailure::InvalidPath(s@),
            CliError::InvalidUrl(s) => CliFailure::InvalidUrl(s@),
            CliError::ConfigError(s) => CliFailure::ConfigError(s@),
        }
    }
}

/// One proxy target.
#[derive(Debug, Clone)]
pub struct ProxyConfig {
    pub target_url: String,
    pub path_prefix: Option<String>,
    pub timeout: Option<u64>,
    pub health_check: bool,
}

impl View for ProxyConfig {
    type V = CliProxyModel;

    open spec fn view(&self) -> CliProxyModel {
        CliProxyModel {
            target_url: self.target_url@,
            path_prefix: text_of(self.path_prefix),
            timeout: self.timeout,
            health_check: self.health_check,
        }
    }
}

/// The models of a list of proxy targets.
pub open spec fn proxies_of(v: Seq<ProxyConfig>) -> Seq<CliProxyModel> {
    Seq::new(v.len(), |i: int| v[i]@)
}

/// The TLS files.
#[derive(Debug, Clone)]
pub struct SslConfig {
    pub cert_file: String,
    pub key_file: String,
    pub enabled: bool,
}

impl View for SslConfig {
    type V = CliSslModel;

    open spec fn view(&self) -> CliSslModel {
        CliSslModel {
            cert_file: self.cert_file@,
            key_file: self.key_file@,
            enabled: self.enabled,
        }
    }
}

/// The settings that the command line gives.
#[derive(Debug, Clone)]
pub struct CliConfig {
    pub port: u16,
    pub host: String,
    pub mode: ServerMode,
    pub static_dir: Option<String>,
    pub index_files: Vec<String>,
    pub auto_index: bool,
    pub proxy_configs: Vec<ProxyConfig>,
    pub ssl: Option<SslConfig>,
    pub log_level: String,
    pub log_file: Option<String>,
    pub cache_enabled: bool,
    pub cache_size: usize,
    pub cache_ttl: u64,
    pub threads: usize,
    pub max_connections: usize,
    pub config_file: Option<String>,
    pub daemon: bool,
    pub pid_file: Option<String>,
}

impl View for CliConfig {
    type V = CliModel;

    open spec fn view(&self) -> CliModel {
        CliModel {
            port: self.port,
            host: self.host@,
            mode: self.mode,
            static_dir: text_of(self.static_dir),
            index_files: texts_of(self.index_files@),
            auto_index: self.auto_index,
            proxy_configs: proxies_of(self.proxy_configs@),
            ssl: match self.ssl {
                Some(s) => Some(s@),
                None => None,
            },
            log_level: self.log_level@,
            log_file: text_of(self.log_file),
            cache_enabled: self.cache_enabled,
            cache_size: self.cache_size,
            cache_ttl: self.cache_ttl,
            threads: self.threads,
            max_connections: self.max_connections,
            config_file: text_of(self.config_file),
            daemon: self.daemon,
            pid_file: text_of(self.pid_file),
        }
    }
}

impl CliConfig {
    /// The settings before any argument is read, with the given number of
    /// worker threads.
    pub fn with_threads(threads: usize) -> (c: CliConfig)
        ensures
            c@ == default_cli(threads),
    {
        let mut index_files: Vec<String> = Vec::new();
        index_files.push(String::from_str("index.html"));
        index_files.push(String::from_str("index.htm"));
        let c = CliConfig {
            port: 8080,
            host: String::from_str("0.0.0.0"),
            mode: ServerMode::Static,
            static_dir: None,
            index_files,
            auto_index: true,
            proxy_configs: Vec::new(),
            ssl: None,
            log_level: String::from_str("info"),
            log_file: None,
            cache_enabled: true,
            cache_size: 104857600,
            cache_ttl: 3600,
            threads,
            max_connections: 1000,
            config_file: None,
            daemon: false,
            pid_file: None,
        };
        assert(c@.index_files =~= default_cli(threads).index_files);
        assert(c@.proxy_configs =~= Seq::empty());
        c
    }

    /// A copy of the settings.
    pub fn duplicate(&self) -> (copy: CliConfig)
        ensures
            copy@ == self@,
    {
        let mut proxies: Vec<ProxyConfig> = Vec::new();
        let mut i: usize = 0;
        while i < self.proxy_configs.len()
            invariant
                i <= self.proxy_configs.len(),
                proxies_of(proxies@) == proxies_of(self.proxy_configs@).take(i as int),
            decreases self.proxy_configs.len() - i,
        {
            let ghost before = proxies_of(proxies@);
            let p = &self.proxy_configs[i];
            let item = ProxyConfig {
                target_url: p.target_url.clone(),
                path_prefix: clone_text(&p.path_prefix),
                timeout: p.timeout,
                health_check: p.health_check,
            };
            proxies.push(item);
            assert(proxies_of(proxies@) =~= before.push(self.proxy_configs[i as int]@));
            assert(proxies_of(proxies@) =~= proxies_of(self.proxy_configs@).take(i + 1));
            i += 1;
        }
        assert(proxies_of(self.proxy_configs@).take(self.proxy_configs.len() as int)
            =~= proxies_of(self.proxy_configs@));
        CliConfig {
            port: self.port,
            host: self.host.clone(),
            mode: self.mode,
            static_dir: clone_text(&self.static_dir),
            index_files: clone_texts(&self.index_files),
            auto_index: self.auto_index,
            proxy_configs: proxies,
            ssl: match &self.ssl {
                Some(s) => Some(
                    SslConfig {
                        cert_file: s.cert_file.clone(),
                        key_file: s.key_file.clone(),
                        enabled: s.enabled,
                    },
                ),
                None => None,
            },
            log_level: self.log_level.clone(),
            log_file: clone_text(&self.log_file),
            cache_enabled: self.cache_enabled,
            cache_size: self.cache_size,
            cache_ttl: self.cache_ttl,
            threads: self.threads,
            max_connections: self.max_connections,
            config_file: clone_text(&self.config_file),
            daemon: self.daemon,
            pid_file: clone_text(&self.pid_file),
        }
    }
}

impl Default for CliConfig {
    /// The settings before any argument is read, with one worker thread for
    /// each processor that the machine reports.
    fn default() -> (c: CliConfig)
        ensures
            c@ == default_cli(c.threads),
    {
        CliConfig::with_threads(cpu_count())
    }
}

/// What the command line asks for.
#[derive(Debug)]
pub enum CliAction {
    /// Run the server with this configuration.
    Run(CliConfig),
    /// Show the help text.
    Help,
    /// Show the version.
    Version,
}

impl View for CliAction {
    type V = ActionModel;

    open spec fn view(&self) -> ActionModel {
        match self {
            CliAction::Run(c) => ActionModel::Run(c@),
            CliAction::Help => ActionModel::Help,
            CliAction::Version => ActionModel::Version,
        }
    }
}

/// The size that a text in lower case writes: a decimal number and a unit
/// among none, `b`, `kb`, `mb` and `gb`.
pub fn size_from_lower(lower: &[char]) -> (res: Result<usize, CliError>)
    ensures
        match res {
            Ok(n) => size_of_lower(lower@) == Ok::<usize, CliFailure>(n),
            Err(e) => size_of_lower(lower@) == Err::<usize, CliFailure>(e@),
        },
{
    let n = lower.len();
    let mut k: usize = 0;
    assert(lower@.skip(0) =~= lower@);
    while k < n && lower[k] >= '0' && lower[k] <= '9'
        invariant
            k <= n == lower.len(),
            digits_len(lower@) == k + digits_len(lower@.skip(k as int)),
        decreases n - k,
    {
        assert(lower@.skip(k as int).drop_first() =~= lower@.skip(k + 1));
        k += 1;
    }
    assert(digits_len(lower@) == k);
    let number = copy_range(lower, 0, k);
    let unit = copy_range(lower, k, n);
    assert(number@ =~= lower@.take(k as int));
    assert(unit@ =~= lower@.skip(k as int));
    let value = match parse_number(number.as_slice(), usize::MAX as u64) {
        Some(v) => v as usize,
        None => {
            return Err(
                CliError::InvalidArgument(
                    String::from_str("Invalid size number: ").concat(
                        string_of(number.as_slice()).as_str(),
                    ),
                ),
            );
        },
    };
    let factor: usize = if chars_are(unit.as_slice(), "") || chars_are(unit.as_slice(), "b") {
        1
    } else if chars_are(unit.as_slice(), "kb") {
        1024
    } else if chars_are(unit.as_slice(), "mb") {
        1048576
    } else if chars_are(unit.as_slice(), "gb") {
        1073741824
    } else {
        return Err(
            CliError::InvalidArgument(
                String::from_str("Invalid size unit: ").concat(string_of(unit.as_slice()).as_str()),
            ),
        );
    };
    assert(unit_factor(unit@) == Some(factor as int));
    if value > usize::MAX / factor {
        assert(value * factor > usize::MAX) by (nonlinear_arith)
            requires
                value > usize::MAX / factor,
                factor > 0,
        ;
        return Err(
            CliError::InvalidArgument(
                String::from_str("Invalid size number: ").concat(
                    string_of(number.as_slice()).as_str(),
                ),
            ),
        );
    }
    assert(value * factor <= usize::MAX) by (nonlinear_arith)
        requires
            value <= usize::MAX / factor,
            factor > 0,
    ;
    Ok(value * factor)
}

/// Reads arguments into a configuration.
#[derive(Debug)]
pub struct CliParser {
    args: Vec<String>,
    config: CliConfig,
}

/// What reading one argument leads to.
enum Step {
    Next(usize),
    Help,
    Version,
}

/// What a missing value of the option is called in the error.
fn value_name_of(arg: &str) -> (name: Option<&'static str>)
    ensures
        match name {
            Some(n) => value_name(arg@) == Some(n@),
            None => value_name(arg@).is_none(),
        },
{
    if texts_equal(arg, "-p") || texts_equal(arg, "--port") {
        Some("port")
    } else if texts_equal(arg, "--host") {
        Some("host")
    } else if texts_equal(arg, "-d") || texts_equal(arg, "--dir") || texts_equal(
        arg,
        "--static-dir",
    ) {
        Some("static directory")
    } else if texts_equal(arg, "--proxy") {
        Some("proxy target")
    } else if texts_equal(arg, "--ssl-cert") {
        Some("SSL certificate")
    } else if texts_equal(arg, "--ssl-key") {
        Some("SSL key")
    } else if texts_equal(arg, "--log-level") {
        Some("log level")
    } else if texts_equal(arg, "--log-file") {
        Some("log file")
    } else if texts_equal(arg, "--cache-size") {
        Some("cache size")
    } else if texts_equal(arg, "--cache-ttl") {
        Some("cache TTL")
    } else if texts_equal(arg, "--threads") {
        Some("threads")
    } else if texts_equal(arg, "--max-connections") {
        Some("max connections")
    } else if texts_equal(arg, "-c") || texts_equal(arg, "--config") {
        Some("config file")
    } else if texts_equal(arg, "--pid-file") {
        Some("PID file")
    } else {
        None
    }
}

/// Whether the argument at `i` names a path that exists.
fn exists_at(exists: &Vec<bool>, i: usize) -> (b: bool)
    ensures
        b == path_exists(exists@, i as int),
{
    i < exists.len() && exists[i]
}

/// Reads a decimal number of at most `max` from a string.
fn number_of(s: &str, max: u64) -> (res: Option<u64>)
    ensures
        match res {
            Some(x) => parse_decimal(s@, max as nat) == Some(x as nat),
            None => parse_decimal(s@, max as nat).is_none(),
        },
{
    let chars = chars_of(s);
    parse_number(chars.as_slice(), max)
}

impl CliParser {
    /// A parser for the given arguments, the program's name first, over the
    /// default settings.
    pub fn new(args: Vec<String>) -> (parser: CliParser)
        ensures
            parser.spec_args() == texts_of(args@),
            parser.spec_config() == default_cli(parser.spec_config().threads),
    {
        CliParser { args, config: CliConfig::default() }
    }

    /// The arguments of the parser.
    pub closed spec fn spec_args(&self) -> Seq<Seq<char>> {
        texts_of(self.args@)
    }

    /// The settings read so far.
    pub closed spec fn spec_config(&self) -> CliModel {
        self.config@
    }

    /// The size that a text writes, such as `100MB` or `1gb`, in bytes.
    pub fn parse_size(&self, size_str: &str) -> (res: Result<usize, CliError>)
        ensures
            match res {
                Ok(n) => size_of(size_str@) == Ok::<usize, CliFailure>(n),
                Err(e) => size_of(size_str@) == Err::<usize, CliFailure>(e@),
            },
    {
        let lower = to_lowercase(size_str);
        let chars = chars_of(lower.as_str());
        size_from_lower(chars.as_slice())
    }

    /// Checks that the settings are complete: a directory in static mode, a
    /// target in proxy mode, and both TLS files where TLS is on.
    pub fn validate_config(&self) -> (res: Result<(), CliError>)
        ensures
            match res {
                Ok(_) => config_failure(self.spec_config()).is_none(),
                Err(e) => config_failure(self.spec_config()) == Some(e@),
            },
    {
        if self.config.mode == ServerMode::Static && self.config.static_dir.is_none() {
            return Err(
                CliError::MissingArgument(String::from_str("static directory (use -d or --dir)")),
            );
        }
        if self.config.mode == ServerMode::Proxy && self.config.proxy_configs.len() == 0 {
            return Err(CliError::MissingArgument(String::from_str("proxy target (use --proxy)")));
        }
        match &self.config.ssl {
            Some(ssl) => {
                if ssl.cert_file.as_str().is_empty() || ssl.key_file.as_str().is_empty() {
                    return Err(
                        CliError::MissingArgument(String::from_str("SSL certificate and key files")),
                    );
                }
            },
            None => {},
        }
        Ok(())
    }

    /// Applies an option that takes a value; the value is at `i + 1`.
    fn read_value(&mut self, exists: &Vec<bool>, i: usize) -> (res: Result<Step, CliError>)
        requires
            i + 1 < old(self).args.len(),
            value_name(old(self).spec_args()[i as int]).is_some(),
        ensures
            final(self).spec_args() == old(self).spec_args(),
            match res {
                Ok(Step::Next(j)) => value_step(
                    old(self).spec_config(),
                    old(self).spec_args(),
                    exists@,
                    i as int,
                ) == StepModel::Next(final(self).spec_config(), j as int),
                Ok(_) => false,
                Err(e) => value_step(
                    old(self).spec_config(),
                    old(self).spec_args(),
                    exists@,
                    i as int,
                ) == StepModel::Fail(e@),
            },
    {
        let ghost args = self.spec_args();
        assert(args[i as int] == self.args[i as int]@);
        assert(args[i + 1] == self.args[i + 1]@);
        let arg = self.args[i].as_str();
        let v = self.args[i + 1].as_str();
        if texts_equal(arg, "-p") || texts_equal(arg, "--port") {
            match number_of(v, 65535) {
                Some(p) => {
                    self.config.port = p as u16;
                    Ok(Step::Next(i + 2))
                },
                None => Err(CliError::InvalidPort(String::from_str(v))),
            }
        } else if texts_equal(arg, "--host") {
            self.config.host = String::from_str(v);
            Ok(Step::Next(i + 2))
        } else if texts_equal(arg, "-d") || texts_equal(arg, "--dir") || texts_equal(
            arg,
            "--static-dir",
        ) {
            if !exists_at(exists, i + 1) {
                return Err(CliError::InvalidPath(String::from_str(v)));
            }
            self.config.static_dir = Some(String::from_str(v));
            self.config.mode = ServerMode::Static;
            Ok(Step::Next(i + 2))
        } else if texts_equal(arg, "--proxy") {
            if !text_starts_with(v, "http://") && !text_starts_with(v, "https://") {
                return Err(CliError::InvalidUrl(String::from_str(v)));
            }
            let has_prefix = i + 2 < self.args.len() && !text_starts_with(
                self.args[i + 2].as_str(),
                "-",
            );
            proof {
                reveal_strlit("-");
                assert("-"@ =~= seq!['-']);
                if i + 2 < self.args.len() {
                    assert(args[i + 2] == self.args[i + 2]@);
                }
            }
            let prefix = if has_prefix {
                String::from_str(self.args[i + 2].as_str())
            } else {
                String::from_str("/")
            };
            let proxy = ProxyConfig {
                target_url: String::from_str(v),
                path_prefix: Some(prefix),
                timeout: Some(30),
                health_check: true,
            };
            let ghost before = proxies_of(self.config.proxy_configs@);
            self.config.proxy_configs.push(proxy);
            assert(proxies_of(self.config.proxy_configs@) =~= before.push(proxy@));
            if self.config.mode == ServerMode::Static {
                self.config.mode = ServerMode::Hybrid;
            } else {
                self.config.mode = ServerMode::Proxy;
            }
            if has_prefix {
                Ok(Step::Next(i + 3))
            } else {
                Ok(Step::Next(i + 2))
            }
        } else if texts_equal(arg, "--ssl-cert") {
            if !exists_at(exists, i + 1) {
                return Err(CliError::InvalidPath(String::from_str(v)));
            }
            let path = String::from_str(v);
            let next = match &self.config.ssl {
                None => SslConfig { cert_file: path, key_file: String::new(), enabled: true },
                Some(s) => SslConfig {
                    cert_file: path,
                    key_file: s.key_file.clone(),
                    enabled: s.enabled,
                },
            };
            self.config.ssl = Some(next);
            Ok(Step::Next(i + 2))
        } else if texts_equal(arg, "--ssl-key") {
            if !exists_at(exists, i + 1) {
                return Err(CliError::InvalidPath(String::from_str(v)));
            }
            let path = String::from_str(v);
            let next = match &self.config.ssl {
                None => SslConfig { cert_file: String::new(), key_file: path, enabled: true },
                Some(s) => SslConfig {
                    cert_file: s.cert_file.clone(),
                    key_file: path,
                    enabled: s.enabled,
                },
            };
            self.config.ssl = Some(next);
            Ok(Step::Next(i + 2))
        } else if texts_equal(arg, "--log-level") {
            if !(texts_equal(v, "debug") || texts_equal(v, "info") || texts_equal(v, "warn")
                || texts_equal(v, "error")) {
                return Err(
                    CliError::InvalidArgument(String::from_str("Invalid log level: ").concat(v)),
                );
            }
            self.config.log_level = String::from_str(v);
            Ok(Step::Next(i + 2))
        } else if texts_equal(arg, "--log-file") {
            self.config.log_file = Some(String::from_str(v));
            Ok(Step::Next(i + 2))
        } else if texts_equal(arg, "--cache-size") {
            match self.parse_size(v) {
                Ok(size) => {
                    self.config.cache_size = size;
                    Ok(Step::Next(i + 2))
                },
                Err(e) => Err(e),
            }
        } else if texts_equal(arg, "--cache-ttl") {
            match number_of(v, u64::MAX) {
                Some(t) => {
                    self.config.cache_ttl = t;
                    Ok(Step::Next(i + 2))
                },
                None => Err(CliError::InvalidArgument(String::from_str("Invalid TTL: ").concat(v))),
            }
        } else if texts_equal(arg, "--threads") {
            match number_of(v, usize::MAX as u64) {
                Some(t) => {
                    self.config.threads = t as usize;
                    Ok(Step::Next(i + 2))
                },
                None => Err(
                    CliError::InvalidArgument(String::from_str("Invalid threads: ").concat(v)),
                ),
            }
        } else if texts_equal(arg, "--max-connections") {
            match number_of(v, usize::MAX as u64) {
                Some(t) => {
                    self.config.max_connections = t as usize;
                    Ok(Step::Next(i + 2))
                },
                None => Err(
                    CliError::InvalidArgument(
                        String::from_str("Invalid max connections: ").concat(v),
                    ),
                ),
            }
        } else if texts_equal(arg, "-c") || texts_equal(arg, "--config") {
            self.config.config_file = Some(String::from_str(v));
            Ok(Step::Next(i + 2))
        } else {
            self.config.pid_file = Some(String::from_str(v));
            Ok(Step::Next(i + 2))
        }
    }

    /// Reads the argument at `i`.
    fn read_argument(&mut self, exists: &Vec<bool>, i: usize) -> (res: Result<Step, CliError>)
        requires
            i < old(self).args.len(),
        ensures
            final(self).spec_args() == old(self).spec_args(),
            match res {
                Ok(Step::Next(j)) => step(
                    old(self).spec_config(),
                    old(self).spec_args(),
                    exists@,
                    i as int,
                ) == StepModel::Next(final(self).spec_config(), j as int),
                Ok(Step::Help) => step(
                    old(self).spec_config(),
                    old(self).spec_args(),
                    exists@,
                    i as int,
                ) == StepModel::Help,
                Ok(Step::Version) => step(
                    old(self).spec_config(),
                    old(self).spec_args(),
                    exists@,
                    i as int,
                ) == StepModel::Version,
                Err(e) => step(old(self).spec_config(), old(self).spec_args(), exists@, i as int)
                    == StepModel::Fail(e@),
            },
    {
        let ghost args = self.spec_args();
        assert(args[i as int] == self.args[i as int]@);
        let arg = self.args[i].as_str();
        if texts_equal(arg, "-h") || texts_equal(arg, "--help") {
            return Ok(Step::Help);
        }
        if texts_equal(arg, "-v") || texts_equal(arg, "--version") {
            return Ok(Step::Version);
        }
        match value_name_of(arg) {
            Some(name) => {
                if i + 1 >= self.args.len() {
                    return Err(CliError::MissingArgument(String::from_str(name)));
                }
                return self.read_value(exists, i);
            },
            None => {},
        }
        if texts_equal(arg, "--no-cache") {
            self.config.cache_enabled = false;
            Ok(Step::Next(i + 1))
        } else if texts_equal(arg, "-D") || texts_equal(arg, "--daemon") {
            self.config.daemon = true;
            Ok(Step::Next(i + 1))
        } else if texts_equal(arg, "--auto-index") {
            self.config.auto_index = true;
            Ok(Step::Next(i + 1))
        } else if texts_equal(arg, "--no-auto-index") {
            self.config.auto_index = false;
            Ok(Step::Next(i + 1))
        } else {
            Err(CliError::InvalidArgument(String::from_str(arg)))
        }
    }

    /// Reads all arguments after the program's name and checks the
    /// resulting settings.
    ///
    /// `exists[i]` says whether argument `i` names a path that exists; it
    /// is asked only for the values of the directory and TLS options. A
    /// request for help or for the version ends the reading at once.
    pub fn parse(&mut self, exists: &Vec<bool>) -> (res: Result<CliAction, CliError>)
        ensures
            final(self).spec_args() == old(self).spec_args(),
            match res {
                Ok(action) => run_from(old(self).spec_config(), old(self).spec_args(), exists@, 1)
                    == Ok::<ActionModel, CliFailure>(action@),
                Err(e) => run_from(old(self).spec_config(), old(self).spec_args(), exists@, 1)
                    == Err::<ActionModel, CliFailure>(e@),
            },
            res matches Ok(CliAction::Run(c)) ==> final(self).spec_config() == c@,
    {
        let ghost args = self.spec_args();
        let ghost start = self.spec_config();
        let mut i: usize = 1;
        while i < self.args.len()
            invariant
                1 <= i,
                args == old(self).spec_args(),
                start == old(self).spec_config(),
                self.spec_args() == args,
                args.len() == self.args.len(),
                run_from(start, args, exists@, 1) == run_from(
                    self.spec_config(),
                    args,
                    exists@,
                    i as int,
                ),
            decreases self.args.len() - i,
        {
            match self.read_argument(exists, i) {
                Ok(Step::Next(j)) => {
                    if j <= i {
                        return Err(CliError::InvalidArgument(String::from_str(self.args[i].as_str())));
                    }
                    i = j;
                },
                Ok(Step::Help) => {
                    return Ok(CliAction::Help);
                },
                Ok(Step::Version) => {
                    return Ok(CliAction::Version);
                },
                Err(e) => {
                    return Err(e);
                },
            }
        }
        match self.validate_config() {
            Ok(_) => Ok(CliAction::Run(self.config.duplicate())),
            Err(e) => Err(e),
        }
    }
}

impl Default for CliParser {
    /// A parser without arguments.
    fn default() -> (parser: CliParser)
        ensures
            parser.spec_args() == Seq::<Seq<char>>::empty(),
    {
        let parser = CliParser::new(Vec::new());
        assert(parser.spec_args() =~= Seq::<Seq<char>>::empty());
        parser
    }
}

} // verus!

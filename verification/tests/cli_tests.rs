use anx_core::cli::parser::size_from_lower;
use anx_core::cli::{CliAction, CliConfig, CliError, CliParser, ServerMode};

fn args(list: &[&str]) -> Vec<String> {
    let mut out = vec!["anx".to_string()];
    out.extend(list.iter().map(|s| s.to_string()));
    out
}

fn run(list: &[&str], existing: &[&str]) -> Result<CliAction, CliError> {
    let all = args(list);
    let exists: Vec<bool> = all.iter().map(|a| existing.contains(&a.as_str())).collect();
    CliParser::new(all).parse(&exists)
}

fn config(list: &[&str], existing: &[&str]) -> CliConfig {
    match run(list, existing) {
        Ok(CliAction::Run(c)) => c,
        other => panic!("unexpected: {:?}", other),
    }
}

#[test]
fn test_default_config() {
    let config = CliConfig::default();
    assert_eq!(config.port, 8080);
    assert_eq!(config.host, "0.0.0.0");
    assert_eq!(config.mode, ServerMode::Static);
    assert!(config.cache_enabled);
}

#[test]
fn test_size_parsing() {
    let parser = CliParser::new(Vec::new());
    assert_eq!(parser.parse_size("1024").unwrap(), 1024);
    assert_eq!(parser.parse_size("1MB").unwrap(), 1024 * 1024);
    assert_eq!(parser.parse_size("1GB").unwrap(), 1024 * 1024 * 1024);
}

#[test]
fn default_config_other_fields() {
    let config = CliConfig::with_threads(3);
    assert_eq!(config.threads, 3);
    assert_eq!(config.index_files, vec!["index.html", "index.htm"]);
    assert!(config.auto_index);
    assert!(config.proxy_configs.is_empty());
    assert!(config.ssl.is_none());
    assert_eq!(config.log_level, "info");
    assert_eq!(config.cache_size, 100 * 1024 * 1024);
    assert_eq!(config.cache_ttl, 3600);
    assert_eq!(config.max_connections, 1000);
    assert!(!config.daemon);
    assert_eq!(config.static_dir, None);
    assert_eq!(config.pid_file, None);
    let copy = config.duplicate();
    assert_eq!(copy.port, config.port);
    assert_eq!(copy.index_files, config.index_files);
    assert_eq!(copy.threads, 3);
}

#[test]
fn size_units_and_case() {
    let parser = CliParser::new(Vec::new());
    assert_eq!(parser.parse_size("0").unwrap(), 0);
    assert_eq!(parser.parse_size("7b").unwrap(), 7);
    assert_eq!(parser.parse_size("2kb").unwrap(), 2048);
    assert_eq!(parser.parse_size("100Mb").unwrap(), 100 * 1024 * 1024);
    assert_eq!(parser.parse_size("3gB").unwrap(), 3 * 1024 * 1024 * 1024);
}

#[test]
fn size_errors_name_the_bad_part() {
    let parser = CliParser::new(Vec::new());
    match parser.parse_size("MB") {
        Err(CliError::InvalidArgument(m)) => assert_eq!(m, "Invalid size number: "),
        other => panic!("unexpected: {:?}", other),
    }
    match parser.parse_size("10TB") {
        Err(CliError::InvalidArgument(m)) => assert_eq!(m, "Invalid size unit: tb"),
        other => panic!("unexpected: {:?}", other),
    }
    match parser.parse_size("1 mb") {
        Err(CliError::InvalidArgument(m)) => assert_eq!(m, "Invalid size unit:  mb"),
        other => panic!("unexpected: {:?}", other),
    }
    match parser.parse_size("99999999999999999999999") {
        Err(CliError::InvalidArgument(m)) => {
            assert_eq!(m, "Invalid size number: 99999999999999999999999")
        }
        other => panic!("unexpected: {:?}", other),
    }
    match parser.parse_size("18446744073709551615gb") {
        Err(CliError::InvalidArgument(m)) => {
            assert_eq!(m, "Invalid size number: 18446744073709551615")
        }
        other => panic!("unexpected: {:?}", other),
    }
}

#[test]
fn size_from_lower_case_text() {
    let text: Vec<char> = "12kb".chars().collect();
    assert_eq!(size_from_lower(&text).unwrap(), 12 * 1024);
    let upper: Vec<char> = "12KB".chars().collect();
    assert!(matches!(size_from_lower(&upper), Err(CliError::InvalidArgument(_))));
}

#[test]
fn static_mode_needs_a_directory() {
    match run(&[], &[]) {
        Err(CliError::MissingArgument(m)) => assert_eq!(m, "static directory (use -d or --dir)"),
        other => panic!("unexpected: {:?}", other),
    }
}

#[test]
fn static_directory_must_exist() {
    match run(&["-d", "/srv/www"], &[]) {
        Err(CliError::InvalidPath(p)) => assert_eq!(p, "/srv/www"),
        other => panic!("unexpected: {:?}", other),
    }
    let c = config(&["--dir", "/srv/www", "-p", "80"], &["/srv/www"]);
    assert_eq!(c.static_dir, Some("/srv/www".to_string()));
    assert_eq!(c.port, 80);
    assert_eq!(c.mode, ServerMode::Static);
}

#[test]
fn help_and_version_stop_the_reading() {
    assert!(matches!(run(&["-h", "--bogus"], &[]), Ok(CliAction::Help)));
    assert!(matches!(run(&["--help"], &[]), Ok(CliAction::Help)));
    assert!(matches!(run(&["-v"], &[]), Ok(CliAction::Version)));
    assert!(matches!(run(&["--version"], &[]), Ok(CliAction::Version)));
    assert!(matches!(run(&["--bogus", "-h"], &[]), Err(CliError::InvalidArgument(_))));
}

#[test]
fn unknown_argument_is_named() {
    match run(&["--bogus"], &[]) {
        Err(CliError::InvalidArgument(a)) => assert_eq!(a, "--bogus"),
        other => panic!("unexpected: {:?}", other),
    }
}

#[test]
fn missing_values_are_named() {
    let cases = [
        ("-p", "port"),
        ("--port", "port"),
        ("--host", "host"),
        ("-d", "static directory"),
        ("--static-dir", "static directory"),
        ("--proxy", "proxy target"),
        ("--ssl-cert", "SSL certificate"),
        ("--ssl-key", "SSL key"),
        ("--log-level", "log level"),
        ("--log-file", "log file"),
        ("--cache-size", "cache size"),
        ("--cache-ttl", "cache TTL"),
        ("--threads", "threads"),
        ("--max-connections", "max connections"),
        ("-c", "config file"),
        ("--config", "config file"),
        ("--pid-file", "PID file"),
    ];
    for (flag, name) in cases {
        match run(&[flag], &[]) {
            Err(CliError::MissingArgument(m)) => assert_eq!(m, name),
            other => panic!("unexpected for {}: {:?}", flag, other),
        }
    }
}

#[test]
fn bad_values_are_reported() {
    match run(&["-p", "70000"], &[]) {
        Err(CliError::InvalidPort(p)) => assert_eq!(p, "70000"),
        other => panic!("unexpected: {:?}", other),
    }
    match run(&["-p", "http"], &[]) {
        Err(CliError::InvalidPort(p)) => assert_eq!(p, "http"),
        other => panic!("unexpected: {:?}", other),
    }
    match run(&["--proxy", "ftp://x"], &[]) {
        Err(CliError::InvalidUrl(u)) => assert_eq!(u, "ftp://x"),
        other => panic!("unexpected: {:?}", other),
    }
    match run(&["--log-level", "loud"], &[]) {
        Err(CliError::InvalidArgument(m)) => assert_eq!(m, "Invalid log level: loud"),
        other => panic!("unexpected: {:?}", other),
    }
    match run(&["--cache-ttl", "soon"], &[]) {
        Err(CliError::InvalidArgument(m)) => assert_eq!(m, "Invalid TTL: soon"),
        other => panic!("unexpected: {:?}", other),
    }
    match run(&["--threads", "-2"], &[]) {
        Err(CliError::InvalidArgument(m)) => assert_eq!(m, "Invalid threads: -2"),
        other => panic!("unexpected: {:?}", other),
    }
    match run(&["--max-connections", "1e3"], &[]) {
        Err(CliError::InvalidArgument(m)) => assert_eq!(m, "Invalid max connections: 1e3"),
        other => panic!("unexpected: {:?}", other),
    }
    match run(&["--cache-size", "1xb"], &[]) {
        Err(CliError::InvalidArgument(m)) => assert_eq!(m, "Invalid size unit: xb"),
        other => panic!("unexpected: {:?}", other),
    }
    match run(&["--ssl-cert", "c.pem"], &[]) {
        Err(CliError::InvalidPath(p)) => assert_eq!(p, "c.pem"),
        other => panic!("unexpected: {:?}", other),
    }
    match run(&["--ssl-key", "k.pem"], &[]) {
        Err(CliError::InvalidPath(p)) => assert_eq!(p, "k.pem"),
        other => panic!("unexpected: {:?}", other),
    }
}

#[test]
fn proxy_switches_the_mode() {
    let c = config(&["--proxy", "http://backend:8080"], &[]);
    assert_eq!(c.mode, ServerMode::Hybrid);
    assert_eq!(c.proxy_configs.len(), 1);
    assert_eq!(c.proxy_configs[0].target_url, "http://backend:8080");
    assert_eq!(c.proxy_configs[0].path_prefix, Some("/".to_string()));
    assert_eq!(c.proxy_configs[0].timeout, Some(30));
    assert!(c.proxy_configs[0].health_check);

    let c = config(&["--proxy", "http://a", "/api", "--proxy", "https://b", "--daemon"], &[]);
    assert_eq!(c.mode, ServerMode::Proxy);
    assert_eq!(c.proxy_configs.len(), 2);
    assert_eq!(c.proxy_configs[0].path_prefix, Some("/api".to_string()));
    assert_eq!(c.proxy_configs[1].target_url, "https://b");
    assert_eq!(c.proxy_configs[1].path_prefix, Some("/".to_string()));
    assert!(c.daemon);
}

#[test]
fn directory_after_proxy_returns_to_static_mode() {
    let c = config(&["--proxy", "http://a", "-d", "/srv"], &["/srv"]);
    assert_eq!(c.mode, ServerMode::Static);
    assert_eq!(c.proxy_configs.len(), 1);
}

#[test]
fn tls_needs_both_files() {
    match run(&["-d", "/srv", "--ssl-cert", "c.pem"], &["/srv", "c.pem"]) {
        Err(CliError::MissingArgument(m)) => assert_eq!(m, "SSL certificate and key files"),
        other => panic!("unexpected: {:?}", other),
    }
    let c = config(
        &["-d", "/srv", "--ssl-key", "k.pem", "--ssl-cert", "c.pem"],
        &["/srv", "c.pem", "k.pem"],
    );
    let ssl = c.ssl.unwrap();
    assert_eq!(ssl.cert_file, "c.pem");
    assert_eq!(ssl.key_file, "k.pem");
    assert!(ssl.enabled);
}

#[test]
fn all_plain_options_are_read() {
    let c = config(
        &[
            "-d",
            "/srv",
            "--host",
            "127.0.0.1",
            "--log-level",
            "debug",
            "--log-file",
            "/tmp/log",
            "--no-cache",
            "--cache-size",
            "2MB",
            "--cache-ttl",
            "60",
            "--threads",
            "8",
            "--max-connections",
            "50",
            "-c",
            "anx.toml",
            "-D",
            "--pid-file",
            "/run/anx.pid",
            "--no-auto-index",
        ],
        &["/srv"],
    );
    assert_eq!(c.host, "127.0.0.1");
    assert_eq!(c.log_level, "debug");
    assert_eq!(c.log_file, Some("/tmp/log".to_string()));
    assert!(!c.cache_enabled);
    assert_eq!(c.cache_size, 2 * 1024 * 1024);
    assert_eq!(c.cache_ttl, 60);
    assert_eq!(c.threads, 8);
    assert_eq!(c.max_connections, 50);
    assert_eq!(c.config_file, Some("anx.toml".to_string()));
    assert!(c.daemon);
    assert_eq!(c.pid_file, Some("/run/anx.pid".to_string()));
    assert!(!c.auto_index);
}

#[test]
fn auto_index_can_be_switched_back_on() {
    let c = config(&["-d", "/srv", "--no-auto-index", "--auto-index"], &["/srv"]);
    assert!(c.auto_index);
}

#[test]
fn short_list_of_answers_counts_as_missing_paths() {
    let all = args(&["-d", "/srv"]);
    let exists = vec![true];
    assert!(matches!(CliParser::new(all).parse(&exists), Err(CliError::InvalidPath(_))));
}

#[test]
fn validate_config_of_fresh_parser() {
    let parser = CliParser::new(Vec::new());
    assert!(matches!(parser.validate_config(), Err(CliError::MissingArgument(_))));
    let parser = CliParser::default();
    assert!(matches!(parser.validate_config(), Err(CliError::MissingArgument(_))));
}

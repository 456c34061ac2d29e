use anx_core::config::nginx_compat::{parse_nginx_config, parse_nginx_config_with, to_nginx_config};
use anx_core::config::toml_parser::generate_example_config;
use anx_core::config::{AnxConfig, ConfigError, LocationConfig, SslConfig};
use anx_core::http_parser::Header;

fn invalid_message(res: Result<AnxConfig, ConfigError>) -> String {
    match res {
        Err(ConfigError::Invalid(msg)) => msg,
        other => panic!("unexpected: {:?}", other),
    }
}

fn location(path: &str) -> LocationConfig {
    LocationConfig {
        path: path.to_string(),
        root: None,
        index: None,
        proxy_pass: None,
        return_code: None,
        return_url: None,
        try_files: None,
        headers: None,
    }
}

#[test]
fn test_parse_simple_nginx_config() {
    let nginx_config = r#"
worker_processes auto;

events {
    worker_connections 1024;
}

http {
    server {
        listen 80;
        server_name example.com;
        root /var/www/html;
        index index.html index.htm;
        
        location / {
            try_files $uri $uri/ =404;
        }
    }
}
"#;

    let config = parse_nginx_config(nginx_config).unwrap();
    assert_eq!(config.server.listen, vec!["80"]);
    assert_eq!(config.server.server_name, Some("example.com".to_string()));
    assert_eq!(config.server.root, "/var/www/html");
    assert_eq!(config.locations.len(), 1);
    assert_eq!(config.locations[0].path, "/");
}

#[test]
fn test_convert_to_nginx_config() {
    let config = AnxConfig::default();
    let nginx_config = to_nginx_config(&config);

    assert!(nginx_config.contains("listen 80;"));
    assert!(nginx_config.contains("root /var/www/html;"));
    assert!(nginx_config.contains("index index.html index.htm;"));
}

#[test]
fn default_config_values() {
    let config = AnxConfig::default();
    assert_eq!(config.server.listen, vec!["80"]);
    assert_eq!(config.server.server_name, None);
    assert_eq!(config.server.root, "/var/www/html");
    assert_eq!(config.server.index, vec!["index.html", "index.htm"]);
    assert_eq!(config.server.worker_processes, Some(1));
    assert_eq!(config.server.worker_connections, Some(1024));
    assert_eq!(config.server.keepalive_timeout, Some(65));
    assert_eq!(config.server.client_max_body_size, Some("1M".to_string()));
    let logging = config.logging.unwrap();
    assert_eq!(logging.access_log, Some("/var/log/anx/access.log".to_string()));
    assert_eq!(logging.error_log, Some("/var/log/anx/error.log".to_string()));
    assert_eq!(logging.log_level, Some("info".to_string()));
    assert!(config.ssl.is_none());
    assert!(config.proxy.is_none());
    assert!(config.cache.is_none());
    assert!(config.locations.is_empty());
}

#[test]
fn default_config_is_valid() {
    assert!(AnxConfig::default().validate().is_ok());
}

#[test]
fn validate_names_first_broken_rule() {
    let mut config = AnxConfig::default();
    config.server.listen.clear();
    config.server.root.clear();
    assert_eq!(
        invalid_message(config.validate().map(|_| AnxConfig::default())),
        "Server must have at least one listen address"
    );
    config.server.listen.push("80".to_string());
    assert_eq!(
        invalid_message(config.validate().map(|_| AnxConfig::default())),
        "Server root directory cannot be empty"
    );
    config.server.root = "/srv".to_string();
    config.server.index.clear();
    assert_eq!(
        invalid_message(config.validate().map(|_| AnxConfig::default())),
        "Server must have at least one index file"
    );
}

#[test]
fn validate_checks_tls_paths() {
    let mut config = AnxConfig::default();
    config.ssl = Some(SslConfig {
        certificate: String::new(),
        private_key: String::new(),
        protocols: Vec::new(),
        ciphers: None,
    });
    assert_eq!(
        invalid_message(config.validate().map(|_| AnxConfig::default())),
        "SSL certificate path cannot be empty"
    );
    config.ssl.as_mut().unwrap().certificate = "cert.pem".to_string();
    assert_eq!(
        invalid_message(config.validate().map(|_| AnxConfig::default())),
        "SSL private key path cannot be empty"
    );
    config.ssl.as_mut().unwrap().private_key = "key.pem".to_string();
    assert!(config.validate().is_ok());
}

#[test]
fn validate_checks_location_paths() {
    let mut config = AnxConfig::default();
    config.locations.push(location("/a"));
    config.locations.push(location(""));
    assert_eq!(
        invalid_message(config.validate().map(|_| AnxConfig::default())),
        "Location path cannot be empty"
    );
    config.locations[1].path = "/b".to_string();
    assert!(config.validate().is_ok());
}

#[test]
fn nginx_auto_workers_take_the_given_count() {
    let config = parse_nginx_config_with("worker_processes auto;\n", 6).unwrap();
    assert_eq!(config.server.worker_processes, Some(6));
    let config = parse_nginx_config_with("worker_processes 3;;;\n", 6).unwrap();
    assert_eq!(config.server.worker_processes, Some(3));
}

#[test]
fn nginx_reports_line_of_bad_value() {
    assert_eq!(
        invalid_message(parse_nginx_config_with("# comment\n\nworker_processes many;\n", 1)),
        "Error on line 3: Invalid worker_processes value"
    );
    assert_eq!(
        invalid_message(parse_nginx_config_with("server {\r\n  keepalive_timeout x;\r\n}", 1)),
        "Error on line 2: Invalid keepalive_timeout value"
    );
    assert_eq!(
        invalid_message(parse_nginx_config_with(
            "server {\nlocation /a {\nreturn 70000;\n}\n}\n",
            1
        )),
        "Error on line 3: Invalid return code"
    );
}

#[test]
fn nginx_server_directives() {
    let text = "server {\n\
        listen 80;\n\
        listen 443;\n\
        listen 80;\n\
        server_name a.example b.example;\n\
        root /srv/www;\n\
        index home.html;\n\
        keepalive_timeout 30;\n\
        client_max_body_size 8M;\n\
        access_log /tmp/access.log;\n\
        ssl_certificate /tmp/c.pem;\n\
        ssl_certificate_key /tmp/k.pem;\n\
        ssl_protocols TLSv1.3;\n\
        unknown_directive 1;\n\
        root\n\
        }\n\
        error_log /tmp/error.log;\n";
    let config = parse_nginx_config_with(text, 1).unwrap();
    assert_eq!(config.server.listen, vec!["80", "443"]);
    assert_eq!(config.server.server_name, Some("a.example".to_string()));
    assert_eq!(config.server.root, "/srv/www");
    assert_eq!(config.server.index, vec!["home.html"]);
    assert_eq!(config.server.keepalive_timeout, Some(30));
    assert_eq!(config.server.client_max_body_size, Some("8M".to_string()));
    let logging = config.logging.unwrap();
    assert_eq!(logging.access_log, Some("/tmp/access.log".to_string()));
    assert_eq!(logging.error_log, Some("/tmp/error.log".to_string()));
    assert_eq!(logging.log_level, Some("info".to_string()));
    let ssl = config.ssl.unwrap();
    assert_eq!(ssl.certificate, "/tmp/c.pem");
    assert_eq!(ssl.private_key, "/tmp/k.pem");
    assert_eq!(ssl.protocols, vec!["TLSv1.3"]);
    assert_eq!(ssl.ciphers, None);
}

#[test]
fn nginx_tls_defaults_to_two_protocols() {
    let config =
        parse_nginx_config_with("server {\nssl_certificate c;\nssl_certificate_key k;\n}\n", 1)
            .unwrap();
    assert_eq!(config.ssl.unwrap().protocols, vec!["TLSv1.2", "TLSv1.3"]);
}

#[test]
fn nginx_incomplete_tls_is_not_valid() {
    assert_eq!(
        invalid_message(parse_nginx_config_with("server {\nssl_certificate c;\n}\n", 1)),
        "SSL private key path cannot be empty"
    );
}

#[test]
fn nginx_location_directives() {
    let text = "server {\n\
        location /old {\n\
        return 301 /new;\n\
        }\n\
        location /api {\n\
        root /srv/api;\n\
        index a.html b.html;\n\
        proxy_pass http://backend;\n\
        try_files $uri =404;\n\
        add_header X-Frame-Options SAMEORIGIN;\n\
        add_header Cache-Control no-cache, no-store;\n\
        add_header X-Frame-Options DENY;\n\
        add_header Lonely;\n\
        return 204;\n\
        }\n\
        }\n";
    let config = parse_nginx_config_with(text, 1).unwrap();
    assert_eq!(config.locations.len(), 2);
    let old = &config.locations[0];
    assert_eq!(old.path, "/old");
    assert_eq!(old.return_code, Some(301));
    assert_eq!(old.return_url, Some("/new".to_string()));
    let api = &config.locations[1];
    assert_eq!(api.path, "/api");
    assert_eq!(api.root, Some("/srv/api".to_string()));
    assert_eq!(api.index, Some(vec!["a.html".to_string(), "b.html".to_string()]));
    assert_eq!(api.proxy_pass, Some("http://backend".to_string()));
    assert_eq!(api.try_files, Some(vec!["$uri".to_string(), "=404".to_string()]));
    assert_eq!(api.return_code, Some(204));
    assert_eq!(api.return_url, None);
    let headers = api.headers.as_ref().unwrap();
    assert_eq!(headers.len(), 2);
    assert_eq!(headers[0].name, "X-Frame-Options");
    assert_eq!(headers[0].value, "DENY");
    assert_eq!(headers[1].name, "Cache-Control");
    assert_eq!(headers[1].value, "no-cache, no-store");
}

#[test]
fn nginx_unclosed_location_is_dropped() {
    let config = parse_nginx_config_with("server {\nlocation /a {\nroot /x;\n", 1).unwrap();
    assert!(config.locations.is_empty());
}

#[test]
fn nginx_empty_text_gives_defaults() {
    let config = parse_nginx_config_with("", 1).unwrap();
    assert_eq!(config.server.listen, vec!["80"]);
    assert_eq!(config.server.root, "/var/www/html");
    assert_eq!(config.server.worker_processes, Some(1));
}

#[test]
fn nginx_text_of_default_config_is_exact() {
    let text = to_nginx_config(&AnxConfig::default());
    assert_eq!(
        text,
        "worker_processes 1;\n\
events {\n    worker_connections 1024;\n}\n\n\
http {\n\
\x20   server {\n\
\x20       listen 80;\n\
\x20       root /var/www/html;\n\
\x20       index index.html index.htm;\n\
\x20       access_log /var/log/anx/access.log;\n\
\x20       error_log /var/log/anx/error.log;\n\
\x20   }\n\
}\n"
    );
}

#[test]
fn nginx_text_of_full_config_is_exact() {
    let mut config = AnxConfig::default();
    config.server.worker_processes = None;
    config.server.worker_connections = None;
    config.server.server_name = Some("example.com".to_string());
    config.logging = None;
    config.ssl = Some(SslConfig {
        certificate: "c.pem".to_string(),
        private_key: "k.pem".to_string(),
        protocols: vec!["TLSv1.2".to_string(), "TLSv1.3".to_string()],
        ciphers: Some("HIGH".to_string()),
    });
    let mut first = location("/");
    first.root = Some("/srv".to_string());
    first.index = Some(vec!["i.html".to_string()]);
    first.try_files = Some(vec!["$uri".to_string(), "=404".to_string()]);
    first.headers = Some(vec![Header { name: "X-A".to_string(), value: "1".to_string() }]);
    let mut second = location("/old");
    second.return_code = Some(301);
    second.return_url = Some("/new".to_string());
    second.proxy_pass = Some("http://b".to_string());
    let mut third = location("/gone");
    third.return_code = Some(410);
    config.locations = vec![first, second, third];
    assert_eq!(
        to_nginx_config(&config),
        "http {\n\
\x20   server {\n\
\x20       listen 80;\n\
\x20       server_name example.com;\n\
\x20       root /var/www/html;\n\
\x20       index index.html index.htm;\n\
\x20       ssl_certificate c.pem;\n\
\x20       ssl_certificate_key k.pem;\n\
\x20       ssl_protocols TLSv1.2 TLSv1.3;\n\
\x20       ssl_ciphers HIGH;\n\
\x20       location / {\n\
\x20           root /srv;\n\
\x20           index i.html;\n\
\x20           try_files $uri =404;\n\
\x20           add_header X-A 1;\n\
\x20       }\n\
\x20       location /old {\n\
\x20           proxy_pass http://b;\n\
\x20           return 301 /new;\n\
\x20       }\n\
\x20       location /gone {\n\
\x20           return 410;\n\
\x20       }\n\
\x20   }\n\
}\n"
    );
}

#[test]
fn nginx_text_reads_back() {
    let mut config = AnxConfig::default();
    config.server.server_name = Some("example.com".to_string());
    let mut api = location("/api");
    api.proxy_pass = Some("http://backend".to_string());
    config.locations.push(api);
    let again = parse_nginx_config_with(&to_nginx_config(&config), 1).unwrap();
    assert_eq!(again.server.listen, config.server.listen);
    assert_eq!(again.server.server_name, config.server.server_name);
    assert_eq!(again.server.root, config.server.root);
    assert_eq!(again.server.index, config.server.index);
    assert_eq!(again.server.worker_processes, Some(1));
    assert_eq!(again.locations.len(), 1);
    assert_eq!(again.locations[0].path, "/api");
    assert_eq!(again.locations[0].proxy_pass, Some("http://backend".to_string()));
}

#[test]
fn example_config_names_its_sections() {
    let text = generate_example_config();
    assert!(text.starts_with("# ANX HTTP Server Configuration\n"));
    assert!(text.contains("[server]\nlisten = [\"80\", \"443\"]\n"));
    assert!(text.contains("[[locations]]\npath = \"/api\"\nproxy_pass = \"http://backend\"\n"));
    assert!(text.ends_with("\"X-Content-Type-Options\" = \"nosniff\"\n"));
    assert_eq!(text.lines().count(), 55);
}

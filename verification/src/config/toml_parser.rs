//! The TOML form of the configuration.

use vstd::prelude::*;
use vstd::string::StringExecFns;

verus! {

/// The text of the example configuration.
pub open spec fn example_config_text() -> Seq<char> {
    "# ANX HTTP Server Configuration\n# This is an example configuration file in TOML format\n\n[server]\nlisten = [\"80\", \"443\"]\nserver_name = \"example.com\"\nroot = \"/var/www/html\"\nindex = [\"index.html\", \"index.htm\"]\nworker_processes = 4\nworker_connections = 1024\nkeepalive_timeout = 65\nclient_max_body_size = \"10M\"\n\n[logging]\naccess_log = \"/var/log/anx/access.log\"\nerror_log = \"/var/log/anx/error.log\"\nlog_level = \"info\"\n\n[ssl]\ncertificate = \"/etc/ssl/certs/example.com.crt\"\nprivate_key = \"/etc/ssl/private/example.com.key\"\nprotocols = [\"TLSv1.2\", \"TLSv1.3\"]\nciphers = \"ECDHE-RSA-AES128-GCM-SHA256:ECDHE-RSA-AES256-GCM-SHA384\"\n\n[proxy]\nproxy_timeout = 60\nproxy_connect_timeout = 5\n\n[proxy.upstream]\nbackend = [\"127.0.0.1:8001\", \"127.0.0.1:8002\"]\napi = [\"127.0.0.1:9001\"]\n\n[cache]\nenabled = true\nmax_size = \"100M\"\nttl = 3600\nkeys_zone = \"main:10m\"\n\n[[locations]]\npath = \"/\"\nroot = \"/var/www/html\"\nindex = [\"index.html\"]\n\n[[locations]]\npath = \"/api\"\nproxy_pass = \"http://backend\"\n\n[[locations]]\npath = \"/static\"\nroot = \"/var/www/static\"\ntry_files = [\"$uri\", \"$uri/\", \"@fallback\"]\n\n[locations.headers]\n\"X-Frame-Options\" = \"SAMEORIGIN\"\n\"X-Content-Type-Options\" = \"nosniff\"\n"@
}

/// An example configuration in TOML.
pub fn generate_example_config() -> (text: String)
    ensures
        text@ == example_config_text(),
{
    String::from_str(
        "# ANX HTTP Server Configuration\n# This is an example configuration file in TOML format\n\n[server]\nlisten = [\"80\", \"443\"]\nserver_name = \"example.com\"\nroot = \"/var/www/html\"\nindex = [\"index.html\", \"index.htm\"]\nworker_processes = 4\nworker_connections = 1024\nkeepalive_timeout = 65\nclient_max_body_size = \"10M\"\n\n[logging]\naccess_log = \"/var/log/anx/access.log\"\nerror_log = \"/var/log/anx/error.log\"\nlog_level = \"info\"\n\n[ssl]\ncertificate = \"/etc/ssl/certs/example.com.crt\"\nprivate_key = \"/etc/ssl/private/example.com.key\"\nprotocols = [\"TLSv1.2\", \"TLSv1.3\"]\nciphers = \"ECDHE-RSA-AES128-GCM-SHA256:ECDHE-RSA-AES256-GCM-SHA384\"\n\n[proxy]\nproxy_timeout = 60\nproxy_connect_timeout = 5\n\n[proxy.upstream]\nbackend = [\"127.0.0.1:8001\", \"127.0.0.1:8002\"]\napi = [\"127.0.0.1:9001\"]\n\n[cache]\nenabled = true\nmax_size = \"100M\"\nttl = 3600\nkeys_zone = \"main:10m\"\n\n[[locations]]\npath = \"/\"\nroot = \"/var/www/html\"\nindex = [\"index.html\"]\n\n[[locations]]\npath = \"/api\"\nproxy_pass = \"http://backend\"\n\n[[locations]]\npath = \"/static\"\nroot = \"/var/www/static\"\ntry_files = [\"$uri\", \"$uri/\", \"@fallback\"]\n\n[locations.headers]\n\"X-Frame-Options\" = \"SAMEORIGIN\"\n\"X-Content-Type-Options\" = \"nosniff\"\n",
    )
}

} // verus!

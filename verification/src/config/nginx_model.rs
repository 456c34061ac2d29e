//! What each line of an nginx-style configuration does to the settings.

use vstd::prelude::*;
use crate::config::model::{
    ConfigFailure, ConfigModel, LocationModel, LoggingModel, ServerModel, SslModel,
    default_config, empty_location, validation_failure,
};
use crate::http_parser::headers::{HeaderModel, with_field};
use crate::text::{decimal_text, occurs_in, parse_decimal, split_on, split_spaces, trim};

verus! {

/// The block that a line stands in.
#[derive(Debug, Clone, Copy, PartialEq, Eq, Structural)]
pub enum Context {
    Global,
    Server,
    Location,
}

/// The state of the reader between two lines.
pub struct ReaderModel {
    pub config: ConfigModel,
    pub context: Context,
    pub location: LocationModel,
}

/// The state before the first line.
pub open spec fn initial_reader() -> ReaderModel {
    ReaderModel { config: default_config(), context: Context::Global, location: empty_location() }
}

/// `s` without the semicolons at its end.
pub open spec fn strip_semicolons(s: Seq<char>) -> Seq<char>
    decreases s.len(),
{
    if s.len() > 0 && s.last() == ';' {
        strip_semicolons(s.drop_last())
    } else {
        s
    }
}

/// The words joined by single spaces.
pub open spec fn join_words(words: Seq<Seq<char>>) -> Seq<char>
    decreases words.len(),
{
    if words.len() == 0 {
        Seq::empty()
    } else if words.len() == 1 {
        words[0]
    } else {
        join_words(words.drop_last()) + seq![' '] + words.last()
    }
}

/// The logging settings after the access log was set.
pub open spec fn with_access_log(l: Option<LoggingModel>, path: Seq<char>) -> Option<
    LoggingModel,
> {
    match l {
        None => Some(LoggingModel { access_log: Some(path), error_log: None, log_level: None }),
        Some(old) => Some(LoggingModel { access_log: Some(path), ..old }),
    }
}

/// The logging settings after the error log was set.
pub open spec fn with_error_log(l: Option<LoggingModel>, path: Seq<char>) -> Option<LoggingModel> {
    match l {
        None => Some(LoggingModel { access_log: None, error_log: Some(path), log_level: None }),
        Some(old) => Some(LoggingModel { error_log: Some(path), ..old }),
    }
}

/// The protocols of TLS settings that name none.
pub open spec fn default_protocols() -> Seq<Seq<char>> {
    seq!["TLSv1.2"@, "TLSv1.3"@]
}

/// The TLS settings after the certificate was set.
pub open spec fn with_certificate(s: Option<SslModel>, path: Seq<char>) -> Option<SslModel> {
    match s {
        None => Some(
            SslModel {
                certificate: path,
                private_key: Seq::empty(),
                protocols: default_protocols(),
                ciphers: None,
            },
        ),
        Some(old) => Some(SslModel { certificate: path, ..old }),
    }
}

/// The TLS settings after the private key was set.
pub open spec fn with_private_key(s: Option<SslModel>, path: Seq<char>) -> Option<SslModel> {
    match s {
        None => Some(
            SslModel {
                certificate: Seq::empty(),
                private_key: path,
                protocols: default_protocols(),
                ciphers: None,
            },
        ),
        Some(old) => Some(SslModel { private_key: path, ..old }),
    }
}

/// The TLS settings after the protocols were set.
pub open spec fn with_protocols(s: Option<SslModel>, protocols: Seq<Seq<char>>) -> Option<
    SslModel,
> {
    match s {
        None => Some(
            SslModel {
                certificate: Seq::empty(),
                private_key: Seq::empty(),
                protocols,
                ciphers: None,
            },
        ),
        Some(old) => Some(SslModel { protocols, ..old }),
    }
}

/// What a directive outside any block does. `cpus` is what `auto` stands
/// for. A directive with fewer than two words, or an unknown one, does
/// nothing.
pub open spec fn global_directive(parts: Seq<Seq<char>>, c: ConfigModel, cpus: usize) -> Result<
    ConfigModel,
    Seq<char>,
> {
    if parts.len() < 2 {
        Ok(c)
    } else if parts[0] == "worker_processes"@ {
        if parts[1] == "auto"@ {
            Ok(ConfigModel { server: ServerModel { worker_processes: Some(cpus), ..c.server }, ..c })
        } else {
            match parse_decimal(parts[1], usize::MAX as nat) {
                Some(n) => Ok(
                    ConfigModel {
                        server: ServerModel { worker_processes: Some(n as usize), ..c.server },
                        ..c
                    },
                ),
                None => Err("Invalid worker_processes value"@),
            }
        }
    } else if parts[0] == "error_log"@ {
        Ok(ConfigModel { logging: with_error_log(c.logging, parts[1]), ..c })
    } else {
        Ok(c)
    }
}

/// What a directive of a server block does.
pub open spec fn server_directive(parts: Seq<Seq<char>>, c: ConfigModel) -> Result<
    ConfigModel,
    Seq<char>,
> {
    let s = c.server;
    if parts.len() < 2 {
        Ok(c)
    } else if parts[0] == "listen"@ {
        if s.listen.contains(parts[1]) {
            Ok(c)
        } else {
            Ok(ConfigModel { server: ServerModel { listen: s.listen.push(parts[1]), ..s }, ..c })
        }
    } else if parts[0] == "server_name"@ {
        Ok(ConfigModel { server: ServerModel { server_name: Some(parts[1]), ..s }, ..c })
    } else if parts[0] == "root"@ {
        Ok(ConfigModel { server: ServerModel { root: parts[1], ..s }, ..c })
    } else if parts[0] == "index"@ {
        Ok(ConfigModel { server: ServerModel { index: parts.skip(1), ..s }, ..c })
    } else if parts[0] == "keepalive_timeout"@ {
        match parse_decimal(parts[1], u64::MAX as nat) {
            Some(n) => Ok(
                ConfigModel { server: ServerModel { keepalive_timeout: Some(n as u64), ..s }, ..c },
            ),
            None => Err("Invalid keepalive_timeout value"@),
        }
    } else if parts[0] == "client_max_body_size"@ {
        Ok(ConfigModel { server: ServerModel { client_max_body_size: Some(parts[1]), ..s }, ..c })
    } else if parts[0] == "access_log"@ {
        Ok(ConfigModel { logging: with_access_log(c.logging, parts[1]), ..c })
    } else if parts[0] == "ssl_certificate"@ {
        Ok(ConfigModel { ssl: with_certificate(c.ssl, parts[1]), ..c })
    } else if parts[0] == "ssl_certificate_key"@ {
        Ok(ConfigModel { ssl: with_private_key(c.ssl, parts[1]), ..c })
    } else if parts[0] == "ssl_protocols"@ {
        Ok(ConfigModel { ssl: with_protocols(c.ssl, parts.skip(1)), ..c })
    } else {
        Ok(c)
    }
}

/// The header fields after one was added.
pub open spec fn with_header(h: Option<Seq<HeaderModel>>, name: Seq<char>, value: Seq<char>) -> Option<
    Seq<HeaderModel>,
> {
    match h {
        None => Some(with_field(Seq::empty(), name, value)),
        Some(old) => Some(with_field(old, name, value)),
    }
}

/// What a directive of a location block does.
pub open spec fn location_directive(parts: Seq<Seq<char>>, l: LocationModel) -> Result<
    LocationModel,
    Seq<char>,
> {
    if parts.len() < 2 {
        Ok(l)
    } else if parts[0] == "root"@ {
        Ok(LocationModel { root: Some(parts[1]), ..l })
    } else if parts[0] == "index"@ {
        Ok(LocationModel { index: Some(parts.skip(1)), ..l })
    } else if parts[0] == "proxy_pass"@ {
        Ok(LocationModel { proxy_pass: Some(parts[1]), ..l })
    } else if parts[0] == "return"@ {
        match parse_decimal(parts[1], 65535) {
            Some(code) => Ok(
                LocationModel {
                    return_code: Some(code as u16),
                    return_url: if parts.len() >= 3 {
                        Some(parts[2])
                    } else {
                        l.return_url
                    },
                    ..l
                },
            ),
            None => Err("Invalid return code"@),
        }
    } else if parts[0] == "try_files"@ {
        Ok(LocationModel { try_files: Some(parts.skip(1)), ..l })
    } else if parts[0] == "add_header"@ && parts.len() >= 3 {
        Ok(LocationModel { headers: with_header(l.headers, parts[1], join_words(parts.skip(2))), ..l })
    } else {
        Ok(l)
    }
}

/// What a closing brace does: a location with a path joins the list, and
/// the reader is back in the enclosing block.
pub open spec fn close_block(r: ReaderModel) -> ReaderModel {
    match r.context {
        Context::Server => ReaderModel { context: Context::Global, ..r },
        Context::Location => if r.location.path.len() > 0 {
            ReaderModel {
                config: ConfigModel { locations: r.config.locations.push(r.location), ..r.config },
                context: Context::Server,
                location: empty_location(),
            }
        } else {
            ReaderModel { context: Context::Server, ..r }
        },
        Context::Global => r,
    }
}

/// What one line does, once it is trimmed and is neither empty nor a
/// comment.
pub open spec fn directive(line: Seq<char>, r: ReaderModel, cpus: usize) -> Result<
    ReaderModel,
    Seq<char>,
> {
    let line = strip_semicolons(line);
    let parts = split_spaces(line);
    let opens = occurs_in(line, seq!['{']);
    if parts.len() == 0 {
        Ok(r)
    } else if parts[0] == "server"@ && opens {
        Ok(ReaderModel { context: Context::Server, ..r })
    } else if parts[0] == "location"@ && parts.len() >= 2 && opens {
        Ok(
            ReaderModel {
                context: Context::Location,
                location: LocationModel { path: parts[1], ..r.location },
                ..r
            },
        )
    } else if parts[0] == "}"@ {
        Ok(close_block(r))
    } else if (parts[0] == "events"@ || parts[0] == "http"@) && opens {
        Ok(r)
    } else {
        match r.context {
            Context::Global => match global_directive(parts, r.config, cpus) {
                Ok(c) => Ok(ReaderModel { config: c, ..r }),
                Err(e) => Err(e),
            },
            Context::Server => match server_directive(parts, r.config) {
                Ok(c) => Ok(ReaderModel { config: c, ..r }),
                Err(e) => Err(e),
            },
            Context::Location => match location_directive(parts, r.location) {
                Ok(l) => Ok(ReaderModel { location: l, ..r }),
                Err(e) => Err(e),
            },
        }
    }
}

/// The error for a line that could not be read; lines count from one.
pub open spec fn line_error(index: int, msg: Seq<char>) -> ConfigFailure {
    ConfigFailure::Invalid(
        "Error on line "@ + decimal_text((index + 1) as nat) + ": "@ + msg,
    )
}

/// What the lines from `k` on do. Each line is trimmed; empty lines and
/// lines that start with `#` are skipped.
pub open spec fn read_lines(lines: Seq<Seq<char>>, k: int, r: ReaderModel, cpus: usize) -> Result<
    ReaderModel,
    ConfigFailure,
>
    decreases lines.len() - k,
{
    if k < 0 || k >= lines.len() {
        Ok(r)
    } else {
        let line = trim(lines[k]);
        if line.len() == 0 || line[0] == '#' {
            read_lines(lines, k + 1, r, cpus)
        } else {
            match directive(line, r, cpus) {
                Ok(next) => read_lines(lines, k + 1, next, cpus),
                Err(msg) => Err(line_error(k, msg)),
            }
        }
    }
}

/// The configuration that the text describes, on a machine with `cpus`
/// processors: the lines, taken at line feeds, are read over the default
/// configuration, and the result is validated.
pub open spec fn nginx_model(content: Seq<char>, cpus: usize) -> Result<
    ConfigModel,
    ConfigFailure,
> {
    match read_lines(split_on(content, seq!['\n']), 0, initial_reader(), cpus) {
        Err(e) => Err(e),
        Ok(r) => match validation_failure(r.config) {
            Some(msg) => Err(ConfigFailure::Invalid(msg)),
            None => Ok(r.config),
        },
    }
}

/// One line for each listen address.
pub open spec fn listen_text(listen: Seq<Seq<char>>) -> Seq<char>
    decreases listen.len(),
{
    if listen.len() == 0 {
        Seq::empty()
    } else {
        listen_text(listen.drop_last()) + "        listen "@ + listen.last() + ";\n"@
    }
}

/// One line for each header field of a location.
pub open spec fn add_header_text(h: Seq<HeaderModel>) -> Seq<char>
    decreases h.len(),
{
    if h.len() == 0 {
        Seq::empty()
    } else {
        add_header_text(h.drop_last()) + "            add_header "@ + h.last().name + " "@
            + h.last().value + ";\n"@
    }
}

/// A line of a location block for a setting that is there.
pub open spec fn location_line(name: Seq<char>, value: Option<Seq<char>>) -> Seq<char> {
    match value {
        Some(v) => "            "@ + name + " "@ + v + ";\n"@,
        None => Seq::empty(),
    }
}

/// A line of a location block for a list that is there.
pub open spec fn location_list_line(name: Seq<char>, value: Option<Seq<Seq<char>>>) -> Seq<char> {
    match value {
        Some(v) => "            "@ + name + " "@ + join_words(v) + ";\n"@,
        None => Seq::empty(),
    }
}

/// The line of a location block for its return code, with the target
/// where there is one.
pub open spec fn return_line(code: Option<u16>, url: Option<Seq<char>>) -> Seq<char> {
    match code {
        Some(c) => match url {
            Some(u) => "            return "@ + decimal_text(c as nat) + " "@ + u + ";\n"@,
            None => "            return "@ + decimal_text(c as nat) + ";\n"@,
        },
        None => Seq::empty(),
    }
}

/// The block of one location.
pub open spec fn location_text(l: LocationModel) -> Seq<char> {
    "        location "@ + l.path + " {\n"@ + location_line("root"@, l.root) + location_list_line(
        "index"@,
        l.index,
    ) + location_line("proxy_pass"@, l.proxy_pass) + return_line(l.return_code, l.return_url)
        + location_list_line("try_files"@, l.try_files) + (match l.headers {
        Some(h) => add_header_text(h),
        None => Seq::empty(),
    }) + "        }\n"@
}

/// The blocks of the locations, in order.
pub open spec fn locations_text(ls: Seq<LocationModel>) -> Seq<char>
    decreases ls.len(),
{
    if ls.len() == 0 {
        Seq::empty()
    } else {
        locations_text(ls.drop_last()) + location_text(ls.last())
    }
}

/// A line of the server block for a setting that is there.
pub open spec fn server_line(name: Seq<char>, value: Option<Seq<char>>) -> Seq<char> {
    match value {
        Some(v) => "        "@ + name + " "@ + v + ";\n"@,
        None => Seq::empty(),
    }
}

/// The lines of the server block for the TLS settings.
pub open spec fn ssl_text(s: Option<SslModel>) -> Seq<char> {
    match s {
        Some(ssl) => server_line("ssl_certificate"@, Some(ssl.certificate)) + server_line(
            "ssl_certificate_key"@,
            Some(ssl.private_key),
        ) + server_line("ssl_protocols"@, Some(join_words(ssl.protocols))) + server_line(
            "ssl_ciphers"@,
            ssl.ciphers,
        ),
        None => Seq::empty(),
    }
}

/// The lines of the server block for the logs.
pub open spec fn logging_text(l: Option<LoggingModel>) -> Seq<char> {
    match l {
        Some(log) => server_line("access_log"@, log.access_log) + server_line(
            "error_log"@,
            log.error_log,
        ),
        None => Seq::empty(),
    }
}

/// The lines in front of the `http` block.
pub open spec fn workers_text(s: ServerModel) -> Seq<char> {
    (match s.worker_processes {
        Some(n) => "worker_processes "@ + decimal_text(n as nat) + ";\n"@,
        None => Seq::empty(),
    }) + (match s.worker_connections {
        Some(n) => "events {\n    worker_connections "@ + decimal_text(n as nat) + ";\n}\n\n"@,
        None => Seq::empty(),
    })
}

/// The configuration written in the style of nginx.
pub open spec fn nginx_text(c: ConfigModel) -> Seq<char> {
    workers_text(c.server) + "http {\n"@ + "    server {\n"@ + listen_text(c.server.listen)
        + server_line("server_name"@, c.server.server_name) + server_line(
        "root"@,
        Some(c.server.root),
    ) + server_line("index"@, Some(join_words(c.server.index))) + ssl_text(c.ssl) + logging_text(
        c.logging,
    ) + locations_text(c.locations) + "    }\n"@ + "}\n"@
}

} // verus!

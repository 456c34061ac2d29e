//! Reading and writing the configuration in the style of nginx.

use vstd::prelude::*;
use vstd::string::StringExecFns;
use crate::cli::parser::cpu_count;
use crate::config::model::{ConfigFailure, ConfigModel, LocationModel, empty_location};
use crate::config::nginx_model::{
    Context, ReaderModel, add_header_text, default_protocols, directive, global_directive,
    initial_reader, join_words, line_error, listen_text, location_directive, location_line,
    location_list_line, location_text, locations_text, logging_text, nginx_model, nginx_text,
    read_lines, return_line, server_directive, server_line, ssl_text, strip_semicolons,
    workers_text,
};
use crate::config::types::{
    AnxConfig, ConfigError, LocationConfig, LoggingConfig, SslConfig, locations_of,
};
use crate::http_parser::headers::{Header, fields_of, set_field};
use crate::config::types::opt_texts_of;
use crate::text::{decimal_text, text_of};
use crate::text::{
    chars_are, chars_of, copy_range, find_chars, parse_number, push_chars, push_decimal, push_str,
    rows, split_at_pattern, split_on, split_whitespace, string_of, strings_of, texts_of, trimmed,
};

verus! {

/// The state of the reader that the three values make up.
pub open spec fn reader_of(config: AnxConfig, context: Context, location: LocationConfig) -> ReaderModel {
    ReaderModel { config: config@, context, location: location@ }
}

/// A location without a path and without settings.
fn blank_location() -> (l: LocationConfig)
    ensures
        l@ == empty_location(),
{
    LocationConfig {
        path: String::new(),
        root: None,
        index: None,
        proxy_pass: None,
        return_code: None,
        return_url: None,
        try_files: None,
        headers: None,
    }
}

/// Whether `t` is among the strings of `v`.
fn contains_text(v: &Vec<String>, t: &String) -> (b: bool)
    ensures
        b == texts_of(v@).contains(t@),
{
    let mut i: usize = 0;
    while i < v.len()
        invariant
            i <= v.len(),
            forall|j: int| 0 <= j < i ==> texts_of(v@)[j] != t@,
        decreases v.len() - i,
    {
        if v[i] == *t {
            assert(texts_of(v@)[i as int] == t@);
            return true;
        }
        i += 1;
    }
    false
}

/// The words from `from` on, joined by single spaces.
fn joined_words(parts: &Vec<Vec<char>>, from: usize) -> (s: String)
    requires
        from <= parts.len(),
    ensures
        s@ == join_words(rows(parts@).skip(from as int)),
{
    let ghost words = rows(parts@).skip(from as int);
    let mut out: Vec<char> = Vec::new();
    let mut i: usize = from;
    assert(words.take(0) =~= Seq::empty());
    while i < parts.len()
        invariant
            from <= i <= parts.len(),
            words == rows(parts@).skip(from as int),
            out@ == join_words(words.take(i - from)),
        decreases parts.len() - i,
    {
        let ghost before = out@;
        if i > from {
            out.push(' ');
        }
        push_chars(&mut out, parts[i].as_slice());
        proof {
            let next = words.take(i - from + 1);
            assert(next.drop_last() =~= words.take(i - from));
            assert(next.last() == parts[i as int]@);
            if i == from {
                assert(out@ =~= parts[i as int]@);
            } else {
                assert(out@ =~= before + seq![' '] + parts[i as int]@);
            }
        }
        i += 1;
    }
    assert(words.take(parts.len() - from) =~= words);
    string_of(out.as_slice())
}

/// Applies a directive that stands outside any block. `cpus` is the number
/// that `auto` stands for.
pub fn parse_global_directive(parts: &Vec<Vec<char>>, config: &mut AnxConfig, cpus: usize) -> (res:
    Result<(), String>)
    requires
        parts.len() > 0,
    ensures
        match res {
            Ok(_) => global_directive(rows(parts@), old(config)@, cpus) == Ok::<
                ConfigModel,
                Seq<char>,
            >(final(config)@),
            Err(msg) => global_directive(rows(parts@), old(config)@, cpus) == Err::<
                ConfigModel,
                Seq<char>,
            >(msg@),
        },
{
    if parts.len() < 2 {
        return Ok(());
    }
    assert(rows(parts@)[0] == parts[0]@ && rows(parts@)[1] == parts[1]@);
    if chars_are(parts[0].as_slice(), "worker_processes") {
        if chars_are(parts[1].as_slice(), "auto") {
            config.server.worker_processes = Some(cpus);
        } else {
            match parse_number(parts[1].as_slice(), usize::MAX as u64) {
                Some(n) => {
                    config.server.worker_processes = Some(n as usize);
                },
                None => {
                    return Err(String::from_str("Invalid worker_processes value"));
                },
            }
        }
    } else if chars_are(parts[0].as_slice(), "error_log") {
        let path = string_of(parts[1].as_slice());
        let next = match config.logging.take() {
            None => LoggingConfig { access_log: None, error_log: Some(path), log_level: None },
            Some(old) => LoggingConfig {
                access_log: old.access_log,
                error_log: Some(path),
                log_level: old.log_level,
            },
        };
        config.logging = Some(next);
    }
    Ok(())
}

/// The protocols of TLS settings that name none.
fn usual_protocols() -> (v: Vec<String>)
    ensures
        texts_of(v@) == default_protocols(),
{
    let mut v: Vec<String> = Vec::new();
    v.push(String::from_str("TLSv1.2"));
    v.push(String::from_str("TLSv1.3"));
    assert(texts_of(v@) =~= default_protocols());
    v
}

/// Applies a directive of a server block.
pub fn parse_server_directive(parts: &Vec<Vec<char>>, config: &mut AnxConfig) -> (res: Result<
    (),
    String,
>)
    requires
        parts.len() > 0,
    ensures
        match res {
            Ok(_) => server_directive(rows(parts@), old(config)@) == Ok::<ConfigModel, Seq<char>>(
                final(config)@,
            ),
            Err(msg) => server_directive(rows(parts@), old(config)@) == Err::<
                ConfigModel,
                Seq<char>,
            >(msg@),
        },
{
    if parts.len() < 2 {
        return Ok(());
    }
    assert(rows(parts@)[0] == parts[0]@ && rows(parts@)[1] == parts[1]@);
    let name = parts[0].as_slice();
    let value = string_of(parts[1].as_slice());
    if chars_are(name, "listen") {
        if !contains_text(&config.server.listen, &value) {
            let ghost before = texts_of(config.server.listen@);
            config.server.listen.push(value);
            assert(texts_of(config.server.listen@) =~= before.push(parts[1]@));
        }
    } else if chars_are(name, "server_name") {
        config.server.server_name = Some(value);
    } else if chars_are(name, "root") {
        config.server.root = value;
    } else if chars_are(name, "index") {
        config.server.index = strings_of(parts, 1);
    } else if chars_are(name, "keepalive_timeout") {
        match parse_number(parts[1].as_slice(), u64::MAX) {
            Some(n) => {
                config.server.keepalive_timeout = Some(n);
            },
            None => {
                return Err(String::from_str("Invalid keepalive_timeout value"));
            },
        }
    } else if chars_are(name, "client_max_body_size") {
        config.server.client_max_body_size = Some(value);
    } else if chars_are(name, "access_log") {
        let next = match config.logging.take() {
            None => LoggingConfig { access_log: Some(value), error_log: None, log_level: None },
            Some(old) => LoggingConfig {
                access_log: Some(value),
                error_log: old.error_log,
                log_level: old.log_level,
            },
        };
        config.logging = Some(next);
    } else if chars_are(name, "ssl_certificate") {
        let next = match config.ssl.take() {
            None => SslConfig {
                certificate: value,
                private_key: String::new(),
                protocols: usual_protocols(),
                ciphers: None,
            },
            Some(old) => SslConfig {
                certificate: value,
                private_key: old.private_key,
                protocols: old.protocols,
                ciphers: old.ciphers,
            },
        };
        config.ssl = Some(next);
    } else if chars_are(name, "ssl_certificate_key") {
        let next = match config.ssl.take() {
            None => SslConfig {
                certificate: String::new(),
                private_key: value,
                protocols: usual_protocols(),
                ciphers: None,
            },
            Some(old) => SslConfig {
                certificate: old.certificate,
                private_key: value,
                protocols: old.protocols,
                ciphers: old.ciphers,
            },
        };
        config.ssl = Some(next);
    } else if chars_are(name, "ssl_protocols") {
        let protocols = strings_of(parts, 1);
        let next = match config.ssl.take() {
            None => SslConfig {
                certificate: String::new(),
                private_key: String::new(),
                protocols,
                ciphers: None,
            },
            Some(old) => SslConfig {
                certificate: old.certificate,
                private_key: old.private_key,
                protocols,
                ciphers: old.ciphers,
            },
        };
        config.ssl = Some(next);
    }
    Ok(())
}

/// Applies a directive of a location block.
pub fn parse_location_directive(parts: &Vec<Vec<char>>, location: &mut LocationConfig) -> (res:
    Result<(), String>)
    requires
        parts.len() > 0,
    ensures
        match res {
            Ok(_) => location_directive(rows(parts@), old(location)@) == Ok::<
                LocationModel,
                Seq<char>,
            >(final(location)@),
            Err(msg) => location_directive(rows(parts@), old(location)@) == Err::<
                LocationModel,
                Seq<char>,
            >(msg@),
        },
{
    if parts.len() < 2 {
        return Ok(());
    }
    assert(rows(parts@)[0] == parts[0]@ && rows(parts@)[1] == parts[1]@);
    let name = parts[0].as_slice();
    if chars_are(name, "root") {
        location.root = Some(string_of(parts[1].as_slice()));
    } else if chars_are(name, "index") {
        location.index = Some(strings_of(parts, 1));
    } else if chars_are(name, "proxy_pass") {
        location.proxy_pass = Some(string_of(parts[1].as_slice()));
    } else if chars_are(name, "return") {
        match parse_number(parts[1].as_slice(), 65535) {
            Some(code) => {
                location.return_code = Some(code as u16);
            },
            None => {
                return Err(String::from_str("Invalid return code"));
            },
        }
        if parts.len() >= 3 {
            assert(rows(parts@)[2] == parts[2]@);
            location.return_url = Some(string_of(parts[2].as_slice()));
        }
    } else if chars_are(name, "try_files") {
        location.try_files = Some(strings_of(parts, 1));
    } else if chars_are(name, "add_header") && parts.len() >= 3 {
        let field = string_of(parts[1].as_slice());
        let value = joined_words(parts, 2);
        let mut headers: Vec<Header> = match location.headers.take() {
            Some(h) => h,
            None => Vec::new(),
        };
        assert(old(location).headers.is_none() ==> fields_of(headers@) =~= Seq::empty());
        set_field(&mut headers, field, value);
        location.headers = Some(headers);
    }
    Ok(())
}

/// Applies one line that is trimmed and is neither empty nor a comment.
pub fn parse_directive(
    line: &[char],
    config: &mut AnxConfig,
    context: &mut Context,
    current_location: &mut LocationConfig,
    cpus: usize,
) -> (res: Result<(), String>)
    ensures
        match res {
            Ok(_) => directive(
                line@,
                reader_of(*old(config), *old(context), *old(current_location)),
                cpus,
            ) == Ok::<ReaderModel, Seq<char>>(
                reader_of(*final(config), *final(context), *final(current_location)),
            ),
            Err(msg) => directive(
                line@,
                reader_of(*old(config), *old(context), *old(current_location)),
                cpus,
            ) == Err::<ReaderModel, Seq<char>>(msg@),
        },
{
    let mut end: usize = line.len();
    assert(line@.take(end as int) =~= line@);
    while end > 0 && line[end - 1] == ';'
        invariant
            end <= line.len(),
            strip_semicolons(line@) == strip_semicolons(line@.take(end as int)),
        decreases end,
    {
        assert(line@.take(end as int).drop_last() =~= line@.take(end - 1));
        end -= 1;
    }
    let stripped = copy_range(line, 0, end);
    assert(stripped@ =~= line@.take(end as int));
    assert(stripped@ == strip_semicolons(line@));
    let parts = split_whitespace(stripped.as_slice());
    if parts.len() == 0 {
        return Ok(());
    }
    assert(rows(parts@)[0] == parts[0]@);
    let mut brace: Vec<char> = Vec::new();
    brace.push('{');
    assert(brace@ =~= seq!['{']);
    assert(stripped@.skip(0) =~= stripped@);
    let opens = find_chars(stripped.as_slice(), brace.as_slice(), 0).is_some();
    let first = parts[0].as_slice();
    if chars_are(first, "server") && opens {
        *context = Context::Server;
        return Ok(());
    }
    if chars_are(first, "location") && parts.len() >= 2 && opens {
        assert(rows(parts@)[1] == parts[1]@);
        *context = Context::Location;
        current_location.path = string_of(parts[1].as_slice());
        return Ok(());
    }
    if chars_are(first, "}") {
        match *context {
            Context::Server => {
                *context = Context::Global;
            },
            Context::Location => {
                if !current_location.path.as_str().is_empty() {
                    let mut done = blank_location();
                    core::mem::swap(current_location, &mut done);
                    let ghost before = locations_of(config.locations@);
                    config.locations.push(done);
                    assert(locations_of(config.locations@) =~= before.push(old(current_location)@));
                }
                *context = Context::Server;
            },
            Context::Global => {},
        }
        return Ok(());
    }
    if (chars_are(first, "events") || chars_are(first, "http")) && opens {
        return Ok(());
    }
    match *context {
        Context::Global => parse_global_directive(&parts, config, cpus),
        Context::Server => parse_server_directive(&parts, config),
        Context::Location => parse_location_directive(&parts, current_location),
    }
}

/// The error for a line that could not be read.
fn line_failure(index: usize, msg: &String) -> (e: ConfigError)
    requires
        index < usize::MAX,
    ensures
        e@ == line_error(index as int, msg@),
{
    let mut text: Vec<char> = Vec::new();
    push_str(&mut text, "Error on line ");
    push_decimal(&mut text, (index + 1) as u64);
    push_str(&mut text, ": ");
    push_str(&mut text, msg.as_str());
    assert(text@ =~= "Error on line "@ + decimal_text((index + 1) as nat) + ": "@
        + msg@);
    ConfigError::Invalid(string_of(text.as_slice()))
}

/// Reads an nginx-style configuration on a machine with `cpus` processors.
///
/// A line that cannot be read gives `Invalid` with the number of the line
/// and the reason; a configuration that is not valid gives `Invalid` with
/// the rule that it breaks.
pub fn parse_nginx_config_with(content: &str, cpus: usize) -> (res: Result<AnxConfig, ConfigError>)
    ensures
        match res {
            Ok(c) => nginx_model(content@, cpus) == Ok::<ConfigModel, ConfigFailure>(c@),
            Err(e) => nginx_model(content@, cpus) == Err::<ConfigModel, ConfigFailure>(e@),
        },
{
    let mut config = AnxConfig::default();
    let mut context = Context::Global;
    let mut location = blank_location();
    let text = chars_of(content);
    let mut feed: Vec<char> = Vec::new();
    feed.push('\n');
    assert(feed@ =~= seq!['\n']);
    let lines = split_at_pattern(text.as_slice(), feed.as_slice());
    let ghost all = rows(lines@);
    let mut k: usize = 0;
    while k < lines.len()
        invariant
            k <= lines.len(),
            all == rows(lines@),
            all == split_on(content@, seq!['\n']),
            read_lines(all, 0, initial_reader(), cpus) == read_lines(
                all,
                k as int,
                reader_of(config, context, location),
                cpus,
            ),
        decreases lines.len() - k,
    {
        assert(all[k as int] == lines[k as int]@);
        let line = trimmed(lines[k].as_slice());
        if line.len() > 0 && line[0] != '#' {
            match parse_directive(line.as_slice(), &mut config, &mut context, &mut location, cpus) {
                Ok(_) => {},
                Err(msg) => {
                    return Err(line_failure(k, &msg));
                },
            }
        }
        k += 1;
    }
    match config.validate() {
        Ok(_) => Ok(config),
        Err(e) => Err(e),
    }
}

/// Reads an nginx-style configuration. `worker_processes auto` stands for
/// the number of processors that the machine reports, so the result is
/// that of `parse_nginx_config_with` for some number.
pub fn parse_nginx_config(content: &str) -> (res: Result<AnxConfig, ConfigError>)
    ensures
        exists|cpus: usize|
            match res {
                Ok(c) => #[trigger] nginx_model(content@, cpus) == Ok::<
                    ConfigModel,
                    ConfigFailure,
                >(c@),
                Err(e) => nginx_model(content@, cpus) == Err::<ConfigModel, ConfigFailure>(e@),
            },
{
    let cpus = cpu_count();
    parse_nginx_config_with(content, cpus)
}

/// Appends the strings of `v`, joined by single spaces.
fn push_joined(out: &mut Vec<char>, v: &Vec<String>)
    ensures
        final(out)@ == old(out)@ + join_words(texts_of(v@)),
{
    let ghost words = texts_of(v@);
    let ghost start = out@;
    let mut i: usize = 0;
    assert(words.take(0) =~= Seq::empty());
    assert(out@ =~= start + join_words(words.take(0)));
    while i < v.len()
        invariant
            i <= v.len(),
            words == texts_of(v@),
            start == old(out)@,
            out@ == start + join_words(words.take(i as int)),
        decreases v.len() - i,
    {
        let ghost before = out@;
        if i > 0 {
            out.push(' ');
        }
        push_str(out, v[i].as_str());
        proof {
            let next = words.take(i + 1);
            assert(next.drop_last() =~= words.take(i as int));
            assert(next.last() == v[i as int]@);
            if i == 0 {
                assert(join_words(words.take(0)) =~= Seq::empty());
                assert(out@ =~= start + v[i as int]@);
            } else {
                assert(out@ =~= before + seq![' '] + v[i as int]@);
                assert(out@ =~= start + (join_words(words.take(i as int)) + seq![' ']
                    + v[i as int]@));
            }
        }
        i += 1;
    }
    assert(words.take(v.len() as int) =~= words);
}

/// Appends a line of the server block.
fn push_server_line(out: &mut Vec<char>, name: &str, value: &str)
    ensures
        final(out)@ == old(out)@ + server_line(name@, Some(value@)),
{
    let ghost start = out@;
    push_str(out, "        ");
    push_str(out, name);
    push_str(out, " ");
    push_str(out, value);
    push_str(out, ";\n");
    assert(out@ =~= start + ("        "@ + name@ + " "@ + value@ + ";\n"@));
}

/// Appends a line of a location block.
fn push_location_line(out: &mut Vec<char>, name: &str, value: &str)
    ensures
        final(out)@ == old(out)@ + location_line(name@, Some(value@)),
{
    let ghost start = out@;
    push_str(out, "            ");
    push_str(out, name);
    push_str(out, " ");
    push_str(out, value);
    push_str(out, ";\n");
    assert(out@ =~= start + ("            "@ + name@ + " "@ + value@ + ";\n"@));
}

/// Appends a line of a location block that holds a list.
fn push_location_list(out: &mut Vec<char>, name: &str, value: &Vec<String>)
    ensures
        final(out)@ == old(out)@ + location_list_line(name@, Some(texts_of(value@))),
{
    let ghost start = out@;
    push_str(out, "            ");
    push_str(out, name);
    push_str(out, " ");
    push_joined(out, value);
    push_str(out, ";\n");
    assert(out@ =~= start + ("            "@ + name@ + " "@ + join_words(texts_of(value@))
        + ";\n"@));
}

/// Appends a line of a location block for a setting that may be there.
fn push_location_opt(out: &mut Vec<char>, name: &str, value: &Option<String>)
    ensures
        final(out)@ == old(out)@ + location_line(name@, text_of(*value)),
{
    match value {
        Some(v) => {
            push_location_line(out, name, v.as_str());
        },
        None => {
            assert(out@ =~= old(out)@ + Seq::<char>::empty());
        },
    }
}

/// Appends a line of a location block for a list that may be there.
fn push_location_opt_list(out: &mut Vec<char>, name: &str, value: &Option<Vec<String>>)
    ensures
        final(out)@ == old(out)@ + location_list_line(name@, opt_texts_of(*value)),
{
    match value {
        Some(v) => {
            push_location_list(out, name, v);
        },
        None => {
            assert(out@ =~= old(out)@ + Seq::<char>::empty());
        },
    }
}

/// Appends the line of a location block for its return code.
fn push_return(out: &mut Vec<char>, code: Option<u16>, url: &Option<String>)
    ensures
        final(out)@ == old(out)@ + return_line(code, text_of(*url)),
{
    let ghost start = out@;
    match code {
        Some(c) => {
            push_str(out, "            return ");
            push_decimal(out, c as u64);
            match url {
                Some(u) => {
                    push_str(out, " ");
                    push_str(out, u.as_str());
                    push_str(out, ";\n");
                    assert(out@ =~= start + ("            return "@ + decimal_text(
                        c as nat,
                    ) + " "@ + u@ + ";\n"@));
                },
                None => {
                    push_str(out, ";\n");
                    assert(out@ =~= start + ("            return "@ + decimal_text(
                        c as nat,
                    ) + ";\n"@));
                },
            }
        },
        None => {
            assert(out@ =~= start + Seq::<char>::empty());
        },
    }
}

/// Appends one line for each header field of a location.
fn push_add_headers(out: &mut Vec<char>, h: &Vec<Header>)
    ensures
        final(out)@ == old(out)@ + add_header_text(fields_of(h@)),
{
    let ghost start = out@;
    let ghost fields = fields_of(h@);
    let mut i: usize = 0;
    assert(fields.take(0) =~= Seq::empty());
    assert(out@ =~= start + add_header_text(fields.take(0)));
    while i < h.len()
        invariant
            i <= h.len(),
            fields == fields_of(h@),
            out@ == start + add_header_text(fields.take(i as int)),
        decreases h.len() - i,
    {
        let ghost before = out@;
        let ghost done = add_header_text(fields.take(i as int));
        push_str(out, "            add_header ");
        push_str(out, h[i].name.as_str());
        push_str(out, " ");
        push_str(out, h[i].value.as_str());
        push_str(out, ";\n");
        proof {
            let next = fields.take(i + 1);
            assert(next.drop_last() =~= fields.take(i as int));
            assert(next.last() == h[i as int]@);
            assert(add_header_text(next) == done + "            add_header "@ + h[i as int]@.name
                + " "@ + h[i as int]@.value + ";\n"@);
            assert(out@ =~= start + (done + "            add_header "@ + h[i as int]@.name + " "@
                + h[i as int]@.value + ";\n"@));
        }
        i += 1;
    }
    assert(fields.take(h.len() as int) =~= fields);
}

/// Appends the first line of a location block.
fn push_location_head(out: &mut Vec<char>, path: &str)
    ensures
        final(out)@ == old(out)@ + ("        location "@ + path@ + " {\n"@),
{
    let ghost start = out@;
    push_str(out, "        location ");
    push_str(out, path);
    push_str(out, " {\n");
    assert(out@ =~= start + ("        location "@ + path@ + " {\n"@));
}

/// Joining pieces one after the other is joining their sum.
proof fn lemma_append(start: Seq<char>, done: Seq<char>, piece: Seq<char>)
    ensures
        (start + done) + piece == start + (done + piece),
{
    assert((start + done) + piece =~= start + (done + piece));
}

/// Appends the block of one location.
fn push_location(out: &mut Vec<char>, l: &LocationConfig)
    ensures
        final(out)@ == old(out)@ + location_text(l@),
{
    let ghost start = out@;
    let ghost m = l@;
    push_location_head(out, l.path.as_str());
    let ghost d0 = "        location "@ + m.path + " {\n"@;
    assert(out@ == start + d0);
    push_location_opt(out, "root", &l.root);
    let ghost d1 = d0 + location_line("root"@, m.root);
    proof {
        lemma_append(start, d0, location_line("root"@, m.root));
    }
    assert(out@ == start + d1);
    push_location_opt_list(out, "index", &l.index);
    let ghost d2 = d1 + location_list_line("index"@, m.index);
    proof {
        lemma_append(start, d1, location_list_line("index"@, m.index));
    }
    assert(out@ == start + d2);
    push_location_opt(out, "proxy_pass", &l.proxy_pass);
    let ghost d3 = d2 + location_line("proxy_pass"@, m.proxy_pass);
    proof {
        lemma_append(start, d2, location_line("proxy_pass"@, m.proxy_pass));
    }
    assert(out@ == start + d3);
    push_return(out, l.return_code, &l.return_url);
    let ghost d4 = d3 + return_line(m.return_code, m.return_url);
    proof {
        lemma_append(start, d3, return_line(m.return_code, m.return_url));
    }
    assert(out@ == start + d4);
    push_location_opt_list(out, "try_files", &l.try_files);
    let ghost d5 = d4 + location_list_line("try_files"@, m.try_files);
    proof {
        lemma_append(start, d4, location_list_line("try_files"@, m.try_files));
    }
    assert(out@ == start + d5);
    let ghost fields = match m.headers {
        Some(h) => add_header_text(h),
        None => Seq::<char>::empty(),
    };
    match &l.headers {
        Some(h) => {
            push_add_headers(out, h);
        },
        None => {
            assert(out@ =~= out@ + Seq::<char>::empty());
        },
    }
    let ghost d6 = d5 + fields;
    proof {
        lemma_append(start, d5, fields);
    }
    assert(out@ == start + d6);
    push_str(out, "        }\n");
    proof {
        lemma_append(start, d6, "        }\n"@);
    }
    assert(location_text(m) == d6 + "        }\n"@);
}

/// Appends the blocks of the locations.
fn push_locations(out: &mut Vec<char>, v: &Vec<LocationConfig>)
    ensures
        final(out)@ == old(out)@ + locations_text(locations_of(v@)),
{
    let ghost start = out@;
    let ghost locations = locations_of(v@);
    let mut j: usize = 0;
    assert(locations.take(0) =~= Seq::empty());
    assert(out@ =~= start + locations_text(locations.take(0)));
    while j < v.len()
        invariant
            j <= v.len(),
            locations == locations_of(v@),
            out@ == start + locations_text(locations.take(j as int)),
        decreases v.len() - j,
    {
        let ghost done = locations_text(locations.take(j as int));
        push_location(out, &v[j]);
        proof {
            let next = locations.take(j + 1);
            assert(next.drop_last() =~= locations.take(j as int));
            assert(next.last() == v[j as int]@);
            lemma_append(start, done, location_text(v[j as int]@));
        }
        j += 1;
    }
    assert(locations.take(v.len() as int) =~= locations);
}

/// Appends one line for each listen address.
fn push_listen(out: &mut Vec<char>, v: &Vec<String>)
    ensures
        final(out)@ == old(out)@ + listen_text(texts_of(v@)),
{
    let ghost start = out@;
    let ghost listen = texts_of(v@);
    let mut i: usize = 0;
    assert(listen.take(0) =~= Seq::empty());
    assert(out@ =~= start + listen_text(listen.take(0)));
    while i < v.len()
        invariant
            i <= v.len(),
            listen == texts_of(v@),
            out@ == start + listen_text(listen.take(i as int)),
        decreases v.len() - i,
    {
        let ghost done = listen_text(listen.take(i as int));
        push_str(out, "        listen ");
        push_str(out, v[i].as_str());
        push_str(out, ";\n");
        proof {
            let next = listen.take(i + 1);
            assert(next.drop_last() =~= listen.take(i as int));
            assert(next.last() == v[i as int]@);
            assert(listen_text(next) == done + "        listen "@ + v[i as int]@ + ";\n"@);
            assert(out@ =~= start + (done + "        listen "@ + v[i as int]@ + ";\n"@));
        }
        i += 1;
    }
    assert(listen.take(v.len() as int) =~= listen);
}

/// Appends a line of the server block for a setting that may be there.
fn push_server_opt(out: &mut Vec<char>, name: &str, value: &Option<String>)
    ensures
        final(out)@ == old(out)@ + server_line(name@, text_of(*value)),
{
    match value {
        Some(v) => {
            push_server_line(out, name, v.as_str());
        },
        None => {
            assert(out@ =~= old(out)@ + Seq::<char>::empty());
        },
    }
}

/// Appends a line of the server block that holds a list.
fn push_server_list(out: &mut Vec<char>, name: &str, value: &Vec<String>)
    ensures
        final(out)@ == old(out)@ + server_line(name@, Some(join_words(texts_of(value@)))),
{
    let mut joined: Vec<char> = Vec::new();
    push_joined(&mut joined, value);
    assert(joined@ =~= join_words(texts_of(value@)));
    let text = string_of(joined.as_slice());
    push_server_line(out, name, text.as_str());
}

/// Appends the lines of the server block for the TLS settings.
fn push_ssl(out: &mut Vec<char>, ssl: &Option<SslConfig>)
    ensures
        final(out)@ == old(out)@ + ssl_text(
            match *ssl {
                Some(s) => Some(s@),
                None => None,
            },
        ),
{
    let ghost start = out@;
    match ssl {
        Some(s) => {
            let ghost m = s@;
            push_server_line(out, "ssl_certificate", s.certificate.as_str());
            let ghost cert_line = server_line("ssl_certificate"@, Some(m.certificate));
            push_server_line(out, "ssl_certificate_key", s.private_key.as_str());
            let ghost key_line = server_line("ssl_certificate_key"@, Some(m.private_key));
            proof {
                lemma_append(start, cert_line, key_line);
            }
            push_server_list(out, "ssl_protocols", &s.protocols);
            let ghost protocols_line = server_line("ssl_protocols"@, Some(join_words(m.protocols)));
            proof {
                lemma_append(start, cert_line + key_line, protocols_line);
            }
            push_server_opt(out, "ssl_ciphers", &s.ciphers);
            let ghost ciphers_line = server_line("ssl_ciphers"@, m.ciphers);
            proof {
                lemma_append(start, cert_line + key_line + protocols_line, ciphers_line);
            }
            assert(out@ == start + (cert_line + key_line + protocols_line + ciphers_line));
        },
        None => {
            assert(out@ =~= start + Seq::<char>::empty());
        },
    }
}

/// Appends the lines of the server block for the logs.
fn push_logging(out: &mut Vec<char>, logging: &Option<LoggingConfig>)
    ensures
        final(out)@ == old(out)@ + logging_text(
            match *logging {
                Some(l) => Some(l@),
                None => None,
            },
        ),
{
    let ghost start = out@;
    match logging {
        Some(l) => {
            push_server_opt(out, "access_log", &l.access_log);
            push_server_opt(out, "error_log", &l.error_log);
            proof {
                lemma_append(
                    start,
                    server_line("access_log"@, l@.access_log),
                    server_line("error_log"@, l@.error_log),
                );
            }
        },
        None => {
            assert(out@ =~= start + Seq::<char>::empty());
        },
    }
}

/// Appends the lines that stand in front of the `http` block.
fn push_workers(out: &mut Vec<char>, processes: Option<usize>, connections: Option<usize>)
    ensures
        final(out)@ == old(out)@ + (match processes {
            Some(n) => "worker_processes "@ + decimal_text(n as nat) + ";\n"@,
            None => Seq::empty(),
        }) + (match connections {
            Some(n) => "events {\n    worker_connections "@ + decimal_text(n as nat)
                + ";\n}\n\n"@,
            None => Seq::empty(),
        }),
{
    let ghost start = out@;
    match processes {
        Some(n) => {
            push_str(out, "worker_processes ");
            push_decimal(out, n as u64);
            push_str(out, ";\n");
            assert(out@ =~= start + ("worker_processes "@ + decimal_text(n as nat)
                + ";\n"@));
        },
        None => {
            assert(out@ =~= start + Seq::<char>::empty());
        },
    }
    let ghost mid = out@;
    match connections {
        Some(n) => {
            push_str(out, "events {\n    worker_connections ");
            push_decimal(out, n as u64);
            push_str(out, ";\n}\n\n");
            assert(out@ =~= mid + ("events {\n    worker_connections "@
                + decimal_text(n as nat) + ";\n}\n\n"@));
        },
        None => {
            assert(out@ =~= mid + Seq::<char>::empty());
        },
    }
}

/// Writes the configuration in the style of nginx: the worker settings,
/// then one `http` block with one `server` block that holds the server
/// settings, TLS, the logs and one block for each location.
pub fn to_nginx_config(config: &AnxConfig) -> (text: String)
    ensures
        text@ == nginx_text(config@),
{
    let ghost m = config@;
    let mut out: Vec<char> = Vec::new();
    push_workers(&mut out, config.server.worker_processes, config.server.worker_connections);
    assert(out@ =~= workers_text(m.server));
    push_str(&mut out, "http {\n");
    push_str(&mut out, "    server {\n");
    push_listen(&mut out, &config.server.listen);
    push_server_opt(&mut out, "server_name", &config.server.server_name);
    push_server_line(&mut out, "root", config.server.root.as_str());
    push_server_list(&mut out, "index", &config.server.index);
    push_ssl(&mut out, &config.ssl);
    push_logging(&mut out, &config.logging);
    push_locations(&mut out, &config.locations);
    push_str(&mut out, "    }\n");
    push_str(&mut out, "}\n");
    string_of(out.as_slice())
}

} // verus!

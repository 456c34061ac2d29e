//! Requests and responses, and the grammar of a request's head.

use vstd::prelude::*;
use vstd::slice::slice_subrange;
use vstd::string::StringExecFns;
use vstd::utf8::{
    decode_utf8, is_char_boundary_iff_not_is_continuation_byte, valid_utf8, valid_utf8_split,
};
use crate::http_parser::headers::{
    Header, HeaderModel, field_value, fields_of, lookup_field, set_field, with_field,
};
use crate::text::{
    chars_are, chars_of, chars_start_with, copy_range, find_bytes, find_chars, first_match,
    matches_at, occurs_in, parse_decimal, parse_number, rows, split_at_pattern, split_on,
    split_spaces, split_whitespace, string_of, trim, trimmed,
};

verus! {

/// Declares `core::str::Utf8Error`, the error of `core::str::from_utf8`, as an
/// opaque type.
#[verifier::external_type_specification]
#[verifier::external_body]
pub struct ExUtf8Error(core::str::Utf8Error);

/// The lower-case form of `s`, as `str::to_lowercase` returns it.
pub uninterp spec fn lowercase_of(s: Seq<char>) -> Seq<char>;

/// The upper-case form of `s`, as `str::to_uppercase` returns it.
pub uninterp spec fn uppercase_of(s: Seq<char>) -> Seq<char>;

/// Wraps `str::to_lowercase`.
#[verifier::external_body]
pub(crate) fn to_lowercase(s: &str) -> (lower: String)
    ensures
        lower@ == lowercase_of(s@),
{
    s.to_lowercase()
}

/// Wraps `str::to_uppercase`.
#[verifier::external_body]
pub(crate) fn to_uppercase(s: &str) -> (upper: String)
    ensures
        upper@ == uppercase_of(s@),
{
    s.to_uppercase()
}

/// Wraps `core::str::from_utf8`: it succeeds exactly on well-formed UTF-8,
/// and the text it returns is the one that the bytes encode.
#[verifier::external_body]
pub(crate) fn utf8_text(data: &[u8]) -> (res: Result<&str, core::str::Utf8Error>)
    ensures
        res.is_ok() == valid_utf8(data@),
        res matches Ok(s) ==> s@ == decode_utf8(data@),
{
    core::str::from_utf8(data)
}

/// The request methods that the server knows.
#[derive(Debug, Clone, Copy, PartialEq, Eq, Structural)]
pub enum HttpMethod {
    Get,
    Post,
    Put,
    Delete,
    Head,
    Options,
    Patch,
    Trace,
    Connect,
}

/// Why a request could not be parsed.
#[derive(Debug)]
pub enum HttpParseError {
    Invalid(String),
    Incomplete,
    TooLarge,
    InvalidMethod(String),
    InvalidUri(String),
    InvalidVersion(String),
    InvalidHeader(String),
    Utf8Error(core::str::Utf8Error),
}

/// A parse error as plain text.
pub enum ParseFailure {
    Invalid(Seq<char>),
    Incomplete,
    TooLarge,
    InvalidMethod(Seq<char>),
    InvalidUri(Seq<char>),
    InvalidVersion(Seq<char>),
    InvalidHeader(Seq<char>),
    Utf8Error,
}

impl View for HttpParseError {
    type V = ParseFailure;

    open spec fn view(&self) -> ParseFailure {
        match self {
            HttpParseError::Invalid(s) => ParseFailure::Invalid(s@),
            HttpParseError::Incomplete => ParseFailure::Incomplete,
            HttpParseError::TooLarge => ParseFailure::TooLarge,
            HttpParseError::InvalidMethod(s) => ParseFailure::InvalidMethod(s@),
            HttpParseError::InvalidUri(s) => ParseFailure::InvalidUri(s@),
            HttpParseError::InvalidVersion(s) => ParseFailure::InvalidVersion(s@),
            HttpParseError::InvalidHeader(s) => ParseFailure::InvalidHeader(s@),
            HttpParseError::Utf8Error(_) => ParseFailure::Utf8Error,
        }
    }
}

/// The method that an upper-case name stands for.
pub open spec fn method_named(upper: Seq<char>) -> Option<HttpMethod> {
    if upper == "GET"@ {
        Some(HttpMethod::Get)
    } else if upper == "POST"@ {
        Some(HttpMethod::Post)
    } else if upper == "PUT"@ {
        Some(HttpMethod::Put)
    } else if upper == "DELETE"@ {
        Some(HttpMethod::Delete)
    } else if upper == "HEAD"@ {
        Some(HttpMethod::Head)
    } else if upper == "OPTIONS"@ {
        Some(HttpMethod::Options)
    } else if upper == "PATCH"@ {
        Some(HttpMethod::Patch)
    } else if upper == "TRACE"@ {
        Some(HttpMethod::Trace)
    } else if upper == "CONNECT"@ {
        Some(HttpMethod::Connect)
    } else {
        None
    }
}

/// The method that an upper-case name stands for.
pub fn method_for(upper: &[char]) -> (m: Option<HttpMethod>)
    ensures
        m == method_named(upper@),
{
    if chars_are(upper, "GET") {
        Some(HttpMethod::Get)
    } else if chars_are(upper, "POST") {
        Some(HttpMethod::Post)
    } else if chars_are(upper, "PUT") {
        Some(HttpMethod::Put)
    } else if chars_are(upper, "DELETE") {
        Some(HttpMethod::Delete)
    } else if chars_are(upper, "HEAD") {
        Some(HttpMethod::Head)
    } else if chars_are(upper, "OPTIONS") {
        Some(HttpMethod::Options)
    } else if chars_are(upper, "PATCH") {
        Some(HttpMethod::Patch)
    } else if chars_are(upper, "TRACE") {
        Some(HttpMethod::Trace)
    } else if chars_are(upper, "CONNECT") {
        Some(HttpMethod::Connect)
    } else {
        None
    }
}

/// The canonical name of a method.
pub open spec fn method_name(m: HttpMethod) -> Seq<char> {
    match m {
        HttpMethod::Get => "GET"@,
        HttpMethod::Post => "POST"@,
        HttpMethod::Put => "PUT"@,
        HttpMethod::Delete => "DELETE"@,
        HttpMethod::Head => "HEAD"@,
        HttpMethod::Options => "OPTIONS"@,
        HttpMethod::Patch => "PATCH"@,
        HttpMethod::Trace => "TRACE"@,
        HttpMethod::Connect => "CONNECT"@,
    }
}

impl HttpMethod {
    /// The method that `s` names, whatever its case; `InvalidMethod` with
    /// the name as given where it names none.
    pub fn from_name(s: &str) -> (res: Result<HttpMethod, HttpParseError>)
        ensures
            match res {
                Ok(m) => method_named(uppercase_of(s@)) == Some(m),
                Err(e) => method_named(uppercase_of(s@)).is_none() && e@
                    == ParseFailure::InvalidMethod(s@),
            },
    {
        let upper = to_uppercase(s);
        let chars = chars_of(upper.as_str());
        match method_for(chars.as_slice()) {
            Some(m) => Ok(m),
            None => Err(HttpParseError::InvalidMethod(String::from_str(s))),
        }
    }

    /// The canonical name of the method, in upper case.
    pub fn as_str(&self) -> (name: &'static str)
        ensures
            name@ == method_name(*self),
    {
        match self {
            HttpMethod::Get => "GET",
            HttpMethod::Post => "POST",
            HttpMethod::Put => "PUT",
            HttpMethod::Delete => "DELETE",
            HttpMethod::Head => "HEAD",
            HttpMethod::Options => "OPTIONS",
            HttpMethod::Patch => "PATCH",
            HttpMethod::Trace => "TRACE",
            HttpMethod::Connect => "CONNECT",
        }
    }
}

impl core::str::FromStr for HttpMethod {
    type Err = HttpParseError;

    /// The method that `s` names, whatever its case; `InvalidMethod` with
    /// the name as given where it names none.
    fn from_str(s: &str) -> (res: Result<HttpMethod, HttpParseError>)
        ensures
            match res {
                Ok(m) => method_named(uppercase_of(s@)) == Some(m),
                Err(e) => method_named(uppercase_of(s@)).is_none() && e@
                    == ParseFailure::InvalidMethod(s@),
            },
    {
        HttpMethod::from_name(s)
    }
}

/// A parsed request.
#[derive(Debug, Clone)]
pub struct HttpRequest {
    pub method: String,
    pub uri: String,
    pub version: String,
    pub headers: Vec<Header>,
    pub body: Vec<u8>,
}

/// A request as plain values.
pub struct RequestModel {
    pub method: Seq<char>,
    pub uri: Seq<char>,
    pub version: Seq<char>,
    pub headers: Seq<HeaderModel>,
    pub body: Seq<u8>,
}

impl View for HttpRequest {
    type V = RequestModel;

    open spec fn view(&self) -> RequestModel {
        RequestModel {
            method: self.method@,
            uri: self.uri@,
            version: self.version@,
            headers: fields_of(self.headers@),
            body: self.body@,
        }
    }
}

/// The bytes that end the head of a request: two line ends in a row.
pub open spec fn head_end() -> Seq<u8> {
    seq![13u8, 10u8, 13u8, 10u8]
}

/// The characters that end a line of the head.
pub open spec fn line_end() -> Seq<char> {
    seq!['\r', '\n']
}

/// The header fields that the lines hold, added to `acc` in order. Reading
/// stops at an empty line; a line without a colon is an invalid header. The
/// name is the text before the first colon, trimmed and in lower case; the
/// value is the trimmed rest.
pub open spec fn header_lines(lines: Seq<Seq<char>>, acc: Seq<HeaderModel>) -> Result<
    Seq<HeaderModel>,
    ParseFailure,
>
    decreases lines.len(),
{
    if lines.len() == 0 || lines[0].len() == 0 {
        Ok(acc)
    } else {
        let line = lines[0];
        if !occurs_in(line, seq![':']) {
            Err(ParseFailure::InvalidHeader(line))
        } else {
            let colon = first_match(line, seq![':']);
            header_lines(
                lines.drop_first(),
                with_field(acc, lowercase_of(trim(line.take(colon))), trim(line.skip(colon + 1))),
            )
        }
    }
}

/// The request that the text of a head describes, with an empty body.
///
/// The first line holds exactly three words: a known method, the target and
/// a version that starts with `HTTP/`. The other lines are header fields.
pub open spec fn head_model(text: Seq<char>) -> Result<RequestModel, ParseFailure> {
    let lines = split_on(text, line_end());
    let parts = split_spaces(lines[0]);
    if parts.len() != 3 {
        Err(ParseFailure::Invalid("Invalid request line"@))
    } else if method_named(uppercase_of(parts[0])).is_none() {
        Err(ParseFailure::InvalidMethod(parts[0]))
    } else if !matches_at(parts[2], "HTTP/"@, 0) {
        Err(ParseFailure::InvalidVersion(parts[2]))
    } else {
        match header_lines(lines.drop_first(), Seq::empty()) {
            Ok(headers) => Ok(
                RequestModel {
                    method: parts[0],
                    uri: parts[1],
                    version: parts[2],
                    headers,
                    body: Seq::empty(),
                },
            ),
            Err(e) => Err(e),
        }
    }
}

/// The request that the bytes hold.
///
/// The bytes must be well-formed UTF-8 and hold the end of the head; the
/// head is what stands before it, and the body is everything after it.
pub open spec fn parse_model(data: Seq<u8>) -> Result<RequestModel, ParseFailure> {
    if !valid_utf8(data) {
        Err(ParseFailure::Utf8Error)
    } else if !occurs_in(data, head_end()) {
        Err(ParseFailure::Incomplete)
    } else {
        let end = first_match(data, head_end());
        match head_model(decode_utf8(data.subrange(0, end))) {
            Ok(r) => Ok(RequestModel { body: data.subrange(end + 4, data.len() as int), ..r }),
            Err(e) => Err(e),
        }
    }
}

/// Cutting well-formed UTF-8 in front of a line end leaves well-formed
/// UTF-8.
pub proof fn lemma_head_is_utf8(data: Seq<u8>, end: int)
    requires
        valid_utf8(data),
        matches_at(data, head_end(), end),
    ensures
        valid_utf8(data.subrange(0, end)),
{
    assert(data.subrange(end, end + 4)[0] == 13u8);
    assert(data[end] == 13u8);
    is_char_boundary_iff_not_is_continuation_byte(data, end);
    valid_utf8_split(data, end);
}

/// Reads the header fields from the lines after the first.
fn parse_header_lines(lines: &Vec<Vec<char>>) -> (res: Result<Vec<Header>, HttpParseError>)
    requires
        lines.len() > 0,
    ensures
        match res {
            Ok(h) => header_lines(rows(lines@).drop_first(), Seq::empty()) == Ok::<
                Seq<HeaderModel>,
                ParseFailure,
            >(fields_of(h@)),
            Err(e) => header_lines(rows(lines@).drop_first(), Seq::empty()) == Err::<
                Seq<HeaderModel>,
                ParseFailure,
            >(e@),
        },
{
    let ghost all = rows(lines@);
    let mut headers: Vec<Header> = Vec::new();
    let mut colon: Vec<char> = Vec::new();
    colon.push(':');
    assert(colon@ =~= seq![':']);
    let mut i: usize = 1;
    assert(all.skip(1) =~= all.drop_first());
    assert(fields_of(headers@) =~= Seq::empty());
    while i < lines.len()
        invariant
            1 <= i <= lines.len(),
            all == rows(lines@),
            colon@ == seq![':'],
            header_lines(all.drop_first(), Seq::empty()) == header_lines(
                all.skip(i as int),
                fields_of(headers@),
            ),
        decreases lines.len() - i,
    {
        let line = &lines[i];
        let ghost rest = all.skip(i as int);
        assert(rest[0] == line@);
        assert(rest.drop_first() =~= all.skip(i + 1));
        if line.len() == 0 {
            return Ok(headers);
        }
        assert(line@.skip(0) =~= line@);
        let at = match find_chars(line.as_slice(), colon.as_slice(), 0) {
            Some(at) => at,
            None => {
                return Err(HttpParseError::InvalidHeader(string_of(line.as_slice())));
            },
        };
        let name_part = copy_range(line.as_slice(), 0, at);
        let value_part = copy_range(line.as_slice(), at + 1, line.len());
        assert(name_part@ =~= line@.take(at as int));
        assert(value_part@ =~= line@.skip(at + 1));
        let name_trimmed = trimmed(name_part.as_slice());
        let name = to_lowercase(string_of(name_trimmed.as_slice()).as_str());
        let value_trimmed = trimmed(value_part.as_slice());
        let value = string_of(value_trimmed.as_slice());
        set_field(&mut headers, name, value);
        i += 1;
    }
    assert(all.skip(lines.len() as int) =~= Seq::empty());
    Ok(headers)
}

/// Reads the head of a request from its text.
fn parse_head(text: &[char]) -> (res: Result<HttpRequest, HttpParseError>)
    ensures
        match res {
            Ok(r) => head_model(text@) == Ok::<RequestModel, ParseFailure>(r@),
            Err(e) => head_model(text@) == Err::<RequestModel, ParseFailure>(e@),
        },
{
    let mut crlf: Vec<char> = Vec::new();
    crlf.push('\r');
    crlf.push('\n');
    assert(crlf@ =~= line_end());
    let lines = split_at_pattern(text, crlf.as_slice());
    assert(rows(lines@)[0] == lines[0]@);
    let parts = split_whitespace(lines[0].as_slice());
    if parts.len() != 3 {
        return Err(HttpParseError::Invalid(String::from_str("Invalid request line")));
    }
    assert(rows(parts@)[0] == parts[0]@);
    assert(rows(parts@)[1] == parts[1]@);
    assert(rows(parts@)[2] == parts[2]@);
    let method = string_of(parts[0].as_slice());
    let uri = string_of(parts[1].as_slice());
    let version = string_of(parts[2].as_slice());
    match HttpMethod::from_name(method.as_str()) {
        Ok(_) => {},
        Err(e) => {
            return Err(e);
        },
    }
    if !chars_start_with(parts[2].as_slice(), "HTTP/") {
        return Err(HttpParseError::InvalidVersion(version));
    }
    match parse_header_lines(&lines) {
        Ok(headers) => {
            let body: Vec<u8> = Vec::new();
            Ok(HttpRequest { method, uri, version, headers, body })
        },
        Err(e) => Err(e),
    }
}

/// A copy of `data[from..]`.
fn copy_tail(data: &[u8], from: usize) -> (out: Vec<u8>)
    requires
        from <= data.len(),
    ensures
        out@ == data@.subrange(from as int, data.len() as int),
{
    let mut out: Vec<u8> = Vec::new();
    let mut i: usize = from;
    while i < data.len()
        invariant
            from <= i <= data.len(),
            out@ == data@.subrange(from as int, i as int),
        decreases data.len() - i,
    {
        out.push(data[i]);
        assert(out@ =~= data@.subrange(from as int, i + 1));
        i += 1;
    }
    out
}

/// The request that `HttpRequest::default` builds.
pub open spec fn default_request() -> RequestModel {
    RequestModel {
        method: "GET"@,
        uri: "/"@,
        version: "HTTP/1.1"@,
        headers: Seq::empty(),
        body: Seq::empty(),
    }
}

impl Default for HttpRequest {
    fn default() -> (r: HttpRequest)
        ensures
            r@ == default_request(),
    {
        let r = HttpRequest {
            method: String::from_str("GET"),
            uri: String::from_str("/"),
            version: String::from_str("HTTP/1.1"),
            headers: Vec::new(),
            body: Vec::new(),
        };
        assert(fields_of(r.headers@) =~= Seq::empty());
        r
    }
}

/// Whether a connection stays open: the `connection` field says so where
/// there is one, else version 1.1 does.
pub open spec fn keeps_alive(r: RequestModel) -> bool {
    match field_value(r.headers, lowercase_of("connection"@)) {
        Some(v) => lowercase_of(v) == "keep-alive"@,
        None => r.version == "HTTP/1.1"@,
    }
}

impl HttpRequest {
    /// Parses a request from raw bytes.
    ///
    /// Bytes that are not well-formed UTF-8 give `Utf8Error`; bytes without
    /// the end of the head give `Incomplete`; a first line that does not
    /// hold three words gives `Invalid`, an unknown method `InvalidMethod`,
    /// a version that does not start with `HTTP/` gives `InvalidVersion`,
    /// and a header line without a colon `InvalidHeader`.
    pub fn parse(data: &[u8]) -> (res: Result<HttpRequest, HttpParseError>)
        ensures
            match res {
                Ok(r) => parse_model(data@) == Ok::<RequestModel, ParseFailure>(r@),
                Err(e) => parse_model(data@) == Err::<RequestModel, ParseFailure>(e@),
            },
    {
        match utf8_text(data) {
            Ok(_) => {},
            Err(e) => {
                return Err(HttpParseError::Utf8Error(e));
            },
        }
        let mut pattern: Vec<u8> = Vec::new();
        pattern.push(13);
        pattern.push(10);
        pattern.push(13);
        pattern.push(10);
        assert(pattern@ =~= head_end());
        let end = match find_bytes(data, pattern.as_slice()) {
            Some(end) => end,
            None => {
                return Err(HttpParseError::Incomplete);
            },
        };
        proof {
            lemma_head_is_utf8(data@, end as int);
            assert(head_end().len() == 4);
            assert(matches_at(data@, head_end(), end as int));
            assert(end + 4 <= data@.len());
        }
        assert(end + 4 <= data.len());
        let head = slice_subrange(data, 0, end);
        let text = match utf8_text(head) {
            Ok(text) => text,
            Err(e) => {
                return Err(HttpParseError::Utf8Error(e));
            },
        };
        let chars = chars_of(text);
        match parse_head(chars.as_slice()) {
            Ok(r) => {
                let body = copy_tail(data, end + 4);
                Ok(
                    HttpRequest {
                        method: r.method,
                        uri: r.uri,
                        version: r.version,
                        headers: r.headers,
                        body,
                    },
                )
            },
            Err(e) => Err(e),
        }
    }

    /// The value of the header field `name`, whatever the case of `name`.
    pub fn get_header(&self, name: &str) -> (value: Option<&String>)
        ensures
            match value {
                Some(v) => field_value(self@.headers, lowercase_of(name@)) == Some(v@),
                None => field_value(self@.headers, lowercase_of(name@)).is_none(),
            },
    {
        let lower = to_lowercase(name);
        lookup_field(&self.headers, &lower)
    }

    /// Sets the header field `name`, in lower case, to `value`.
    pub fn set_header(&mut self, name: String, value: String)
        ensures
            final(self)@ == (RequestModel {
                headers: with_field(old(self)@.headers, lowercase_of(name@), value@),
                ..old(self)@
            }),
    {
        let lower = to_lowercase(name.as_str());
        set_field(&mut self.headers, lower, value);
    }

    /// The length that the `content-length` field announces, where the
    /// field is there and holds a decimal number.
    pub fn get_content_length(&self) -> (len: Option<usize>)
        ensures
            match len {
                Some(n) => field_value(self@.headers, lowercase_of("content-length"@))
                    matches Some(v) && parse_decimal(v, usize::MAX as nat) == Some(n as nat),
                None => field_value(self@.headers, lowercase_of("content-length"@))
                    matches Some(v) ==> parse_decimal(v, usize::MAX as nat).is_none(),
            },
    {
        match self.get_header("content-length") {
            Some(v) => {
                let chars = chars_of(v.as_str());
                match parse_number(chars.as_slice(), usize::MAX as u64) {
                    Some(n) => Some(n as usize),
                    None => None,
                }
            },
            None => None,
        }
    }

    /// The value of the `content-type` field.
    pub fn get_content_type(&self) -> (value: Option<&String>)
        ensures
            match value {
                Some(v) => field_value(self@.headers, lowercase_of("content-type"@)) == Some(v@),
                None => field_value(self@.headers, lowercase_of("content-type"@)).is_none(),
            },
    {
        self.get_header("content-type")
    }

    /// The value of the `host` field.
    pub fn get_host(&self) -> (value: Option<&String>)
        ensures
            match value {
                Some(v) => field_value(self@.headers, lowercase_of("host"@)) == Some(v@),
                None => field_value(self@.headers, lowercase_of("host"@)).is_none(),
            },
    {
        self.get_header("host")
    }

    /// The value of the `user-agent` field.
    pub fn get_user_agent(&self) -> (value: Option<&String>)
        ensures
            match value {
                Some(v) => field_value(self@.headers, lowercase_of("user-agent"@)) == Some(v@),
                None => field_value(self@.headers, lowercase_of("user-agent"@)).is_none(),
            },
    {
        self.get_header("user-agent")
    }

    /// The value of the `referer` field.
    pub fn get_referer(&self) -> (value: Option<&String>)
        ensures
            match value {
                Some(v) => field_value(self@.headers, lowercase_of("referer"@)) == Some(v@),
                None => field_value(self@.headers, lowercase_of("referer"@)).is_none(),
            },
    {
        self.get_header("referer")
    }

    /// The value of the `accept-encoding` field.
    pub fn get_accept_encoding(&self) -> (value: Option<&String>)
        ensures
            match value {
                Some(v) => field_value(self@.headers, lowercase_of("accept-encoding"@)) == Some(
                    v@,
                ),
                None => field_value(self@.headers, lowercase_of("accept-encoding"@)).is_none(),
            },
    {
        self.get_header("accept-encoding")
    }

    /// The value of the `if-none-match` field, for cache validation.
    pub fn get_if_none_match(&self) -> (value: Option<&String>)
        ensures
            match value {
                Some(v) => field_value(self@.headers, lowercase_of("if-none-match"@)) == Some(v@),
                None => field_value(self@.headers, lowercase_of("if-none-match"@)).is_none(),
            },
    {
        self.get_header("if-none-match")
    }

    /// The value of the `if-modified-since` field, for cache validation.
    pub fn get_if_modified_since(&self) -> (value: Option<&String>)
        ensures
            match value {
                Some(v) => field_value(self@.headers, lowercase_of("if-modified-since"@)) == Some(
                    v@,
                ),
                None => field_value(self@.headers, lowercase_of("if-modified-since"@)).is_none(),
            },
    {
        self.get_header("if-modified-since")
    }

    /// Whether the connection is to be kept open.
    pub fn is_keep_alive(&self) -> (keep: bool)
        ensures
            keep == keeps_alive(self@),
    {
        match self.get_header("connection") {
            Some(value) => {
                let lower = to_lowercase(value.as_str());
                let wanted = String::from_str("keep-alive");
                lower == wanted
            },
            None => {
                let wanted = String::from_str("HTTP/1.1");
                self.version == wanted
            },
        }
    }

    /// The method of the request.
    pub fn get_method(&self) -> (res: Result<HttpMethod, HttpParseError>)
        ensures
            match res {
                Ok(m) => method_named(uppercase_of(self@.method)) == Some(m),
                Err(e) => method_named(uppercase_of(self@.method)).is_none() && e@
                    == ParseFailure::InvalidMethod(self@.method),
            },
    {
        HttpMethod::from_name(self.method.as_str())
    }
}

} // verus!

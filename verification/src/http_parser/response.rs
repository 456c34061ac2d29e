//! Responses and their wire form.

use vstd::prelude::*;
use vstd::string::StringExecFns;
use vstd::utf8::encode_utf8;
use crate::http_parser::headers::{Header, HeaderModel, fields_of, set_field, with_field};
use crate::http_parser::message::{lowercase_of, to_lowercase};
use crate::text::{decimal_text, push_decimal, string_of};

verus! {

/// A response to be sent.
#[derive(Debug, Clone)]
pub struct HttpResponse {
    pub status_code: u16,
    pub reason_phrase: String,
    pub version: String,
    pub headers: Vec<Header>,
    pub body: Vec<u8>,
}

/// A response as plain values.
pub struct HttpResponseModel {
    pub status_code: u16,
    pub reason_phrase: Seq<char>,
    pub version: Seq<char>,
    pub headers: Seq<HeaderModel>,
    pub body: Seq<u8>,
}

impl View for HttpResponse {
    type V = HttpResponseModel;

    open spec fn view(&self) -> HttpResponseModel {
        HttpResponseModel {
            status_code: self.status_code,
            reason_phrase: self.reason_phrase@,
            version: self.version@,
            headers: fields_of(self.headers@),
            body: self.body@,
        }
    }
}

/// The wire form of the header fields: each as name, colon, space, value
/// and a line end, in order.
pub open spec fn header_bytes(h: Seq<HeaderModel>) -> Seq<u8>
    decreases h.len(),
{
    if h.len() == 0 {
        Seq::empty()
    } else {
        header_bytes(h.drop_last()) + encode_utf8(h.last().name) + seq![58u8, 32u8] + encode_utf8(
            h.last().value,
        ) + seq![13u8, 10u8]
    }
}

/// The wire form of a response: the status line, the header fields, an
/// empty line and the body.
pub open spec fn response_bytes(r: HttpResponseModel) -> Seq<u8> {
    encode_utf8(r.version) + seq![32u8] + encode_utf8(decimal_text(r.status_code as nat))
        + seq![32u8] + encode_utf8(r.reason_phrase) + seq![13u8, 10u8] + header_bytes(r.headers)
        + seq![13u8, 10u8] + r.body
}

/// Appends the bytes of `src` to `out`.
fn append_bytes(out: &mut Vec<u8>, src: &[u8])
    ensures
        final(out)@ == old(out)@ + src@,
{
    let mut i: usize = 0;
    assert(out@ =~= old(out)@ + src@.subrange(0, 0));
    while i < src.len()
        invariant
            i <= src.len(),
            out@ == old(out)@ + src@.subrange(0, i as int),
        decreases src.len() - i,
    {
        out.push(src[i]);
        assert(out@ =~= old(out)@ + src@.subrange(0, i + 1));
        i += 1;
    }
    assert(src@.subrange(0, src.len() as int) =~= src@);
}

/// Appends the UTF-8 encoding of `s` to `out`.
fn append_text(out: &mut Vec<u8>, s: &str)
    ensures
        final(out)@ == old(out)@ + encode_utf8(s@),
{
    append_bytes(out, s.as_bytes());
}

/// The decimal digits of `n` as a string.
pub fn decimal_string(n: u64) -> (s: String)
    ensures
        s@ == decimal_text(n as nat),
{
    let mut digits: Vec<char> = Vec::new();
    push_decimal(&mut digits, n);
    assert(digits@ =~= decimal_text(n as nat));
    string_of(digits.as_slice())
}

impl HttpResponse {
    /// A response of version 1.1 with the given status, without header
    /// fields or body.
    pub fn new(status_code: u16, reason_phrase: &str) -> (r: HttpResponse)
        ensures
            r@ == (HttpResponseModel {
                status_code,
                reason_phrase: reason_phrase@,
                version: "HTTP/1.1"@,
                headers: Seq::empty(),
                body: Seq::empty(),
            }),
    {
        let r = HttpResponse {
            status_code,
            reason_phrase: String::from_str(reason_phrase),
            version: String::from_str("HTTP/1.1"),
            headers: Vec::new(),
            body: Vec::new(),
        };
        assert(fields_of(r.headers@) =~= Seq::empty());
        r
    }

    /// Sets the header field `name`, in lower case, to `value`.
    pub fn set_header(&mut self, name: String, value: String)
        ensures
            final(self)@ == (HttpResponseModel {
                headers: with_field(old(self)@.headers, lowercase_of(name@), value@),
                ..old(self)@
            }),
    {
        let lower = to_lowercase(name.as_str());
        set_field(&mut self.headers, lower, value);
    }

    /// Sets the body, and the `content-length` field to its length.
    pub fn set_body(&mut self, body: Vec<u8>)
        ensures
            final(self)@ == (HttpResponseModel {
                headers: with_field(
                    old(self)@.headers,
                    lowercase_of("content-length"@),
                    decimal_text(body@.len()),
                ),
                body: body@,
                ..old(self)@
            }),
    {
        let length = decimal_string(body.len() as u64);
        self.body = body;
        self.set_header(String::from_str("content-length"), length);
    }

    /// The wire form of the response.
    pub fn to_bytes(&self) -> (out: Vec<u8>)
        ensures
            out@ == response_bytes(self@),
    {
        let mut out: Vec<u8> = Vec::new();
        let ghost start = out@;
        append_text(&mut out, self.version.as_str());
        out.push(32);
        let status = decimal_string(self.status_code as u64);
        append_text(&mut out, status.as_str());
        out.push(32);
        append_text(&mut out, self.reason_phrase.as_str());
        out.push(13);
        out.push(10);
        let ghost line = out@;
        assert(line =~= encode_utf8(self@.version) + seq![32u8] + encode_utf8(
            decimal_text(self@.status_code as nat),
        ) + seq![32u8] + encode_utf8(self@.reason_phrase) + seq![13u8, 10u8]);
        let ghost h = fields_of(self.headers@);
        let mut i: usize = 0;
        assert(h.take(0) =~= Seq::empty());
        assert(out@ =~= line + header_bytes(h.take(0)));
        while i < self.headers.len()
            invariant
                i <= self.headers.len(),
                h == fields_of(self.headers@),
                out@ == line + header_bytes(h.take(i as int)),
            decreases self.headers.len() - i,
        {
            let ghost before = out@;
            append_text(&mut out, self.headers[i].name.as_str());
            out.push(58);
            out.push(32);
            append_text(&mut out, self.headers[i].value.as_str());
            out.push(13);
            out.push(10);
            proof {
                let next = h.take(i + 1);
                assert(next.drop_last() =~= h.take(i as int));
                assert(next.last() == h[i as int]);
                assert(out@ =~= before + encode_utf8(h[i as int].name) + seq![58u8, 32u8]
                    + encode_utf8(h[i as int].value) + seq![13u8, 10u8]);
                assert(out@ =~= line + header_bytes(next));
            }
            i += 1;
        }
        assert(h.take(self.headers.len() as int) =~= h);
        out.push(13);
        out.push(10);
        append_bytes(&mut out, self.body.as_slice());
        assert(out@ =~= response_bytes(self@));
        out
    }
}

} // verus!

//! Dates as seconds since the Unix epoch, and the escaping of URLs.

use vstd::prelude::*;
use vstd::string::StringExecFns;
use vstd::utf8::encode_utf8;
use crate::http_parser::message::{HttpParseError, ParseFailure};
use crate::http_parser::response::decimal_string;
use crate::text::{chars_of, decimal_text, parse_decimal, parse_number, string_of};

verus! {

/// Reads a date given as seconds since the Unix epoch, in decimal.
pub fn parse_http_date(date_str: &str) -> (secs: Option<u64>)
    ensures
        match secs {
            Some(t) => parse_decimal(date_str@, u64::MAX as nat) == Some(t as nat),
            None => parse_decimal(date_str@, u64::MAX as nat).is_none(),
        },
{
    let chars = chars_of(date_str);
    parse_number(chars.as_slice(), u64::MAX)
}

/// Writes a date as seconds since the Unix epoch, in decimal.
pub fn format_http_date(secs: u64) -> (text: String)
    ensures
        text@ == decimal_text(secs as nat),
{
    decimal_string(secs)
}

/// The value of a hexadecimal digit of either case.
pub open spec fn hex_value(c: char) -> Option<int> {
    if '0' <= c && c <= '9' {
        Some(c as int - '0' as int)
    } else if 'a' <= c && c <= 'f' {
        Some(c as int - 'a' as int + 10)
    } else if 'A' <= c && c <= 'F' {
        Some(c as int - 'A' as int + 10)
    } else {
        None
    }
}

/// The byte that two characters after a percent sign write: two hexadecimal
/// digits, or a plus sign and one hexadecimal digit.
pub open spec fn escaped_byte(h1: char, h2: char) -> Option<int> {
    if h1 == '+' {
        hex_value(h2)
    } else {
        match (hex_value(h1), hex_value(h2)) {
            (Some(a), Some(b)) => Some(16 * a + b),
            _ => None,
        }
    }
}

/// The text that `s` decodes to, appended to `acc`: a percent sign and two
/// characters give the byte they write as a character, a plus sign gives a
/// space, every other character stands for itself.
pub open spec fn url_decode_from(s: Seq<char>, acc: Seq<char>) -> Result<Seq<char>, ParseFailure>
    decreases s.len(),
{
    if s.len() == 0 {
        Ok(acc)
    } else if s[0] == '%' {
        if s.len() < 3 {
            Err(ParseFailure::Invalid("Incomplete URL encoding"@))
        } else {
            match escaped_byte(s[1], s[2]) {
                Some(b) => url_decode_from(s.skip(3), acc.push(b as u8 as char)),
                None => Err(ParseFailure::Invalid("Invalid URL encoding"@)),
            }
        }
    } else if s[0] == '+' {
        url_decode_from(s.drop_first(), acc.push(' '))
    } else {
        url_decode_from(s.drop_first(), acc.push(s[0]))
    }
}

/// The text that `s` decodes to.
pub open spec fn url_decoded(s: Seq<char>) -> Result<Seq<char>, ParseFailure> {
    url_decode_from(s, Seq::empty())
}

/// The value of a hexadecimal digit of either case.
fn hex_digit_value(c: char) -> (v: Option<u8>)
    ensures
        match v {
            Some(d) => hex_value(c) == Some(d as int) && d < 16,
            None => hex_value(c).is_none(),
        },
{
    if c >= '0' && c <= '9' {
        Some((c as u32 - '0' as u32) as u8)
    } else if c >= 'a' && c <= 'f' {
        Some((c as u32 - 'a' as u32 + 10) as u8)
    } else if c >= 'A' && c <= 'F' {
        Some((c as u32 - 'A' as u32 + 10) as u8)
    } else {
        None
    }
}

/// The byte that two characters after a percent sign write.
fn read_escaped_byte(h1: char, h2: char) -> (v: Option<u8>)
    ensures
        match v {
            Some(b) => escaped_byte(h1, h2) == Some(b as int),
            None => escaped_byte(h1, h2).is_none(),
        },
{
    if h1 == '+' {
        hex_digit_value(h2)
    } else {
        match hex_digit_value(h1) {
            Some(a) => match hex_digit_value(h2) {
                Some(b) => Some(16 * a + b),
                None => None,
            },
            None => None,
        }
    }
}

/// Decodes a URL-encoded string.
///
/// A percent sign that is not followed by two characters gives `Invalid`
/// with "Incomplete URL encoding"; two characters that write no byte give
/// `Invalid` with "Invalid URL encoding".
pub fn url_decode(s: &str) -> (res: Result<String, HttpParseError>)
    ensures
        match res {
            Ok(text) => url_decoded(s@) == Ok::<Seq<char>, ParseFailure>(text@),
            Err(e) => url_decoded(s@) == Err::<Seq<char>, ParseFailure>(e@),
        },
{
    let v = chars_of(s);
    let n = v.len();
    let mut out: Vec<char> = Vec::new();
    let mut i: usize = 0;
    assert(v@.skip(0) =~= v@);
    assert(out@ =~= Seq::empty());
    while i < n
        invariant
            i <= n == v.len(),
            v@ == s@,
            url_decoded(s@) == url_decode_from(v@.skip(i as int), out@),
        decreases n - i,
    {
        let ghost rest = v@.skip(i as int);
        let c = v[i];
        assert(rest[0] == c);
        if c == '%' {
            if n - i < 3 {
                return Err(HttpParseError::Invalid(String::from_str("Incomplete URL encoding")));
            }
            assert(rest[1] == v@[i + 1] && rest[2] == v@[i + 2]);
            match read_escaped_byte(v[i + 1], v[i + 2]) {
                Some(b) => {
                    out.push(b as char);
                    assert(rest.skip(3) =~= v@.skip(i + 3));
                    i += 3;
                },
                None => {
                    return Err(HttpParseError::Invalid(String::from_str("Invalid URL encoding")));
                },
            }
        } else if c == '+' {
            out.push(' ');
            assert(rest.drop_first() =~= v@.skip(i + 1));
            i += 1;
        } else {
            out.push(c);
            assert(rest.drop_first() =~= v@.skip(i + 1));
            i += 1;
        }
    }
    assert(v@.skip(n as int) =~= Seq::empty());
    Ok(string_of(out.as_slice()))
}

/// Whether a byte stands for itself in an encoded URL: an ASCII letter or
/// digit, a hyphen, an underscore, a full stop or a tilde.
pub open spec fn is_unreserved(b: u8) -> bool {
    (65 <= b <= 90) || (97 <= b <= 122) || (48 <= b <= 57) || b == 45 || b == 95 || b == 46 || b
        == 126
}

/// The upper-case hexadecimal digit of a value below sixteen.
pub open spec fn upper_hex_digit(n: int) -> char {
    if n == 0 {
        '0'
    } else if n == 1 {
        '1'
    } else if n == 2 {
        '2'
    } else if n == 3 {
        '3'
    } else if n == 4 {
        '4'
    } else if n == 5 {
        '5'
    } else if n == 6 {
        '6'
    } else if n == 7 {
        '7'
    } else if n == 8 {
        '8'
    } else if n == 9 {
        '9'
    } else if n == 10 {
        'A'
    } else if n == 11 {
        'B'
    } else if n == 12 {
        'C'
    } else if n == 13 {
        'D'
    } else if n == 14 {
        'E'
    } else {
        'F'
    }
}

/// The encoded form of one byte.
pub open spec fn encoded_byte(b: u8) -> Seq<char> {
    if is_unreserved(b) {
        seq![b as char]
    } else if b == 32 {
        seq!['+']
    } else {
        seq!['%', upper_hex_digit(b as int / 16), upper_hex_digit(b as int % 16)]
    }
}

/// The encoded form of a byte string.
pub open spec fn url_encoded_bytes(bytes: Seq<u8>) -> Seq<char>
    decreases bytes.len(),
{
    if bytes.len() == 0 {
        Seq::empty()
    } else {
        url_encoded_bytes(bytes.drop_last()) + encoded_byte(bytes.last())
    }
}

/// The upper-case hexadecimal digit of a value below sixteen.
fn upper_hex_char(n: u8) -> (c: char)
    requires
        n < 16,
    ensures
        c == upper_hex_digit(n as int),
{
    match n {
        0 => '0',
        1 => '1',
        2 => '2',
        3 => '3',
        4 => '4',
        5 => '5',
        6 => '6',
        7 => '7',
        8 => '8',
        9 => '9',
        10 => 'A',
        11 => 'B',
        12 => 'C',
        13 => 'D',
        14 => 'E',
        _ => 'F',
    }
}

/// Encodes a string for use in a URL: unreserved bytes of its UTF-8 form
/// stand for themselves, a space becomes a plus sign, every other byte
/// becomes a percent sign and two upper-case hexadecimal digits.
pub fn url_encode(s: &str) -> (text: String)
    ensures
        text@ == url_encoded_bytes(encode_utf8(s@)),
{
    let bytes = s.as_bytes();
    let mut out: Vec<char> = Vec::new();
    let mut i: usize = 0;
    assert(bytes@.take(0) =~= Seq::empty());
    assert(out@ =~= url_encoded_bytes(bytes@.take(0)));
    while i < bytes.len()
        invariant
            i <= bytes.len(),
            out@ == url_encoded_bytes(bytes@.take(i as int)),
        decreases bytes.len() - i,
    {
        let b: u8 = bytes[i];
        let ghost before = out@;
        if (b >= 65 && b <= 90) || (b >= 97 && b <= 122) || (b >= 48 && b <= 57) || b == 45 || b
            == 95 || b == 46 || b == 126 {
            out.push(b as char);
            assert(out@ =~= before + encoded_byte(b));
        } else if b == 32 {
            out.push('+');
            assert(out@ =~= before + encoded_byte(b));
        } else {
            out.push('%');
            out.push(upper_hex_char(b / 16));
            out.push(upper_hex_char(b % 16));
            assert(out@ =~= before + encoded_byte(b));
        }
        proof {
            let next = bytes@.take(i + 1);
            assert(next.drop_last() =~= bytes@.take(i as int));
            assert(next.last() == b);
        }
        i += 1;
    }
    assert(bytes@.take(bytes.len() as int) =~= bytes@);
    string_of(out.as_slice())
}

} // verus!

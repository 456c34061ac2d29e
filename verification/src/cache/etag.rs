//! Entity tags: a quoted token made of the MD5 digest of the content and,
//! where given, the modification time in seconds.

use vstd::prelude::*;
use vstd::string::StringExecFns;
use crate::cache::store::Cache;

verus! {

/// The MD5 digest of `data`, as `md5::compute` returns it.
pub uninterp spec fn md5_digest(data: Seq<u8>) -> Seq<u8>;

/// Wraps `md5::compute`: the result holds the sixteen bytes of the digest
/// of `data`.
#[verifier::external_body]
fn md5_of(data: &[u8]) -> (digest: Vec<u8>)
    ensures
        digest@ == md5_digest(data@),
        digest@.len() == 16,
{
    md5::compute(data).0.to_vec()
}

/// The lower-case hexadecimal digit of a value below sixteen.
pub open spec fn hex_digit(n: int) -> char {
    if n == 0 {
        '0'
    } else if n == 1 {
        '1'
    } else if n == 2 {
        '2'
    } else if n == 3 {
        '3'
    } else if n == 4 {
        '4'
    } else if n == 5 {
        '5'
    } else if n == 6 {
        '6'
    } else if n == 7 {
        '7'
    } else if n == 8 {
        '8'
    } else if n == 9 {
        '9'
    } else if n == 10 {
        'a'
    } else if n == 11 {
        'b'
    } else if n == 12 {
        'c'
    } else if n == 13 {
        'd'
    } else if n == 14 {
        'e'
    } else {
        'f'
    }
}

/// Two lower-case hexadecimal digits for each byte, in order.
pub open spec fn hex_of(bytes: Seq<u8>) -> Seq<char>
    decreases bytes.len(),
{
    if bytes.len() == 0 {
        Seq::empty()
    } else {
        hex_of(bytes.drop_last()).push(hex_digit(bytes.last() as int / 16)).push(
            hex_digit(bytes.last() as int % 16),
        )
    }
}

/// The lowest `digits` hexadecimal digits of `v`, most significant first.
pub open spec fn hex_number(v: int, digits: nat) -> Seq<char>
    decreases digits,
{
    if digits == 0 {
        Seq::empty()
    } else {
        hex_number(v / 16, (digits - 1) as nat).push(hex_digit(v % 16))
    }
}

/// The token for a digest and an optional modification time: the digest in
/// hexadecimal, then, where a time is given, a hyphen and its sixteen
/// hexadecimal digits, all between double quotes.
pub open spec fn etag_text(digest: Seq<u8>, last_modified: Option<u64>) -> Seq<char> {
    let stamp = match last_modified {
        Some(t) => seq!['-'] + hex_number(t as int, 16),
        None => Seq::empty(),
    };
    seq!['"'] + hex_of(digest) + stamp + seq!['"']
}

/// The one-character string of a hexadecimal digit.
fn hex_str(n: u8) -> (s: &'static str)
    requires
        n < 16,
    ensures
        s@ == seq![hex_digit(n as int)],
{
    proof {
        reveal_strlit("0");
        reveal_strlit("1");
        reveal_strlit("2");
        reveal_strlit("3");
        reveal_strlit("4");
        reveal_strlit("5");
        reveal_strlit("6");
        reveal_strlit("7");
        reveal_strlit("8");
        reveal_strlit("9");
        reveal_strlit("a");
        reveal_strlit("b");
        reveal_strlit("c");
        reveal_strlit("d");
        reveal_strlit("e");
        reveal_strlit("f");
    }
    let s = match n {
        0 => "0",
        1 => "1",
        2 => "2",
        3 => "3",
        4 => "4",
        5 => "5",
        6 => "6",
        7 => "7",
        8 => "8",
        9 => "9",
        10 => "a",
        11 => "b",
        12 => "c",
        13 => "d",
        14 => "e",
        _ => "f",
    };
    assert(s@ =~= seq![hex_digit(n as int)]);
    s
}

/// Appends the lowest `digits` hexadecimal digits of `v` to `out`.
fn push_hex_number(out: &mut String, v: u64, digits: u8)
    ensures
        final(out)@ == old(out)@ + hex_number(v as int, digits as nat),
    decreases digits,
{
    if digits == 0 {
        assert(old(out)@ + hex_number(v as int, 0) =~= old(out)@);
    } else {
        push_hex_number(out, v / 16, digits - 1);
        out.append(hex_str((v % 16) as u8));
        assert(out@ =~= old(out)@ + hex_number(v as int, digits as nat));
    }
}

/// Appends two hexadecimal digits for each byte to `out`.
fn push_hex_bytes(out: &mut String, bytes: &[u8])
    ensures
        final(out)@ == old(out)@ + hex_of(bytes@),
{
    let mut i: usize = 0;
    assert(bytes@.subrange(0, 0) =~= Seq::empty());
    assert(out@ =~= old(out)@ + hex_of(bytes@.subrange(0, 0)));
    while i < bytes.len()
        invariant
            i <= bytes.len(),
            out@ == old(out)@ + hex_of(bytes@.subrange(0, i as int)),
        decreases bytes.len() - i,
    {
        let b = bytes[i];
        out.append(hex_str(b / 16));
        out.append(hex_str(b % 16));
        proof {
            let next = bytes@.subrange(0, i + 1);
            assert(next.drop_last() =~= bytes@.subrange(0, i as int));
            assert(next.last() == b);
            assert(out@ =~= old(out)@ + hex_of(next));
        }
        i += 1;
    }
    assert(bytes@.subrange(0, bytes.len() as int) =~= bytes@);
}

/// Formats the token for a digest and an optional modification time in
/// seconds since the Unix epoch.
pub fn format_etag(digest: &[u8], last_modified: Option<u64>) -> (token: String)
    ensures
        token@ == etag_text(digest@, last_modified),
{
    proof {
        reveal_strlit("\"");
        reveal_strlit("-");
    }
    let mut token = String::from_str("\"");
    assert(token@ =~= seq!['"']);
    push_hex_bytes(&mut token, digest);
    match last_modified {
        Some(t) => {
            token.append("-");
            push_hex_number(&mut token, t, 16);
        },
        None => {},
    }
    token.append("\"");
    assert(token@ =~= etag_text(digest@, last_modified));
    token
}

impl Cache {
    /// The entity tag of `content`, last modified at the given time in
    /// seconds since the Unix epoch, if any. Equal content and equal times
    /// give equal tags. The digest in the tag has sixteen bytes.
    pub fn generate_etag(content: &[u8], last_modified: Option<u64>) -> (token: String)
        ensures
            token@ == etag_text(md5_digest(content@), last_modified),
            md5_digest(content@).len() == 16,
    {
        let digest = md5_of(content);
        format_etag(digest.as_slice(), last_modified)
    }
}

/// A hexadecimal digit stands for one value only.
proof fn lemma_hex_digit_injective(a: int, b: int)
    requires
        0 <= a < 16,
        0 <= b < 16,
        hex_digit(a) == hex_digit(b),
    ensures
        a == b,
{
}

/// The hexadecimal form of a byte string has two characters for each byte.
pub proof fn lemma_hex_len(bytes: Seq<u8>)
    ensures
        hex_of(bytes).len() == 2 * bytes.len(),
    decreases bytes.len(),
{
    if bytes.len() > 0 {
        lemma_hex_len(bytes.drop_last());
    }
}

/// Byte strings of one length with the same hexadecimal form are equal.
pub proof fn lemma_hex_injective(x: Seq<u8>, y: Seq<u8>)
    requires
        x.len() == y.len(),
        hex_of(x) == hex_of(y),
    ensures
        x == y,
    decreases x.len(),
{
    if x.len() > 0 {
        let hx = hex_of(x);
        let px = hex_of(x.drop_last());
        let py = hex_of(y.drop_last());
        lemma_hex_len(x.drop_last());
        lemma_hex_len(y.drop_last());
        let n = px.len() as int;
        assert(hx[n] == hex_digit(x.last() as int / 16));
        assert(hx[n + 1] == hex_digit(x.last() as int % 16));
        assert(hx[n] == hex_digit(y.last() as int / 16));
        assert(hx[n + 1] == hex_digit(y.last() as int % 16));
        lemma_hex_digit_injective(x.last() as int / 16, y.last() as int / 16);
        lemma_hex_digit_injective(x.last() as int % 16, y.last() as int % 16);
        assert(x.last() == y.last());
        assert(px =~= hx.subrange(0, n));
        assert(py =~= hx.subrange(0, n));
        lemma_hex_injective(x.drop_last(), y.drop_last());
        assert(x =~= x.drop_last().push(x.last()));
        assert(y =~= y.drop_last().push(y.last()));
    } else {
        assert(x =~= y);
    }
}

/// Equal digests and equal modification times give equal tokens, and
/// digests that differ give tokens that differ.
pub proof fn law_etag_follows_digest(d1: Seq<u8>, d2: Seq<u8>, last_modified: Option<u64>)
    ensures
        d1 == d2 <==> etag_text(d1, last_modified) == etag_text(d2, last_modified),
{
    if etag_text(d1, last_modified) == etag_text(d2, last_modified) {
        lemma_hex_len(d1);
        lemma_hex_len(d2);
        let t1 = etag_text(d1, last_modified);
        let t2 = etag_text(d2, last_modified);
        let stamp = match last_modified {
            Some(t) => seq!['-'] + hex_number(t as int, 16),
            None => Seq::<char>::empty(),
        };
        assert(t1.len() == 1 + 2 * d1.len() + stamp.len() + 1);
        assert(t2.len() == 1 + 2 * d2.len() + stamp.len() + 1);
        assert(d1.len() == d2.len());
        let n = 2 * (d1.len() as int);
        assert(hex_of(d1) =~= t1.subrange(1, 1 + n));
        assert(hex_of(d2) =~= t2.subrange(1, 1 + n));
        lemma_hex_injective(d1, d2);
    }
}

} // verus!

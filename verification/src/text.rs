//! Text helpers shared by the parsers: conversions between strings and
//! character sequences, whitespace handling and decimal numbers.

use vstd::prelude::*;

verus! {

/// The characters of `s`, in order.
pub fn chars_of(s: &str) -> (v: Vec<char>)
    ensures
        v@ == s@,
{
    let mut v: Vec<char> = Vec::new();
    for c in it: s.chars()
        invariant
            it.seq() == s@,
            v@ == it.seq().subrange(0, it.index() as int),
    {
        v.push(c);
        assert(v@ =~= it.seq().subrange(0, it.index() + 1));
    }
    assert(v@ =~= s@);
    v
}

/// Wraps `String::push`: the character is appended to the string.
#[verifier::external_body]
fn push_char(s: &mut String, c: char)
    ensures
        final(s)@ == old(s)@.push(c),
{
    s.push(c)
}

/// The string made of the characters of `v`, in order.
pub fn string_of(v: &[char]) -> (s: String)
    ensures
        s@ == v@,
{
    let mut s = String::new();
    let mut i: usize = 0;
    while i < v.len()
        invariant
            i <= v.len(),
            s@ == v@.subrange(0, i as int),
        decreases v.len() - i,
    {
        push_char(&mut s, v[i]);
        assert(s@ =~= v@.subrange(0, i + 1));
        i += 1;
    }
    assert(v@.subrange(0, v.len() as int) =~= v@);
    s
}

/// Whether `c` is white space: a character with the Unicode property
/// `White_Space`. These are the ASCII space, tab, line feed, vertical tab,
/// form feed and carriage return, then U+0085, U+00A0, U+1680, U+2000 to
/// U+200A, U+2028, U+2029, U+202F, U+205F and U+3000.
pub open spec fn is_space(c: char) -> bool {
    let n = c as u32;
    ||| 0x09 <= n <= 0x0d
    ||| n == 0x20
    ||| n == 0x85
    ||| n == 0xa0
    ||| n == 0x1680
    ||| 0x2000 <= n <= 0x200a
    ||| n == 0x2028
    ||| n == 0x2029
    ||| n == 0x202f
    ||| n == 0x205f
    ||| n == 0x3000
}

/// Whether `c` is white space.
pub fn char_is_space(c: char) -> (b: bool)
    ensures
        b == is_space(c),
{
    let n: u32 = c as u32;
    (0x09 <= n && n <= 0x0d) || n == 0x20 || n == 0x85 || n == 0xa0 || n == 0x1680 || (0x2000 <= n
        && n <= 0x200a) || n == 0x2028 || n == 0x2029 || n == 0x202f || n == 0x205f || n == 0x3000
}

/// The rows of a list of character vectors.
pub open spec fn rows(v: Seq<Vec<char>>) -> Seq<Seq<char>> {
    Seq::new(v.len(), |i: int| v[i]@)
}

/// A copy of `v[from..to]`.
pub fn copy_range(v: &[char], from: usize, to: usize) -> (out: Vec<char>)
    requires
        from <= to <= v.len(),
    ensures
        out@ == v@.subrange(from as int, to as int),
{
    let mut out: Vec<char> = Vec::new();
    let mut i: usize = from;
    while i < to
        invariant
            from <= i <= to <= v.len(),
            out@ == v@.subrange(from as int, i as int),
        decreases to - i,
    {
        out.push(v[i]);
        assert(out@ =~= v@.subrange(from as int, i + 1));
        i += 1;
    }
    out
}

/// `s` without its leading white space.
pub open spec fn trim_start(s: Seq<char>) -> Seq<char>
    decreases s.len(),
{
    if s.len() > 0 && is_space(s[0]) {
        trim_start(s.drop_first())
    } else {
        s
    }
}

/// `s` without its trailing white space.
pub open spec fn trim_end(s: Seq<char>) -> Seq<char>
    decreases s.len(),
{
    if s.len() > 0 && is_space(s.last()) {
        trim_end(s.drop_last())
    } else {
        s
    }
}

/// `s` without leading and trailing white space.
pub open spec fn trim(s: Seq<char>) -> Seq<char> {
    trim_end(trim_start(s))
}

/// `v` without leading and trailing white space.
pub fn trimmed(v: &[char]) -> (out: Vec<char>)
    ensures
        out@ == trim(v@),
{
    let n = v.len();
    let mut a: usize = 0;
    assert(v@.subrange(0, n as int) =~= v@);
    while a < n && char_is_space(v[a])
        invariant
            a <= n == v.len(),
            trim_start(v@) == trim_start(v@.subrange(a as int, n as int)),
        decreases n - a,
    {
        assert(v@.subrange(a as int, n as int).drop_first() =~= v@.subrange(a + 1, n as int));
        a += 1;
    }
    assert(trim_start(v@) == v@.subrange(a as int, n as int));
    let mut b: usize = n;
    while b > a && char_is_space(v[b - 1])
        invariant
            a <= b <= n == v.len(),
            trim(v@) == trim_end(v@.subrange(a as int, b as int)),
        decreases b,
    {
        assert(v@.subrange(a as int, b as int).drop_last() =~= v@.subrange(a as int, b - 1));
        b -= 1;
    }
    copy_range(v, a, b)
}

/// Length of the leading run of characters that are not white space.
pub open spec fn word_len(s: Seq<char>) -> int
    decreases s.len(),
{
    if s.len() == 0 || is_space(s[0]) {
        0
    } else {
        1 + word_len(s.drop_first())
    }
}

/// The maximal runs of characters that are not white space, in order, as
/// `str::split_whitespace` yields them.
pub open spec fn split_spaces(s: Seq<char>) -> Seq<Seq<char>>
    decreases s.len(),
{
    if s.len() == 0 {
        Seq::empty()
    } else if is_space(s[0]) {
        split_spaces(s.drop_first())
    } else {
        let n = word_len(s);
        if 0 < n <= s.len() {
            seq![s.take(n)] + split_spaces(s.skip(n))
        } else {
            Seq::empty()
        }
    }
}

/// The words of `v`: its maximal runs of characters that are not white
/// space.
pub fn split_whitespace(v: &[char]) -> (out: Vec<Vec<char>>)
    ensures
        rows(out@) == split_spaces(v@),
{
    let n = v.len();
    let mut out: Vec<Vec<char>> = Vec::new();
    let mut i: usize = 0;
    assert(v@.skip(0) =~= v@);
    assert(rows(out@) + split_spaces(v@.skip(0)) =~= split_spaces(v@));
    while i < n
        invariant
            i <= n == v.len(),
            split_spaces(v@) == rows(out@) + split_spaces(v@.skip(i as int)),
        decreases n - i,
    {
        let ghost rest = v@.skip(i as int);
        assert(rest[0] == v@[i as int]);
        if char_is_space(v[i]) {
            assert(rest.drop_first() =~= v@.skip(i + 1));
            i += 1;
        } else {
            let mut j: usize = i + 1;
            assert(rest.drop_first() =~= v@.skip(i + 1));
            while j < n && !char_is_space(v[j])
                invariant
                    i < j <= n == v.len(),
                    word_len(rest) == (j - i) + word_len(v@.skip(j as int)),
                decreases n - j,
            {
                assert(v@.skip(j as int).drop_first() =~= v@.skip(j + 1));
                j += 1;
            }
            assert(word_len(v@.skip(j as int)) == 0);
            let word = copy_range(v, i, j);
            proof {
                assert(rest.take(j - i) =~= v@.subrange(i as int, j as int));
                assert(rest.skip(j - i) =~= v@.skip(j as int));
                assert(split_spaces(rest) == seq![word@] + split_spaces(v@.skip(j as int)));
            }
            let ghost before = rows(out@);
            out.push(word);
            assert(rows(out@) =~= before + seq![word@]);
            assert(rows(out@) + split_spaces(v@.skip(j as int)) =~= before + (seq![word@]
                + split_spaces(v@.skip(j as int))));
            i = j;
        }
    }
    assert(v@.skip(n as int) =~= Seq::empty());
    assert(rows(out@) + split_spaces(v@.skip(n as int)) =~= rows(out@));
    out
}

/// `pat` occurs in `s` at position `i`.
pub open spec fn matches_at<T>(s: Seq<T>, pat: Seq<T>, i: int) -> bool {
    0 <= i && i + pat.len() <= s.len() && s.subrange(i, i + pat.len()) == pat
}

/// `i` is the first position at which `pat` occurs in `s`.
pub open spec fn is_first_match<T>(s: Seq<T>, pat: Seq<T>, i: int) -> bool {
    matches_at(s, pat, i) && forall|j: int| 0 <= j < i ==> !matches_at(s, pat, j)
}

/// `pat` occurs somewhere in `s`.
pub open spec fn occurs_in<T>(s: Seq<T>, pat: Seq<T>) -> bool {
    exists|i: int| matches_at(s, pat, i)
}

/// The first position at which `pat` occurs in `s`, where it occurs.
pub open spec fn first_match<T>(s: Seq<T>, pat: Seq<T>) -> int {
    choose|i: int| is_first_match(s, pat, i)
}

/// The first occurrence is unique.
pub proof fn lemma_first_match<T>(s: Seq<T>, pat: Seq<T>, i: int)
    requires
        is_first_match(s, pat, i),
    ensures
        occurs_in(s, pat),
        first_match(s, pat) == i,
{
    let j = first_match(s, pat);
    assert(is_first_match(s, pat, j));
    if j < i {
        assert(!matches_at(s, pat, j));
    } else if i < j {
        assert(!matches_at(s, pat, i));
    }
}

/// Whether `pat` occurs in `v` at position `i`.
pub fn chars_match_at(v: &[char], pat: &[char], i: usize) -> (b: bool)
    ensures
        b == matches_at(v@, pat@, i as int),
{
    let m = pat.len();
    if i > v.len() || m > v.len() - i {
        return false;
    }
    let mut k: usize = 0;
    while k < m
        invariant
            k <= m == pat.len(),
            i + m <= v.len(),
            forall|j: int| 0 <= j < k ==> v@[i + j] == pat@[j],
        decreases m - k,
    {
        if v[i + k] != pat[k] {
            assert(v@.subrange(i as int, i + m)[k as int] != pat@[k as int]);
            return false;
        }
        k += 1;
    }
    assert(v@.subrange(i as int, i + m) =~= pat@);
    true
}

/// Whether `pat` occurs in `v` at position `i`.
pub fn bytes_match_at(v: &[u8], pat: &[u8], i: usize) -> (b: bool)
    ensures
        b == matches_at(v@, pat@, i as int),
{
    let m = pat.len();
    if i > v.len() || m > v.len() - i {
        return false;
    }
    let mut k: usize = 0;
    while k < m
        invariant
            k <= m == pat.len(),
            i + m <= v.len(),
            forall|j: int| 0 <= j < k ==> v@[i + j] == pat@[j],
        decreases m - k,
    {
        if v[i + k] != pat[k] {
            assert(v@.subrange(i as int, i + m)[k as int] != pat@[k as int]);
            return false;
        }
        k += 1;
    }
    assert(v@.subrange(i as int, i + m) =~= pat@);
    true
}

/// The first position at which `pat` occurs in `v`, if it occurs.
pub fn find_bytes(v: &[u8], pat: &[u8]) -> (found: Option<usize>)
    ensures
        found.is_some() == occurs_in(v@, pat@),
        found matches Some(i) ==> is_first_match(v@, pat@, i as int) && i == first_match(
            v@,
            pat@,
        ),
{
    let n = v.len();
    let mut i: usize = 0;
    while i < n
        invariant
            i <= n == v.len(),
            forall|j: int| 0 <= j < i ==> !matches_at(v@, pat@, j),
        decreases n - i,
    {
        if bytes_match_at(v, pat, i) {
            proof {
                lemma_first_match(v@, pat@, i as int);
            }
            return Some(i);
        }
        i += 1;
    }
    if bytes_match_at(v, pat, n) {
        proof {
            lemma_first_match(v@, pat@, n as int);
        }
        return Some(n);
    }
    assert(forall|j: int| !matches_at(v@, pat@, j));
    None
}

/// The first position from `start` on at which `pat` occurs in `v`, if it
/// occurs there.
pub fn find_chars(v: &[char], pat: &[char], start: usize) -> (found: Option<usize>)
    requires
        start <= v.len(),
    ensures
        found.is_some() == occurs_in(v@.skip(start as int), pat@),
        found matches Some(i) ==> start <= i && is_first_match(
            v@.skip(start as int),
            pat@,
            i - start,
        ) && i - start == first_match(v@.skip(start as int), pat@),
{
    let ghost rest = v@.skip(start as int);
    assert forall|k: int| 0 <= k implies (matches_at(rest, pat@, k) <==> matches_at(
        v@,
        pat@,
        start + k,
    )) by {
        if k + pat@.len() <= rest.len() {
            assert(rest.subrange(k, k + pat@.len()) =~= v@.subrange(
                start + k,
                start + k + pat@.len(),
            ));
        }
    }
    let n = v.len();
    let mut i: usize = start;
    while i < n
        invariant
            start <= i <= n == v.len(),
            rest == v@.skip(start as int),
            forall|k: int|
                0 <= k ==> (matches_at(rest, pat@, k) <==> matches_at(v@, pat@, start + k)),
            forall|j: int| start <= j < i ==> !matches_at(v@, pat@, j),
        decreases n - i,
    {
        if chars_match_at(v, pat, i) {
            proof {
                assert(matches_at(rest, pat@, i - start));
                assert forall|j: int| 0 <= j < i - start implies !matches_at(rest, pat@, j) by {
                    assert(!matches_at(v@, pat@, start + j));
                }
                lemma_first_match(rest, pat@, i - start);
            }
            return Some(i);
        }
        i += 1;
    }
    if chars_match_at(v, pat, n) {
        proof {
            assert(matches_at(rest, pat@, n - start));
            assert forall|j: int| 0 <= j < n - start implies !matches_at(rest, pat@, j) by {
                assert(!matches_at(v@, pat@, start + j));
            }
            lemma_first_match(rest, pat@, n - start);
        }
        return Some(n);
    }
    proof {
        assert forall|k: int| !matches_at(rest, pat@, k) by {
            if 0 <= k {
                assert(!matches_at(v@, pat@, start + k));
            }
        }
    }
    None
}

/// The pieces of `s` between the occurrences of `pat`, taken from the left,
/// as `str::split` yields them for a non-empty pattern.
pub open spec fn split_on(s: Seq<char>, pat: Seq<char>) -> Seq<Seq<char>>
    decreases s.len(),
{
    let i = first_match(s, pat);
    if occurs_in(s, pat) && pat.len() > 0 && 0 <= i && i + pat.len() <= s.len() {
        seq![s.take(i)] + split_on(s.skip(i + pat.len()), pat)
    } else {
        seq![s]
    }
}

/// The pieces of `v` between the occurrences of `pat`, taken from the left.
pub fn split_at_pattern(v: &[char], pat: &[char]) -> (out: Vec<Vec<char>>)
    requires
        pat.len() > 0,
    ensures
        rows(out@) == split_on(v@, pat@),
        out.len() > 0,
{
    let n = v.len();
    let mut out: Vec<Vec<char>> = Vec::new();
    let mut start: usize = 0;
    assert(v@.skip(0) =~= v@);
    assert(rows(out@) + split_on(v@.skip(0), pat@) =~= split_on(v@, pat@));
    loop
        invariant
            start <= n == v.len(),
            pat.len() > 0,
            split_on(v@, pat@) == rows(out@) + split_on(v@.skip(start as int), pat@),
        decreases n - start,
    {
        let ghost rest = v@.skip(start as int);
        let ghost before = rows(out@);
        match find_chars(v, pat, start) {
            Some(i) => {
                let piece = copy_range(v, start, i);
                proof {
                    assert(rest.take(i - start) =~= piece@);
                    assert(rest.skip(i - start + pat@.len()) =~= v@.skip(i + pat@.len()));
                }
                out.push(piece);
                assert(rows(out@) =~= before + seq![piece@]);
                assert(rows(out@) + split_on(v@.skip(i + pat@.len()), pat@) =~= before + (
                seq![piece@] + split_on(v@.skip(i + pat@.len()), pat@)));
                start = i + pat.len();
            },
            None => {
                let piece = copy_range(v, start, n);
                assert(piece@ =~= rest);
                out.push(piece);
                assert(rows(out@) =~= before + seq![rest]);
                return out;
            },
        }
    }
}

/// The value of a decimal digit.
pub open spec fn digit_value(c: char) -> Option<int> {
    if '0' <= c && c <= '9' {
        Some(c as int - '0' as int)
    } else {
        None
    }
}

/// The number that a run of decimal digits writes; none where a character
/// is no digit.
pub open spec fn digits_value(s: Seq<char>) -> Option<nat>
    decreases s.len(),
{
    if s.len() == 0 {
        Some(0)
    } else {
        match (digits_value(s.drop_last()), digit_value(s.last())) {
            (Some(high), Some(d)) => Some((high * 10 + d) as nat),
            _ => None,
        }
    }
}

/// The number that `s` writes in the form the standard integer parsers
/// take: an optional plus sign, then at least one decimal digit, with a
/// value of at most `max`.
pub open spec fn parse_decimal(s: Seq<char>, max: nat) -> Option<nat> {
    let body = if s.len() > 0 && s[0] == '+' {
        s.drop_first()
    } else {
        s
    };
    if body.len() == 0 {
        None
    } else {
        match digits_value(body) {
            Some(v) => if v <= max {
                Some(v)
            } else {
                None
            },
            None => None,
        }
    }
}

/// A run of digits has a value only if each of its prefixes has one, and
/// that value is no larger.
pub proof fn lemma_digits_prefix(s: Seq<char>, k: int)
    requires
        0 <= k <= s.len(),
    ensures
        digits_value(s) matches Some(v) ==> (digits_value(s.take(k)) matches Some(w) && w <= v),
    decreases s.len() - k,
{
    if k == s.len() {
        assert(s.take(k) =~= s);
    } else {
        lemma_digits_prefix(s.drop_last(), k);
        assert(s.drop_last().take(k) =~= s.take(k));
    }
}

/// Reads a decimal number of at most `max` from `v`.
pub fn parse_number(v: &[char], max: u64) -> (res: Option<u64>)
    ensures
        match res {
            Some(x) => parse_decimal(v@, max as nat) == Some(x as nat),
            None => parse_decimal(v@, max as nat).is_none(),
        },
{
    let n = v.len();
    let first: usize = if n > 0 && v[0] == '+' {
        1
    } else {
        0
    };
    if first == n {
        return None;
    }
    let ghost body = v@.skip(first as int);
    assert(first == 1 ==> body =~= v@.drop_first());
    assert(first == 0 ==> body =~= v@);
    let mut acc: u64 = 0;
    let mut i: usize = first;
    assert(body.take(0) =~= Seq::empty());
    while i < n
        invariant
            first <= i <= n == v.len(),
            body == v@.skip(first as int),
            parse_decimal(v@, max as nat) == match digits_value(body) {
                Some(x) => if x <= max {
                    Some(x)
                } else {
                    None
                },
                None => None,
            },
            digits_value(body.take(i - first)) == Some(acc as nat),
            acc <= max,
        decreases n - i,
    {
        let c = v[i];
        let ghost next = body.take(i - first + 1);
        proof {
            assert(next.drop_last() =~= body.take(i - first));
            assert(next.last() == c);
            lemma_digits_prefix(body, i - first + 1);
        }
        if c < '0' || c > '9' {
            assert(digit_value(c).is_none());
            assert(digits_value(next).is_none());
            assert(digits_value(body).is_none());
            return None;
        }
        let d: u64 = (c as u32 - '0' as u32) as u64;
        assert(digit_value(c) == Some(d as int));
        if d > max || acc > (max - d) / 10 {
            assert(acc * 10 + d > max) by (nonlinear_arith)
                requires
                    d > max || acc > (max - d) / 10,
                    d <= 9,
            ;
            assert(digits_value(next) == Some((acc * 10 + d) as nat));
            return None;
        }
        assert(acc * 10 + d <= max) by (nonlinear_arith)
            requires
                acc <= (max - d) / 10,
                d <= max,
        ;
        acc = acc * 10 + d;
        i += 1;
    }
    assert(body.take(n - first) =~= body);
    Some(acc)
}

/// The character of a decimal digit.
pub open spec fn digit_char(d: int) -> char {
    if d == 0 {
        '0'
    } else if d == 1 {
        '1'
    } else if d == 2 {
        '2'
    } else if d == 3 {
        '3'
    } else if d == 4 {
        '4'
    } else if d == 5 {
        '5'
    } else if d == 6 {
        '6'
    } else if d == 7 {
        '7'
    } else if d == 8 {
        '8'
    } else {
        '9'
    }
}

/// The decimal digits of `n`, without leading zeros.
pub open spec fn decimal_text(n: nat) -> Seq<char>
    decreases n,
{
    if n < 10 {
        seq![digit_char(n as int)]
    } else {
        decimal_text(n / 10).push(digit_char((n % 10) as int))
    }
}

/// The character of a decimal digit.
fn digit_to_char(d: u64) -> (c: char)
    requires
        d < 10,
    ensures
        c == digit_char(d as int),
{
    match d {
        0 => '0',
        1 => '1',
        2 => '2',
        3 => '3',
        4 => '4',
        5 => '5',
        6 => '6',
        7 => '7',
        8 => '8',
        _ => '9',
    }
}

/// Appends the decimal digits of `n` to `out`.
pub fn push_decimal(out: &mut Vec<char>, n: u64)
    ensures
        final(out)@ == old(out)@ + decimal_text(n as nat),
    decreases n,
{
    if n < 10 {
        out.push(digit_to_char(n));
        assert(out@ =~= old(out)@ + decimal_text(n as nat));
    } else {
        push_decimal(out, n / 10);
        out.push(digit_to_char(n % 10));
        assert(out@ =~= old(out)@ + decimal_text(n as nat));
    }
}

/// Appends the characters of `s` to `out`.
pub fn push_str(out: &mut Vec<char>, s: &str)
    ensures
        final(out)@ == old(out)@ + s@,
{
    let chars = chars_of(s);
    push_chars(out, chars.as_slice());
}

/// Appends the characters of `v` to `out`.
pub fn push_chars(out: &mut Vec<char>, v: &[char])
    ensures
        final(out)@ == old(out)@ + v@,
{
    let mut i: usize = 0;
    assert(out@ =~= old(out)@ + v@.subrange(0, 0));
    while i < v.len()
        invariant
            i <= v.len(),
            out@ == old(out)@ + v@.subrange(0, i as int),
        decreases v.len() - i,
    {
        out.push(v[i]);
        assert(out@ =~= old(out)@ + v@.subrange(0, i + 1));
        i += 1;
    }
    assert(v@.subrange(0, v.len() as int) =~= v@);
}

/// Whether the two character sequences are equal.
pub fn chars_equal(a: &[char], b: &[char]) -> (eq: bool)
    ensures
        eq == (a@ == b@),
{
    if a.len() != b.len() {
        return false;
    }
    let eq = chars_match_at(a, b, 0);
    assert(a@.subrange(0, a@.len() as int) =~= a@);
    eq
}

/// Whether `v` equals the text `s`.
pub fn chars_are(v: &[char], s: &str) -> (eq: bool)
    ensures
        eq == (v@ == s@),
{
    let other = chars_of(s);
    chars_equal(v, other.as_slice())
}

/// Whether `v` starts with the text `s`.
pub fn chars_start_with(v: &[char], s: &str) -> (b: bool)
    ensures
        b == matches_at(v@, s@, 0),
{
    let other = chars_of(s);
    chars_match_at(v, other.as_slice(), 0)
}

/// The text of an optional string.
pub open spec fn text_of(o: Option<String>) -> Option<Seq<char>> {
    match o {
        Some(s) => Some(s@),
        None => None,
    }
}

/// The text of an optional string slice.
pub open spec fn slice_text_of(o: Option<&str>) -> Option<Seq<char>> {
    match o {
        Some(s) => Some(s@),
        None => None,
    }
}

/// The texts of a list of strings, in order.
pub open spec fn texts_of(v: Seq<String>) -> Seq<Seq<char>> {
    Seq::new(v.len(), |i: int| v[i]@)
}

/// A copy of an optional string.
pub fn clone_text(o: &Option<String>) -> (copy: Option<String>)
    ensures
        text_of(copy) == text_of(*o),
{
    match o {
        Some(s) => Some(s.clone()),
        None => None,
    }
}

/// A copy of a byte string.
pub fn clone_bytes(v: &Vec<u8>) -> (copy: Vec<u8>)
    ensures
        copy@ == v@,
{
    let mut copy: Vec<u8> = Vec::new();
    let mut i: usize = 0;
    while i < v.len()
        invariant
            i <= v.len(),
            copy@ == v@.subrange(0, i as int),
        decreases v.len() - i,
    {
        copy.push(v[i]);
        assert(copy@ =~= v@.subrange(0, i + 1));
        i += 1;
    }
    assert(v@.subrange(0, v.len() as int) =~= v@);
    copy
}

/// A copy of a list of strings.
pub fn clone_texts(v: &Vec<String>) -> (copy: Vec<String>)
    ensures
        texts_of(copy@) == texts_of(v@),
{
    let mut copy: Vec<String> = Vec::new();
    let mut i: usize = 0;
    while i < v.len()
        invariant
            i <= v.len(),
            texts_of(copy@) == texts_of(v@).take(i as int),
        decreases v.len() - i,
    {
        let ghost before = texts_of(copy@);
        let item = v[i].clone();
        copy.push(item);
        assert(texts_of(copy@) =~= before.push(v[i as int]@));
        assert(texts_of(copy@) =~= texts_of(v@).take(i + 1));
        i += 1;
    }
    assert(texts_of(v@).take(v.len() as int) =~= texts_of(v@));
    copy
}

/// Whether the two texts are equal.
pub fn texts_equal(a: &str, b: &str) -> (eq: bool)
    ensures
        eq == (a@ == b@),
{
    let x = chars_of(a);
    let y = chars_of(b);
    chars_equal(x.as_slice(), y.as_slice())
}

/// The strings made of the rows of `v`, in order.
pub fn strings_of(v: &Vec<Vec<char>>, from: usize) -> (out: Vec<String>)
    requires
        from <= v.len(),
    ensures
        texts_of(out@) == rows(v@).skip(from as int),
{
    let mut out: Vec<String> = Vec::new();
    let mut i: usize = from;
    assert(texts_of(out@) =~= rows(v@).subrange(from as int, from as int));
    while i < v.len()
        invariant
            from <= i <= v.len(),
            texts_of(out@) == rows(v@).subrange(from as int, i as int),
        decreases v.len() - i,
    {
        let ghost before = texts_of(out@);
        let item = string_of(v[i].as_slice());
        out.push(item);
        assert(texts_of(out@) =~= before.push(v[i as int]@));
        assert(texts_of(out@) =~= rows(v@).subrange(from as int, i + 1));
        i += 1;
    }
    assert(rows(v@).subrange(from as int, v.len() as int) =~= rows(v@).skip(from as int));
    out
}

/// Whether the text `s` starts with the text `prefix`.
pub fn text_starts_with(s: &str, prefix: &str) -> (b: bool)
    ensures
        b == matches_at(s@, prefix@, 0),
{
    let chars = chars_of(s);
    chars_start_with(chars.as_slice(), prefix)
}

} // verus!

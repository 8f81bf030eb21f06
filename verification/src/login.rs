//! The login flow's own logic: reading what the login page's beacon sends
//! to the local callback server, percent-decoding, the auto-fill script and
//! the page checks.
use vstd::prelude::*;
use vstd::utf8::{decode_utf8, encode_utf8, valid_utf8};

use crate::state::{default_tenant, default_tenant_id, Creds};
use crate::text::{
    cat, cat3, chars_of, is_ws, owned, push_char, push_chars, spec_contains, spec_starts_with,
    starts_with, string_of, utf8_len, contains,
};

verus! {

// The text `String::from_utf8_lossy` makes of the bytes.
pub uninterp spec fn utf8_lossy(bytes: Seq<u8>) -> Seq<char>;

/// The bytes as text, each invalid sequence replaced by U+FFFD
/// (`String::from_utf8_lossy`). Valid UTF-8 is decoded as it is; what
/// replaces invalid sequences is left to the name.
#[verifier::external_body]
fn bytes_to_text(bytes: Vec<u8>) -> (r: String)
    ensures
        r@ == utf8_lossy(bytes@),
        r@ == lossy_text(bytes@),
{
    String::from_utf8_lossy(&bytes).into_owned()
}

/// The text of bytes as `String::from_utf8_lossy` gives it: valid UTF-8
/// decoded as it is, anything else as the name `utf8_lossy` says.
pub open spec fn lossy_text(bytes: Seq<u8>) -> Seq<char> {
    if valid_utf8(bytes) {
        decode_utf8(bytes)
    } else {
        utf8_lossy(bytes)
    }
}

/// The value of a hexadecimal digit.
pub open spec fn hex_value(b: u8) -> Option<u8> {
    if 48 <= b <= 57 {
        Some((b - 48) as u8)
    } else if 97 <= b <= 102 {
        Some((b - 87) as u8)
    } else if 65 <= b <= 70 {
        Some((b - 55) as u8)
    } else {
        None
    }
}

/// The byte two characters after `%` stand for, as `u8::from_str_radix`
/// with radix 16 reads them: two hex digits, or `+` and one hex digit.
pub open spec fn escape_value(b1: u8, b2: u8) -> Option<u8> {
    match (hex_value(b1), hex_value(b2)) {
        (Some(h), Some(l)) => Some((h * 16 + l) as u8),
        (None, Some(l)) => if b1 == 43 {
            Some(l)
        } else {
            None
        },
        _ => None,
    }
}

/// Percent-decoding of bytes: `%` and two hex digits is that byte when two
/// more bytes follow the `%`, `+` is a space, anything else stays.
pub open spec fn pct_decode(b: Seq<u8>) -> Seq<u8>
    decreases b.len(),
{
    if b.len() == 0 {
        seq![]
    } else if b[0] == 37 && 2 < b.len() && escape_value(b[1], b[2]) is Some {
        seq![escape_value(b[1], b[2])->0] + pct_decode(b.subrange(3, b.len() as int))
    } else if b[0] == 43 {
        seq![32u8] + pct_decode(b.drop_first())
    } else {
        seq![b[0]] + pct_decode(b.drop_first())
    }
}

/// What `url_decode` makes of a text.
pub open spec fn spec_url_decode(s: Seq<char>) -> Seq<char> {
    lossy_text(pct_decode(encode_utf8(s)))
}

fn hex(b: u8) -> (r: Option<u8>)
    ensures
        r == hex_value(b),
{
    if 48 <= b && b <= 57 {
        Some(b - 48)
    } else if 97 <= b && b <= 102 {
        Some(b - 87)
    } else if 65 <= b && b <= 70 {
        Some(b - 55)
    } else {
        None
    }
}

fn escape(b1: u8, b2: u8) -> (r: Option<u8>)
    ensures
        r == escape_value(b1, b2),
{
    match (hex(b1), hex(b2)) {
        (Some(h), Some(l)) => Some(h * 16 + l),
        (None, Some(l)) => if b1 == 43 {
            Some(l)
        } else {
            None
        },
        _ => None,
    }
}

/// Decodes a `%XX`-escaped query value; `+` is a space, and bytes that are
/// not UTF-8 become U+FFFD.
pub fn url_decode(s: &str) -> (r: String)
    ensures
        r@ == spec_url_decode(s@),
{
    let b = s.as_bytes();
    let ghost bs = b@;
    let mut out: Vec<u8> = Vec::new();
    let mut i: usize = 0;
    proof {
        assert(bs.subrange(0, bs.len() as int) =~= bs);
    }
    while i < b.len()
        invariant
            bs == b@,
            i <= bs.len(),
            pct_decode(bs) == out@ + pct_decode(bs.subrange(i as int, bs.len() as int)),
        decreases bs.len() - i,
    {
        let ghost rest = bs.subrange(i as int, bs.len() as int);
        if b[i] == 37 && b.len() - i > 2 {
            if let Some(byte) = escape(b[i + 1], b[i + 2]) {
                out.push(byte);
                proof {
                    assert(rest[1] == bs[i + 1] && rest[2] == bs[i + 2]);
                    assert(rest.subrange(3, rest.len() as int) =~= bs.subrange(i + 3, bs.len() as int));
                    assert(out@ =~= out@.drop_last() + seq![byte]);
                }
                i = i + 3;
                continue;
            }
        }
        proof {
            assert(rest.drop_first() =~= bs.subrange(i + 1, bs.len() as int));
            if 2 < rest.len() {
                assert(rest[1] == bs[i + 1] && rest[2] == bs[i + 2]);
            }
        }
        if b[i] == 43 {
            out.push(32);
        } else {
            out.push(b[i]);
        }
        i = i + 1;
    }
    bytes_to_text(out)
}

/// Whether a byte stands for itself in the browser's `encodeURIComponent`:
/// an ASCII letter or digit, or one of `-_.!~*'()`.
pub open spec fn uri_unreserved(b: u8) -> bool {
    ||| 65 <= b <= 90
    ||| 97 <= b <= 122
    ||| 48 <= b <= 57
    ||| b == 45 || b == 95 || b == 46 || b == 33 || b == 126 || b == 42 || b == 39 || b == 40
        || b == 41
}

/// An upper-case hexadecimal digit, as a byte.
pub open spec fn upper_hex_byte(d: u8) -> u8 {
    if d < 10 {
        (48 + d) as u8
    } else {
        (55 + d) as u8
    }
}

/// Percent-encoding of bytes as `encodeURIComponent` does it: an unreserved
/// byte stays, any other byte becomes `%` and two upper-case hex digits.
pub open spec fn uri_encode_bytes(b: Seq<u8>) -> Seq<u8>
    decreases b.len(),
{
    if b.len() == 0 {
        seq![]
    } else if uri_unreserved(b[0]) {
        seq![b[0]] + uri_encode_bytes(b.drop_first())
    } else {
        seq![37u8, upper_hex_byte(b[0] / 16), upper_hex_byte(b[0] % 16)] + uri_encode_bytes(
            b.drop_first(),
        )
    }
}

/// The characters of ASCII bytes.
pub open spec fn ascii_text(b: Seq<u8>) -> Seq<char> {
    Seq::new(b.len(), |i: int| b[i] as char)
}

/// What the browser's `encodeURIComponent` makes of a text (the beacon
/// sends the token, user name and tenant so): its UTF-8 bytes,
/// percent-encoded.
pub open spec fn encode_uri_component(s: Seq<char>) -> Seq<char> {
    ascii_text(uri_encode_bytes(encode_utf8(s)))
}

proof fn lemma_uri_encode_ascii(b: Seq<u8>)
    ensures
        forall|i: int| 0 <= i < uri_encode_bytes(b).len() ==> uri_encode_bytes(b)[i] < 128,
    decreases b.len(),
{
    if b.len() > 0 {
        lemma_uri_encode_ascii(b.drop_first());
        let rest = uri_encode_bytes(b.drop_first());
        if uri_unreserved(b[0]) {
            assert forall|i: int| 0 <= i < uri_encode_bytes(b).len() implies uri_encode_bytes(b)[i]
                < 128 by {
                if i > 0 {
                    assert(uri_encode_bytes(b)[i] == rest[i - 1]);
                }
            }
        } else {
            assert forall|i: int| 0 <= i < uri_encode_bytes(b).len() implies uri_encode_bytes(b)[i]
                < 128 by {
                if i >= 3 {
                    assert(uri_encode_bytes(b)[i] == rest[i - 3]);
                }
            }
        }
    }
}

proof fn lemma_ascii_byte(x: u32)
    requires
        x < 128,
    ensures
        (x & 0x7F) as u8 == x,
{
    assert((x & 0x7F) as u8 == x) by (bit_vector)
        requires
            x < 128,
    ;
}

proof fn lemma_encode_ascii_text(b: Seq<u8>)
    requires
        forall|i: int| 0 <= i < b.len() ==> b[i] < 128,
    ensures
        encode_utf8(ascii_text(b)) == b,
    decreases b.len(),
{
    let cs = ascii_text(b);
    if b.len() > 0 {
        assert(cs.drop_first() =~= ascii_text(b.drop_first()));
        lemma_encode_ascii_text(b.drop_first());
        let c = cs[0];
        assert((c as u32) == b[0] as u32);
        lemma_ascii_byte(c as u32);
        assert(vstd::utf8::encode_scalar(c as u32) == seq![b[0]]);
        assert(encode_utf8(cs) =~= b);
    } else {
        assert(cs =~= Seq::<char>::empty());
        assert(encode_utf8(cs) =~= b);
    }
}

proof fn lemma_hex_round_trip(b: u8)
    ensures
        escape_value(upper_hex_byte(b / 16), upper_hex_byte(b % 16)) == Some(b),
{
    assert(b == (b / 16) * 16 + b % 16);
}

proof fn lemma_pct_decode_uri_encode(b: Seq<u8>)
    ensures
        pct_decode(uri_encode_bytes(b)) == b,
    decreases b.len(),
{
    let e = uri_encode_bytes(b);
    if b.len() > 0 {
        lemma_pct_decode_uri_encode(b.drop_first());
        let rest = uri_encode_bytes(b.drop_first());
        if uri_unreserved(b[0]) {
            assert(e.drop_first() =~= rest);
            assert(pct_decode(e) == seq![b[0]] + pct_decode(rest));
        } else {
            lemma_hex_round_trip(b[0]);
            assert(e.subrange(3, e.len() as int) =~= rest);
            assert(pct_decode(e) == seq![b[0]] + pct_decode(rest));
        }
        assert(b =~= seq![b[0]] + b.drop_first());
    } else {
        assert(e =~= Seq::<u8>::empty());
    }
}

/// Decoding undoes the browser's encoding: what `encodeURIComponent` made
/// of any text, [`url_decode`] turns back into that text.
pub proof fn lemma_url_decode_undoes_encode_uri_component(x: Seq<char>)
    ensures
        spec_url_decode(encode_uri_component(x)) == x,
{
    let b = encode_utf8(x);
    lemma_uri_encode_ascii(b);
    lemma_encode_ascii_text(uri_encode_bytes(b));
    lemma_pct_decode_uri_encode(b);
    vstd::utf8::encode_utf8_valid_utf8(x);
    vstd::utf8::encode_utf8_decode_utf8(x);
}

/// The number of leading characters of `s` that are `c`.
pub open spec fn lead_count(s: Seq<char>, c: char) -> nat
    decreases s.len(),
{
    if s.len() > 0 && s[0] == c {
        1 + lead_count(s.drop_first(), c)
    } else {
        0
    }
}

/// The number of trailing characters of `s` that are `c`.
pub open spec fn trail_count(s: Seq<char>, c: char) -> nat
    decreases s.len(),
{
    if s.len() > 0 && s.last() == c {
        1 + trail_count(s.drop_last(), c)
    } else {
        0
    }
}

/// `s` without any `c` at either end (`str::trim_matches` with a character).
pub open spec fn spec_trim_char(s: Seq<char>, c: char) -> Seq<char> {
    let t = s.subrange(lead_count(s, c) as int, s.len() as int);
    t.subrange(0, t.len() - trail_count(t, c))
}

proof fn lemma_lead_count_bound(s: Seq<char>, c: char)
    ensures
        lead_count(s, c) <= s.len(),
    decreases s.len(),
{
    if s.len() > 0 && s[0] == c {
        lemma_lead_count_bound(s.drop_first(), c);
    }
}

proof fn lemma_trail_count_bound(s: Seq<char>, c: char)
    ensures
        trail_count(s, c) <= s.len(),
    decreases s.len(),
{
    if s.len() > 0 && s.last() == c {
        lemma_trail_count_bound(s.drop_last(), c);
    }
}

/// `s` without any `c` at either end.
pub fn trim_char(s: &str, c: char) -> (r: String)
    ensures
        r@ == spec_trim_char(s@, c),
{
    let x = chars_of(s);
    let mut i: usize = 0;
    proof {
        assert(x@.subrange(0, x@.len() as int) =~= x@);
    }
    while i < x.len() && x[i] == c
        invariant
            i <= x@.len(),
            lead_count(x@, c) == i + lead_count(x@.subrange(i as int, x@.len() as int), c),
        decreases x@.len() - i,
    {
        assert(x@.subrange(i as int, x@.len() as int).drop_first() =~= x@.subrange(
            i + 1,
            x@.len() as int,
        ));
        i = i + 1;
    }
    proof {
        lemma_lead_count_bound(x@, c);
    }
    let lo = i;
    let mut j: usize = x.len();
    proof {
        assert(x@.subrange(lo as int, x@.len() as int) =~= x@.subrange(lo as int, j as int));
    }
    while j > lo && x[j - 1] == c
        invariant
            lo <= j <= x@.len(),
            lo == lead_count(x@, c),
            trail_count(x@.subrange(lo as int, x@.len() as int), c) == (x@.len() - j)
                + trail_count(x@.subrange(lo as int, j as int), c),
        decreases j - lo,
    {
        assert(x@.subrange(lo as int, j as int).drop_last() =~= x@.subrange(lo as int, j - 1));
        j = j - 1;
    }
    let mut r = String::new();
    push_chars(&mut r, &x, lo, j);
    proof {
        let t = s@.subrange(lo as int, s@.len() as int);
        lemma_trail_count_bound(t, c);
        assert(r@ =~= t.subrange(0, t.len() - trail_count(t, c)));
    }
    r
}

/// Index of the first `c` in `s`, or its length when there is none.
pub open spec fn first_index(s: Seq<char>, c: char) -> nat
    decreases s.len(),
{
    if s.len() == 0 {
        0
    } else if s[0] == c {
        0
    } else {
        1 + first_index(s.drop_first(), c)
    }
}

proof fn lemma_first_index(s: Seq<char>, c: char)
    ensures
        first_index(s, c) <= s.len(),
        first_index(s, c) < s.len() ==> s[first_index(s, c) as int] == c,
        forall|j: int| 0 <= j < first_index(s, c) ==> s[j] != c,
    decreases s.len(),
{
    if s.len() > 0 && s[0] != c {
        lemma_first_index(s.drop_first(), c);
        assert forall|j: int| 0 <= j < first_index(s, c) implies s[j] != c by {
            if j > 0 {
                assert(s[j] == s.drop_first()[j - 1]);
            }
        }
    }
}

/// Index of the first `c` in `x[from..]`, counted from `from`.
fn find_char(x: &Vec<char>, c: char, from: usize) -> (r: usize)
    requires
        from <= x@.len(),
    ensures
        r == from + first_index(x@.subrange(from as int, x@.len() as int), c),
        r <= x@.len(),
{
    let mut i: usize = from;
    proof {
        lemma_first_index(x@.subrange(from as int, x@.len() as int), c);
    }
    while i < x.len() && x[i] != c
        invariant
            from <= i <= x@.len(),
            first_index(x@.subrange(from as int, x@.len() as int), c) == (i - from)
                + first_index(x@.subrange(i as int, x@.len() as int), c),
        decreases x@.len() - i,
    {
        assert(x@.subrange(i as int, x@.len() as int).drop_first() =~= x@.subrange(
            i + 1,
            x@.len() as int,
        ));
        i = i + 1;
    }
    i
}

/// The number of leading characters of `s` that are not white space.
pub open spec fn token_len(s: Seq<char>) -> nat
    decreases s.len(),
{
    if s.len() > 0 && !is_ws(s[0]) {
        1 + token_len(s.drop_first())
    } else {
        0
    }
}

proof fn lemma_token_len_bound(s: Seq<char>)
    ensures
        token_len(s) <= s.len(),
    decreases s.len(),
{
    if s.len() > 0 && !is_ws(s[0]) {
        lemma_token_len_bound(s.drop_first());
    }
}

/// `s` without its leading white space.
pub open spec fn skip_ws(s: Seq<char>) -> Seq<char> {
    s.subrange(crate::text::lead_ws(s) as int, s.len() as int)
}

/// The first white-space separated word of `s` (empty when there is none).
pub open spec fn first_word(s: Seq<char>) -> Seq<char> {
    skip_ws(s).subrange(0, token_len(skip_ws(s)) as int)
}

/// What follows the first word of `s`.
pub open spec fn after_first_word(s: Seq<char>) -> Seq<char> {
    skip_ws(s).subrange(token_len(skip_ws(s)) as int, skip_ws(s).len() as int)
}

/// The second white-space separated word of `s`, or the empty text
/// (`split_whitespace().nth(1).unwrap_or("")`).
pub open spec fn second_word(s: Seq<char>) -> Seq<char> {
    first_word(after_first_word(s))
}

/// Index just past the white space that starts at `from`.
fn skip_ws_from(x: &Vec<char>, from: usize) -> (r: usize)
    requires
        from <= x@.len(),
    ensures
        r == from + crate::text::lead_ws(x@.subrange(from as int, x@.len() as int)),
        r <= x@.len(),
{
    let mut i: usize = from;
    proof {
        crate::text::lemma_lead_ws_bound(x@.subrange(from as int, x@.len() as int));
    }
    while i < x.len() && crate::text::is_white(x[i])
        invariant
            from <= i <= x@.len(),
            crate::text::lead_ws(x@.subrange(from as int, x@.len() as int)) == (i - from)
                + crate::text::lead_ws(x@.subrange(i as int, x@.len() as int)),
        decreases x@.len() - i,
    {
        assert(x@.subrange(i as int, x@.len() as int).drop_first() =~= x@.subrange(
            i + 1,
            x@.len() as int,
        ));
        i = i + 1;
    }
    i
}

/// Index just past the word that starts at `from`.
fn skip_word_from(x: &Vec<char>, from: usize) -> (r: usize)
    requires
        from <= x@.len(),
    ensures
        r == from + token_len(x@.subrange(from as int, x@.len() as int)),
        r <= x@.len(),
{
    let mut i: usize = from;
    proof {
        lemma_token_len_bound(x@.subrange(from as int, x@.len() as int));
    }
    while i < x.len() && !crate::text::is_white(x[i])
        invariant
            from <= i <= x@.len(),
            token_len(x@.subrange(from as int, x@.len() as int)) == (i - from) + token_len(
                x@.subrange(i as int, x@.len() as int),
            ),
        decreases x@.len() - i,
    {
        assert(x@.subrange(i as int, x@.len() as int).drop_first() =~= x@.subrange(
            i + 1,
            x@.len() as int,
        ));
        i = i + 1;
    }
    i
}

/// The second word of a line: the path of an HTTP request line.
pub fn second_word_of(line: &str) -> (r: String)
    ensures
        r@ == second_word(line@),
{
    let x = chars_of(line);
    let a = skip_ws_from(&x, 0);
    let b = skip_word_from(&x, a);
    let c = skip_ws_from(&x, b);
    let d = skip_word_from(&x, c);
    let mut r = String::new();
    push_chars(&mut r, &x, c, d);
    proof {
        let s = line@;
        assert(s.subrange(0, s.len() as int) =~= s);
        let t0 = skip_ws(s);
        assert(t0 =~= s.subrange(a as int, s.len() as int));
        let t1 = after_first_word(s);
        assert(t1 =~= s.subrange(b as int, s.len() as int));
        let t2 = skip_ws(t1);
        assert(t2 =~= s.subrange(c as int, s.len() as int));
        assert(r@ =~= second_word(s));
    }
    r
}

/// The first line of a text: up to the first line feed, without the
/// carriage return before it (the whole text when it has no line feed).
pub open spec fn spec_first_line(s: Seq<char>) -> Seq<char> {
    let i = first_index(s, '\n');
    if i < s.len() && i > 0 && s[i - 1] == '\r' {
        s.subrange(0, i - 1)
    } else {
        s.subrange(0, i as int)
    }
}

/// The first line of a text (`lines().next().unwrap_or("")`).
pub fn first_line(s: &str) -> (r: String)
    ensures
        r@ == spec_first_line(s@),
{
    let x = chars_of(s);
    proof {
        assert(x@.subrange(0, x@.len() as int) =~= x@);
        lemma_first_index(x@, '\n');
    }
    let i = find_char(&x, '\n', 0);
    let end = if i < x.len() && i > 0 && x[i - 1] == '\r' {
        i - 1
    } else {
        i
    };
    let mut r = String::new();
    push_chars(&mut r, &x, 0, end);
    assert(r@ =~= spec_first_line(s@));
    r
}

/// `s` before and after the first `c`, when there is one (`split_once`).
pub open spec fn split_once(s: Seq<char>, c: char) -> Option<(Seq<char>, Seq<char>)> {
    let i = first_index(s, c);
    if i < s.len() {
        Some((s.subrange(0, i as int), s.subrange((i + 1) as int, s.len() as int)))
    } else {
        None
    }
}

/// The query of a path: what follows the first `?`, or nothing.
pub open spec fn query_of(path: Seq<char>) -> Seq<char> {
    match split_once(path, '?') {
        Some((_, q)) => q,
        None => seq![],
    }
}

/// The `&`-separated pieces of a query (`str::split`).
pub open spec fn pieces(q: Seq<char>) -> Seq<Seq<char>> {
    pieces_with(q, '&')
}

/// The raw value of the last `key=value` piece with the given key.
pub open spec fn last_param(ps: Seq<Seq<char>>, key: Seq<char>) -> Option<Seq<char>>
    decreases ps.len(),
{
    if ps.len() == 0 {
        None
    } else {
        match split_once(ps.last(), '=') {
            Some((k, v)) => if k == key {
                Some(v)
            } else {
                last_param(ps.drop_last(), key)
            },
            None => last_param(ps.drop_last(), key),
        }
    }
}

/// The decoded value of a query parameter, or the empty text when the
/// query has none (the last occurrence counts).
pub open spec fn param(q: Seq<char>, key: Seq<char>) -> Seq<char> {
    match last_param(pieces(q), key) {
        Some(v) => spec_url_decode(v),
        None => seq![],
    }
}

/// A text cut into the pieces between separators, as `Vec`s of characters.
fn split_pieces(x: &Vec<char>, sep: char) -> (r: Vec<Vec<char>>)
    ensures
        r@.len() == pieces_with(x@, sep).len(),
        forall|i: int| 0 <= i < r@.len() ==> r@[i]@ == #[trigger] pieces_with(x@, sep)[i],
{
    let mut r: Vec<Vec<char>> = Vec::new();
    let mut from: usize = 0;
    proof {
        assert(x@.subrange(0, x@.len() as int) =~= x@);
    }
    loop
        invariant
            from <= x@.len(),
            pieces_with(x@, sep) =~= Seq::new(r@.len() as nat, |i: int| r@[i]@) + pieces_with(
                x@.subrange(from as int, x@.len() as int),
                sep,
            ),
        decreases x@.len() - from,
    {
        let ghost rest = x@.subrange(from as int, x@.len() as int);
        proof {
            lemma_first_index(rest, sep);
        }
        let i = find_char(x, sep, from);
        let mut piece: Vec<char> = Vec::new();
        let mut k: usize = from;
        while k < i
            invariant
                from <= k <= i,
                i <= x@.len(),
                piece@ =~= x@.subrange(from as int, k as int),
            decreases i - k,
        {
            piece.push(x[k]);
            k = k + 1;
        }
        let ghost before = r@;
        r.push(piece);
        if i < x.len() {
            proof {
                assert(rest.subrange(0, (i - from) as int) =~= x@.subrange(from as int, i as int));
                assert(rest.subrange(i - from + 1, rest.len() as int) =~= x@.subrange(
                    i + 1,
                    x@.len() as int,
                ));
                assert(Seq::new(r@.len() as nat, |j: int| r@[j]@) =~= Seq::new(
                    before.len() as nat,
                    |j: int| before[j]@,
                ) + seq![x@.subrange(from as int, i as int)]);
            }
            from = i + 1;
        } else {
            proof {
                assert(rest =~= x@.subrange(from as int, i as int));
                assert(Seq::new(r@.len() as nat, |j: int| r@[j]@) =~= Seq::new(
                    before.len() as nat,
                    |j: int| before[j]@,
                ) + seq![rest]);
                assert(pieces_with(x@, sep) =~= Seq::new(r@.len() as nat, |j: int| r@[j]@));
            }
            return r;
        }
    }
}

/// The pieces of `q` between the separators `sep`.
pub open spec fn pieces_with(q: Seq<char>, sep: char) -> Seq<Seq<char>>
    decreases q.len(),
{
    let i = first_index(q, sep);
    if i < q.len() {
        seq![q.subrange(0, i as int)] + pieces_with(q.subrange((i + 1) as int, q.len() as int), sep)
    } else {
        seq![q]
    }
}

/// The raw value of the last `key=value` piece among `ps[..n]`.
fn last_param_in(ps: &Vec<Vec<char>>, n: usize, key: &str) -> (r: Option<String>)
    requires
        n <= ps@.len(),
    ensures
        match last_param(Seq::new(n as nat, |i: int| ps@[i]@), key@) {
            Some(v) => r matches Some(x) && x@ == v,
            None => r is None,
        },
    decreases n,
{
    let ghost all = Seq::new(n as nat, |i: int| ps@[i]@);
    if n == 0 {
        return None;
    }
    let piece = &ps[n - 1];
    proof {
        assert(all.last() == piece@);
        assert(all.drop_last() =~= Seq::new((n - 1) as nat, |i: int| ps@[i]@));
        assert(piece@.subrange(0, piece@.len() as int) =~= piece@);
        lemma_first_index(piece@, '=');
    }
    let i = find_char(piece, '=', 0);
    if i < piece.len() {
        let mut k = String::new();
        push_chars(&mut k, piece, 0, i);
        if crate::text::str_eq(k.as_str(), key) {
            let mut v = String::new();
            push_chars(&mut v, piece, i + 1, piece.len());
            return Some(v);
        }
    }
    last_param_in(ps, n - 1, key)
}

/// The decoded value of the query parameter `key`, or the empty text.
fn param_of(q: &Vec<char>, key: &str) -> (r: String)
    ensures
        r@ == param(q@, key@),
{
    let ps = split_pieces(q, '&');
    proof {
        assert(Seq::new(ps@.len() as nat, |i: int| ps@[i]@) =~= pieces(q@));
    }
    match last_param_in(&ps, ps.len(), key) {
        Some(v) => url_decode(v.as_str()),
        None => String::new(),
    }
}

/// What the local login server makes of one request.
#[derive(Debug)]
pub enum LoginCallback {
    /// The beacon brought a token long enough to be real: the new login.
    LoggedIn(Creds),
    /// The login page reported a failure, with its message.
    Failed(String),
    /// The login page asks for a captcha.
    Captcha,
    /// Anything else, a token too short to be real among them: keep listening.
    Ignored,
}

/// The path of a request: the second word of its first line.
pub open spec fn request_path(request: Seq<char>) -> Seq<char> {
    second_word(spec_first_line(request))
}

/// The token a `/cb` request carries: its `t` parameter without quotes.
pub open spec fn callback_token(request: Seq<char>) -> Seq<char> {
    spec_trim_char(param(query_of(request_path(request)), "t"@), '"')
}

/// The tenant a `/cb` request carries, or the default tenant.
pub open spec fn callback_tenant(request: Seq<char>) -> Seq<char> {
    let ti = param(query_of(request_path(request)), "ti"@);
    if ti.len() == 0 {
        default_tenant()
    } else {
        ti
    }
}

/// Reads one request of the login page's beacon: `/cb?t=..&u=..&ti=..`
/// brings the login (a token of more than 20 bytes, quotes trimmed; the
/// default tenant when none is given), `/login_fail?msg=..` a failure,
/// `/login_captcha` a captcha; anything else is ignored.
pub fn parse_login_callback(request: &str) -> (r: LoginCallback)
    ensures
        ({
            let path = request_path(request@);
            let q = query_of(path);
            if spec_starts_with(path, "/cb"@) {
                if utf8_len(callback_token(request@)) > 20 {
                    r matches LoginCallback::LoggedIn(c) && c.token@ == callback_token(request@)
                        && c.tenant_id@ == callback_tenant(request@) && c.user_name@ == param(
                        q,
                        "u"@,
                    )
                } else {
                    r is Ignored
                }
            } else if spec_starts_with(path, "/login_fail"@) {
                r matches LoginCallback::Failed(m) && m@ == param(q, "msg"@)
            } else if spec_starts_with(path, "/login_captcha"@) {
                r is Captcha
            } else {
                r is Ignored
            }
        }),
{
    let line = first_line(request);
    let path = second_word_of(line.as_str());
    let pc = chars_of(path.as_str());
    proof {
        assert(pc@.subrange(0, pc@.len() as int) =~= pc@);
        lemma_first_index(pc@, '?');
    }
    let qi = find_char(&pc, '?', 0);
    let mut qs: Vec<char> = Vec::new();
    let mut k: usize = if qi < pc.len() {
        qi + 1
    } else {
        pc.len()
    };
    let start = k;
    while k < pc.len()
        invariant
            start <= k <= pc@.len(),
            qs@ =~= pc@.subrange(start as int, k as int),
        decreases pc@.len() - k,
    {
        qs.push(pc[k]);
        k = k + 1;
    }
    proof {
        if qi < pc@.len() {
            assert(qs@ =~= query_of(path@));
        } else {
            assert(qs@ =~= query_of(path@));
        }
    }
    if starts_with(path.as_str(), "/cb") {
        let t = param_of(&qs, "t");
        let u = param_of(&qs, "u");
        let ti = param_of(&qs, "ti");
        let token = trim_char(t.as_str(), '"');
        if token.as_str().as_bytes().len() > 20 {
            let tenant_id = if ti.as_str().is_empty() {
                default_tenant_id()
            } else {
                ti
            };
            LoginCallback::LoggedIn(Creds { token, tenant_id, user_name: u })
        } else {
            LoginCallback::Ignored
        }
    } else if starts_with(path.as_str(), "/login_fail") {
        LoginCallback::Failed(param_of(&qs, "msg"))
    } else if starts_with(path.as_str(), "/login_captcha") {
        LoginCallback::Captcha
    } else {
        LoginCallback::Ignored
    }
}

/// Whether the login window shows the login form (its address holds `/login`).
pub fn is_login_form(url: &str) -> (r: bool)
    ensures
        r == spec_contains(url@, "/login"@),
{
    contains(url, "/login")
}

/// Whether the login window has reached a signed-in page (its address
/// holds `/maintenance`, `/portal` or `/SelfServiceCenter`).
pub fn is_signed_in_page(url: &str) -> (r: bool)
    ensures
        r == (spec_contains(url@, "/maintenance"@) || spec_contains(url@, "/portal"@)
            || spec_contains(url@, "/SelfServiceCenter"@)),
{
    contains(url, "/maintenance") || contains(url, "/portal") || contains(url, "/SelfServiceCenter")
}

/// What the automatic login does on one look at the login window.
#[derive(Debug, Clone, Copy, PartialEq, Eq, Structural)]
pub enum FillStep {
    /// The login form shows: fill it in and submit it.
    Fill,
    /// A signed-in page shows: the beacon takes over.
    Done,
    /// Anything else: look again later.
    Wait,
}

/// The automatic login's step for the window's address: fill in the form
/// while it shows, stop once signed in, else wait.
pub fn autofill_step(url: &str) -> (r: FillStep)
    ensures
        spec_contains(url@, "/login"@) ==> r == FillStep::Fill,
        !spec_contains(url@, "/login"@) && (spec_contains(url@, "/maintenance"@) || spec_contains(
            url@,
            "/portal"@,
        ) || spec_contains(url@, "/SelfServiceCenter"@)) ==> r == FillStep::Done,
        !spec_contains(url@, "/login"@) && !(spec_contains(url@, "/maintenance"@) || spec_contains(
            url@,
            "/portal"@,
        ) || spec_contains(url@, "/SelfServiceCenter"@)) ==> r == FillStep::Wait,
{
    if is_login_form(url) {
        FillStep::Fill
    } else if is_signed_in_page(url) {
        FillStep::Done
    } else {
        FillStep::Wait
    }
}

/// Port of the local server that the login page's beacon calls back.
pub const LOGIN_CALLBACK_PORT: u16 = 17539;

/// The login page, which sends the user on to the maintenance page.
pub fn login_page_url() -> (r: String)
    ensures
        r@ == "https://help.chinasie.com/login?redirect=/maintenance"@,
{
    owned("https://help.chinasie.com/login?redirect=/maintenance")
}

/// The script run in a signed-in login window: it sends the token, the
/// user name and the tenant to the local callback server once.
pub fn beacon_script() -> (r: String)
    ensures
        r@ == BEACON@,
{
    owned(BEACON)
}

/// Text of the beacon script.
pub const BEACON: &'static str = r#"try{var t=localStorage.getItem('GuShen_Token')||'';var u=localStorage.getItem('userFullName')||'';var ti=localStorage.getItem('tenantId')||'';if(t.length>20&&!window.__tokenSent){window.__tokenSent=true;new Image().src='http://127.0.0.1:17539/cb?t='+encodeURIComponent(t)+'&u='+encodeURIComponent(u)+'&ti='+encodeURIComponent(ti);}}catch(e){}"#;

/// A character as it stands inside a JSON string: quote, backslash and the
/// control characters escaped (the short forms where JSON has one, else
/// `\u00xx` with lower-case hex), everything else as it is.
pub open spec fn json_escape(c: char) -> Seq<char> {
    if c == '"' {
        seq!['\\', '"']
    } else if c == '\\' {
        seq!['\\', '\\']
    } else if c == '\u{8}' {
        seq!['\\', 'b']
    } else if c == '\u{c}' {
        seq!['\\', 'f']
    } else if c == '\n' {
        seq!['\\', 'n']
    } else if c == '\r' {
        seq!['\\', 'r']
    } else if c == '\t' {
        seq!['\\', 't']
    } else if (c as u32) < 0x20 {
        seq!['\\', 'u', '0', '0', lower_hex((c as u32 / 16) as nat), lower_hex((c as u32 % 16) as nat)]
    } else {
        seq![c]
    }
}

/// A lower-case hexadecimal digit.
pub open spec fn lower_hex(d: nat) -> char {
    if d < 10 {
        crate::text::digit_char(d)
    } else if d == 10 {
        'a'
    } else if d == 11 {
        'b'
    } else if d == 12 {
        'c'
    } else if d == 13 {
        'd'
    } else if d == 14 {
        'e'
    } else {
        'f'
    }
}

/// The characters of `s` escaped for a JSON string.
pub open spec fn json_escaped(s: Seq<char>) -> Seq<char>
    decreases s.len(),
{
    if s.len() == 0 {
        seq![]
    } else {
        json_escape(s[0]) + json_escaped(s.drop_first())
    }
}

/// A text written as a JSON string literal.
pub open spec fn json_quote(s: Seq<char>) -> Seq<char> {
    seq!['"'] + json_escaped(s) + seq!['"']
}

/// A text as a JSON string literal (`serde_json::to_string` of a string,
/// which cannot fail for one).
#[verifier::external_body]
fn json_string(s: &str) -> (r: String)
    ensures
        r@ == json_quote(s@),
{
    serde_json::to_string(s).unwrap_or_else(|_| String::from("\"\""))
}

/// Text of the auto-fill script before the account.
pub const FILL_HEAD: &'static str = r#"try{if(!window.__failHooked){window.__failHooked=true;var os=XMLHttpRequest.prototype.send;XMLHttpRequest.prototype.send=function(){var x=this;x.addEventListener('load',function(){try{var u=x.responseURL||'';if(u.indexOf('/base-user/login')>=0){var r=JSON.parse(x.responseText);if(r.code!=800){var m=r.msg||'';if(m.indexOf('验证码')>=0){new Image().src='http://127.0.0.1:17539/login_captcha';}else{new Image().src='http://127.0.0.1:17539/login_fail?msg='+encodeURIComponent(m);}}}}catch(e){}});return os.apply(this,arguments);};}var a=document.querySelector('input[name="account"]');var p=document.querySelector('input[name="password"]');if(a&&p&&!window.__autoFilled){window.__autoFilled=true;var s=Object.getOwnPropertyDescriptor(HTMLInputElement.prototype,'value').set;s.call(a,"#;

/// Text of the auto-fill script between the account and the password.
pub const FILL_MIDDLE: &'static str = r#");a.dispatchEvent(new Event('input',{bubbles:true}));s.call(p,"#;

/// Text of the auto-fill script after the password.
pub const FILL_TAIL: &'static str = r#");p.dispatchEvent(new Event('input',{bubbles:true}));setTimeout(function(){var b=document.querySelector('button.login-btn');if(b)b.click();},300);}}catch(e){}"#;

/// The script that fills in the login form and submits it, and reports a
/// failed login (or a captcha) to the local callback server. The account
/// and the password stand in it as JSON string literals, so nothing in
/// them can break out of the script.
pub fn autofill_script(account: &str, password: &str) -> (r: String)
    ensures
        r@ == FILL_HEAD@ + json_quote(account@) + FILL_MIDDLE@ + json_quote(password@) + FILL_TAIL@,
{
    let a = json_string(account);
    let p = json_string(password);
    let mut r = cat3(FILL_HEAD, a.as_str(), FILL_MIDDLE);
    r.append(p.as_str());
    r.append(FILL_TAIL);
    r
}

} // verus!

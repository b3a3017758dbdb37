//! Display-name cookie: percent-encoding of the stored name and reading
//! values back out of a `document.cookie` string.
//!
//! Reading and writing the browser cookie is the caller's I/O; this module
//! computes what is written and what is read.

use vstd::prelude::*;
use vstd::utf8::{decode_utf8, encode_utf8, valid_utf8, is_ascii_chars};

use crate::text::{
    is_ws, split_from, trim_end_from, trim_start_from, chars_of, chars_starts_with, chars_skip, push_char, push_str, split_chars, split_on, string_from,
    string_of, trim, trim_chars, views,
};

verus! {

/// Name of the display-name cookie.
pub const NAME_COOKIE: &'static str = "sg_display_name";

// ---------------------------------------------------------------------------
// Percent-encoding
// ---------------------------------------------------------------------------

/// Bytes that stay as they are when encoded: `A-Z a-z 0-9 - _ . ~`.
pub open spec fn unreserved(b: u8) -> bool {
    (65 <= b <= 90) || (97 <= b <= 122) || (48 <= b <= 57) || b == 45 || b == 95 || b == 46 || b
        == 126
}

/// Upper-case hex digit for `v < 16`.
pub open spec fn hex_upper(v: u8) -> char {
    if v < 10 {
        ((48 + v) as u8) as char
    } else {
        ((55 + v) as u8) as char
    }
}

/// The encoding of one byte.
pub open spec fn encode_byte(b: u8) -> Seq<char> {
    if unreserved(b) {
        seq![b as char]
    } else {
        seq!['%', hex_upper(b / 16), hex_upper(b % 16)]
    }
}

/// The percent-encoding of a byte sequence.
pub open spec fn encode_bytes(bs: Seq<u8>) -> Seq<char>
    decreases bs.len(),
{
    if bs.len() == 0 {
        seq![]
    } else {
        encode_byte(bs[0]) + encode_bytes(bs.drop_first())
    }
}

/// The value of a hex digit (either case), if it is one.
pub open spec fn hex_value(b: u8) -> Option<u8> {
    if 48 <= b <= 57 {
        Some((b - 48) as u8)
    } else if 97 <= b <= 102 {
        Some((b - 87) as u8)
    } else if 65 <= b <= 70 {
        Some((b - 55) as u8)
    } else {
        None
    }
}

/// Percent-decoding of bytes: `%XY` with two hex digits becomes one byte,
/// `+` becomes a space, everything else stays.
pub open spec fn decode_bytes(bs: Seq<u8>) -> Seq<u8>
    decreases bs.len(),
{
    if bs.len() == 0 {
        seq![]
    } else if bs[0] == 37 && bs.len() >= 3 && hex_value(bs[1]) is Some && hex_value(bs[2]) is Some {
        seq![(hex_value(bs[1]).unwrap() * 16 + hex_value(bs[2]).unwrap()) as u8] + decode_bytes(
            bs.skip(3),
        )
    } else if bs[0] == 43 {
        seq![32u8] + decode_bytes(bs.drop_first())
    } else {
        seq![bs[0]] + decode_bytes(bs.drop_first())
    }
}

fn hex_digit_upper(v: u8) -> (c: char)
    requires
        v < 16,
    ensures
        c == hex_upper(v),
{
    if v < 10 {
        (48 + v) as char
    } else {
        (55 + v) as char
    }
}

fn hex_digit_value(b: u8) -> (r: Option<u8>)
    ensures
        r == hex_value(b),
{
    if 48 <= b && b <= 57 {
        Some(b - 48)
    } else if 97 <= b && b <= 102 {
        Some(b - 87)
    } else if 65 <= b && b <= 70 {
        Some(b - 55)
    } else {
        None
    }
}

proof fn lemma_encode_bytes_split(bs: Seq<u8>, i: int)
    requires
        0 <= i < bs.len(),
    ensures
        encode_bytes(bs.take(i + 1)) == encode_bytes(bs.take(i)) + encode_byte(bs[i]),
    decreases i,
{
    if i == 0 {
        assert(bs.take(1).drop_first() =~= Seq::<u8>::empty());
        assert(encode_bytes(bs.take(0)) =~= Seq::<char>::empty());
        assert(encode_bytes(bs.take(1)) == encode_byte(bs[0]) + encode_bytes(
            bs.take(1).drop_first(),
        ));
        assert(encode_bytes(Seq::<u8>::empty()) =~= Seq::<char>::empty());
        assert(encode_byte(bs[0]) + Seq::<char>::empty() =~= encode_byte(bs[0]));
        assert(Seq::<char>::empty() + encode_byte(bs[0]) =~= encode_byte(bs[0]));
    } else {
        let t = bs.drop_first();
        lemma_encode_bytes_split(t, i - 1);
        assert(bs.take(i + 1).drop_first() =~= t.take(i));
        assert(bs.take(i).drop_first() =~= t.take(i - 1));
        assert(bs.take(i + 1)[0] == bs[0]);
        assert(bs.take(i)[0] == bs[0]);
        assert(t[i - 1] == bs[i]);
        let a = encode_byte(bs[0]);
        assert(encode_bytes(bs.take(i + 1)) == a + encode_bytes(t.take(i)));
        assert(encode_bytes(bs.take(i)) == a + encode_bytes(t.take(i - 1)));
        assert(a + (encode_bytes(t.take(i - 1)) + encode_byte(bs[i])) =~= (a + encode_bytes(
            t.take(i - 1),
        )) + encode_byte(bs[i]));
    }
}

/// Percent-encodes the UTF-8 bytes of `s`: `A-Z a-z 0-9 - _ . ~` stay,
/// every other byte becomes `%XY` with upper-case hex digits.
pub fn urlencoding_encode(s: &str) -> (out: String)
    ensures
        out@ == encode_bytes(encode_utf8(s@)),
{
    let bytes = s.as_bytes();
    let mut out = String::new();
    let n = bytes.len();
    let mut i: usize = 0;
    while i < n
        invariant
            n == bytes@.len(),
            bytes@ == encode_utf8(s@),
            i <= n,
            out@ == encode_bytes(bytes@.take(i as int)),
        decreases n - i,
    {
        let b = bytes[i];
        proof {
            lemma_encode_bytes_split(bytes@, i as int);
        }
        if (65 <= b && b <= 90) || (97 <= b && b <= 122) || (48 <= b && b <= 57) || b == 45 || b
            == 95 || b == 46 || b == 126 {
            push_char(&mut out, b as char);
        } else {
            push_char(&mut out, '%');
            push_char(&mut out, hex_digit_upper(b / 16));
            push_char(&mut out, hex_digit_upper(b % 16));
        }
        i = i + 1;
    }
    assert(bytes@.take(n as int) =~= bytes@);
    out
}

/// The characters std `String::from_utf8_lossy` makes of `bytes`.
pub uninterp spec fn utf8_lossy(bytes: Seq<u8>) -> Seq<char>;

/// std `String::from_utf8_lossy`, owned: the result is named; the one fact
/// stated is the documented one, that valid UTF-8 decodes to exactly its
/// characters. Which U+FFFD replacements invalid sequences get is not
/// stated.
#[verifier::external_body]
fn string_from_utf8_lossy(bytes: &[u8]) -> (s: String)
    ensures
        s@ == utf8_lossy(bytes@),
        valid_utf8(bytes@) ==> s@ == decode_utf8(bytes@),
{
    String::from_utf8_lossy(bytes).into_owned()
}

/// The percent-decoded bytes of `s`.
pub fn urlencoding_decode_bytes(s: &str) -> (out: Vec<u8>)
    ensures
        out@ == decode_bytes(encode_utf8(s@)),
{
    let bytes = s.as_bytes();
    let n = bytes.len();
    let mut out: Vec<u8> = Vec::new();
    let mut i: usize = 0;
    assert(bytes@.skip(0) =~= bytes@);
    assert(out@ + decode_bytes(bytes@) =~= decode_bytes(bytes@));
    while i < n
        invariant
            n == bytes@.len(),
            i <= n,
            decode_bytes(encode_utf8(s@)) == out@ + decode_bytes(bytes@.skip(i as int)),
            bytes@ == encode_utf8(s@),
        decreases n - i,
    {
        let ghost rest = bytes@.skip(i as int);
        assert(rest.len() > 0 && rest[0] == bytes[i as int]);
        if bytes[i] == 37 && n - i > 2 {
            let hi = hex_digit_value(bytes[i + 1]);
            let lo = hex_digit_value(bytes[i + 2]);
            assert(rest[1] == bytes@[i + 1] && rest[2] == bytes@[i + 2]);
            if let (Some(h), Some(l)) = (hi, lo) {
                out.push(h * 16 + l);
                proof {
                    assert(rest.skip(3) =~= bytes@.skip(i + 3));
                    assert(decode_bytes(rest) == seq![(h * 16 + l) as u8] + decode_bytes(
                        rest.skip(3),
                    ));
                }
                i = i + 3;
                continue;
            }
        }
        proof {
            assert(rest.drop_first() =~= bytes@.skip(i + 1));
        }
        if bytes[i] == 43 {
            out.push(32);
        } else {
            out.push(bytes[i]);
        }
        i = i + 1;
    }
    assert(bytes@.skip(n as int) =~= Seq::<u8>::empty());
    assert(out@ + Seq::<u8>::empty() =~= out@);
    out
}

/// Percent-decodes `s` (see `decode_bytes`) and reads the result as UTF-8,
/// invalid sequences replaced.
pub fn urlencoding_decode(s: &str) -> (out: String)
    ensures
        out@ == utf8_lossy(decode_bytes(encode_utf8(s@))),
        valid_utf8(decode_bytes(encode_utf8(s@))) ==> out@ == decode_utf8(
            decode_bytes(encode_utf8(s@)),
        ),
{
    let out = urlencoding_decode_bytes(s);
    string_from_utf8_lossy(out.as_slice())
}

// ---------------------------------------------------------------------------
// The round trip
// ---------------------------------------------------------------------------

proof fn lemma_encode_byte_ascii(b: u8)
    ensures
        is_ascii_chars(encode_byte(b)),
        encode_utf8(encode_byte(b)) == encode_byte(b).map_values(|c: char| c as u8),
{
    let e = encode_byte(b);
    if !unreserved(b) {
        assert(b / 16 < 16 && b % 16 < 16);
    }
    assert(is_ascii_chars(e));
    vstd::utf8::is_ascii_chars_encode_utf8(e);
    assert(encode_utf8(e) =~= e.map_values(|c: char| c as u8));
}

/// Encoding yields ASCII characters only.
proof fn lemma_encode_bytes_ascii(bs: Seq<u8>)
    ensures
        is_ascii_chars(encode_bytes(bs)),
    decreases bs.len(),
{
    if bs.len() > 0 {
        lemma_encode_byte_ascii(bs[0]);
        lemma_encode_bytes_ascii(bs.drop_first());
        let a = encode_byte(bs[0]);
        let r = encode_bytes(bs.drop_first());
        assert forall|i: int| 0 <= i < (a + r).len() implies '\0' <= #[trigger] (a + r)[i] <= '\u{7f}' by {
            if i < a.len() {
                assert((a + r)[i] == a[i]);
            } else {
                assert((a + r)[i] == r[i - a.len()]);
            }
        }
    }
}

/// Decoding the bytes of one encoded byte followed by anything gives that
/// byte back first.
proof fn lemma_decode_encoded_byte(b: u8, rest: Seq<u8>)
    ensures
        decode_bytes(encode_byte(b).map_values(|c: char| c as u8) + rest) == seq![b] + decode_bytes(
            rest,
        ),
{
    let e = encode_byte(b).map_values(|c: char| c as u8);
    let s = e + rest;
    if unreserved(b) {
        assert(s[0] == b);
        assert(s.drop_first() =~= rest);
    } else {
        let hi = b / 16;
        let lo = b % 16;
        assert(s[0] == 37u8);
        assert(s[1] == hex_upper(hi) as u8);
        assert(s[2] == hex_upper(lo) as u8);
        assert(hex_value(hex_upper(hi) as u8) == Some(hi));
        assert(hex_value(hex_upper(lo) as u8) == Some(lo));
        assert(s.skip(3) =~= rest);
        assert((hi * 16 + lo) as u8 == b);
    }
}

proof fn lemma_encode_bytes_utf8(bs: Seq<u8>)
    ensures
        encode_utf8(encode_bytes(bs)) == encode_bytes(bs).map_values(|c: char| c as u8),
{
    lemma_encode_bytes_ascii(bs);
    let e = encode_bytes(bs);
    vstd::utf8::is_ascii_chars_encode_utf8(e);
    assert(encode_utf8(e) =~= e.map_values(|c: char| c as u8));
}

proof fn lemma_decode_encode_bytes(bs: Seq<u8>)
    ensures
        decode_bytes(encode_bytes(bs).map_values(|c: char| c as u8)) == bs,
    decreases bs.len(),
{
    if bs.len() == 0 {
        assert(encode_bytes(bs).map_values(|c: char| c as u8) =~= Seq::<u8>::empty());
    } else {
        let r = bs.drop_first();
        lemma_decode_encode_bytes(r);
        let m = encode_byte(bs[0]).map_values(|c: char| c as u8);
        let mr = encode_bytes(r).map_values(|c: char| c as u8);
        assert(encode_bytes(bs).map_values(|c: char| c as u8) =~= m + mr);
        lemma_decode_encoded_byte(bs[0], mr);
        assert(seq![bs[0]] + r =~= bs);
    }
}

/// Decoding what `urlencoding_encode` wrote gives the original text back:
/// the encoding is ASCII, its bytes percent-decode to the UTF-8 bytes of
/// the original, and those are valid UTF-8 that decode to it.
pub proof fn law_url_roundtrip(s: Seq<char>)
    ensures
        valid_utf8(decode_bytes(encode_utf8(encode_bytes(encode_utf8(s))))),
        decode_utf8(decode_bytes(encode_utf8(encode_bytes(encode_utf8(s))))) == s,
{
    let bs = encode_utf8(s);
    lemma_encode_bytes_utf8(bs);
    lemma_decode_encode_bytes(bs);
    vstd::utf8::encode_utf8_valid_utf8(s);
    vstd::utf8::encode_utf8_decode_utf8(s);
}

/// A character that percent-encoding keeps as it is: `A-Z a-z 0-9 - _ . ~`.
pub open spec fn unreserved_char(c: char) -> bool {
    let u = c as u32;
    ||| 65 <= u <= 90
    ||| 97 <= u <= 122
    ||| 48 <= u <= 57
    ||| u == 45
    ||| u == 95
    ||| u == 46
    ||| u == 126
}

/// An upper-case hex digit: `0-9 A-F`.
pub open spec fn upper_hex_char(c: char) -> bool {
    let u = c as u32;
    (48 <= u <= 57) || (65 <= u <= 70)
}

/// Text made only of unreserved characters and `%XY` escapes whose two
/// digits are upper-case hex.
pub open spec fn percent_encoded_text(e: Seq<char>) -> bool {
    forall|i: int|
        #![trigger e[i]]
        0 <= i < e.len() ==> unreserved_char(e[i]) || (e[i] == '%' && i + 2 < e.len()
            && upper_hex_char(e[i + 1]) && upper_hex_char(e[i + 2]))
}

proof fn lemma_percent_encoded_concat(a: Seq<char>, r: Seq<char>)
    requires
        percent_encoded_text(a),
        percent_encoded_text(r),
    ensures
        percent_encoded_text(a + r),
{
    let e = a + r;
    assert forall|i: int| 0 <= i < e.len() implies unreserved_char(e[i]) || (e[i] == '%' && i + 2
        < e.len() && upper_hex_char(e[i + 1]) && upper_hex_char(e[i + 2])) by {
        if i < a.len() {
            assert(e[i] == a[i]);
            if !unreserved_char(a[i]) {
                assert(e[i + 1] == a[i + 1]);
                assert(e[i + 2] == a[i + 2]);
            }
        } else {
            let j = i - a.len();
            assert(e[i] == r[j]);
            if !unreserved_char(r[j]) {
                assert(e[i + 1] == r[j + 1]);
                assert(e[i + 2] == r[j + 2]);
            }
        }
    }
}

proof fn lemma_encode_bytes_percent_encoded(bs: Seq<u8>)
    ensures
        percent_encoded_text(encode_bytes(bs)),
    decreases bs.len(),
{
    if bs.len() == 0 {
        assert(encode_bytes(bs) =~= Seq::<char>::empty());
    } else {
        lemma_encode_bytes_percent_encoded(bs.drop_first());
        let a = encode_byte(bs[0]);
        if !unreserved(bs[0]) {
            assert(bs[0] / 16 < 16 && bs[0] % 16 < 16);
            assert(upper_hex_char(a[1]) && upper_hex_char(a[2]));
            assert(!unreserved_char(a[0]));
        }
        assert(percent_encoded_text(a));
        lemma_percent_encoded_concat(a, encode_bytes(bs.drop_first()));
    }
}

/// What `urlencoding_encode` writes holds only `A-Z a-z 0-9 - _ . ~` and
/// `%XY` escapes with two upper-case hex digits.
pub proof fn law_encoded_alphabet(s: Seq<char>)
    ensures
        percent_encoded_text(encode_bytes(encode_utf8(s))),
{
    lemma_encode_bytes_percent_encoded(encode_utf8(s));
}

// ---------------------------------------------------------------------------
// Cookie strings
// ---------------------------------------------------------------------------

/// The value of a cookie piece `name=value` (after trimming), if the piece
/// is for `name`.
pub open spec fn cookie_value_of(piece: Seq<char>, name: Seq<char>) -> Option<Seq<char>> {
    let t = trim(piece);
    let p = name.push('=');
    if p.len() <= t.len() && t.take(p.len() as int) == p {
        Some(t.skip(p.len() as int))
    } else {
        None
    }
}

/// The values of every `name=value` piece of a `;`-separated cookie string,
/// in order.
pub open spec fn cookie_values_spec(cookie: Seq<char>, name: Seq<char>) -> Seq<Seq<char>> {
    split_on(cookie, ';').filter_map(|piece: Seq<char>| cookie_value_of(piece, name))
}

/// The values of every `name=value` piece of a `;`-separated cookie string,
/// in order.
pub fn cookie_values(cookie: &str, name: &str) -> (out: Vec<String>)
    ensures
        out@.map_values(|s: String| s@) == cookie_values_spec(cookie@, name@),
{
    let cc = chars_of(cookie);
    let pieces = split_chars(&cc, ';');
    let mut prefix = string_from(name);
    push_char(&mut prefix, '=');
    let ghost pv = views(pieces@);
    let mut out: Vec<String> = Vec::new();
    let n = pieces.len();
    let mut i: usize = 0;
    while i < n
        invariant
            n == pieces@.len(),
            pv == views(pieces@),
            pv == split_on(cookie@, ';'),
            prefix@ == name@.push('='),
            i <= n,
            out@.map_values(|s: String| s@) == pv.take(i as int).filter_map(
                |piece: Seq<char>| cookie_value_of(piece, name@),
            ),
        decreases n - i,
    {
        let t = trim_chars(&pieces[i]);
        assert(pieces@[i as int]@ == pv[i as int]);
        let ghost before = out@.map_values(|s: String| s@);
        let pc = chars_of(prefix.as_str());
        if chars_starts_with(&t, prefix.as_str()) {
            let v = chars_skip(&t, pc.len());
            let vs = string_of(&v);
            out.push(vs);
            assert(out@.map_values(|s: String| s@) =~= before + seq![vs@]);
        } else {
            assert(out@.map_values(|s: String| s@) =~= before);
        }
        assert(pv.take(i + 1).drop_last() =~= pv.take(i as int));
        i = i + 1;
    }
    assert(pv.take(n as int) =~= pv);
    out
}

/// The cookie string that stores a display name for a year.
pub open spec fn name_cookie_spec(name: Seq<char>) -> Seq<char> {
    "sg_display_name="@ + encode_bytes(encode_utf8(name)) + "; path=/; max-age=31536000; SameSite=Lax"@
}

/// The cookie string that stores `name` as the display name for a year.
pub fn display_name_cookie(name: &str) -> (out: String)
    ensures
        out@ == name_cookie_spec(name@),
{
    let mut out = string_from("sg_display_name=");
    let enc = urlencoding_encode(name);
    push_str(&mut out, enc.as_str());
    push_str(&mut out, "; path=/; max-age=31536000; SameSite=Lax");
    out
}

/// The decoded display names stored in a cookie string, in order (the
/// caller keeps the first one that is a valid name).
pub fn display_name_candidates(cookie: &str) -> (out: Vec<String>)
    ensures
        out@.len() == cookie_values_spec(cookie@, "sg_display_name"@).len(),
        forall|i: int|
            0 <= i < out@.len() ==> (#[trigger] out@[i])@ == utf8_lossy(
                decode_bytes(encode_utf8(cookie_values_spec(cookie@, "sg_display_name"@)[i])),
            ),
{
    let raw = cookie_values(cookie, "sg_display_name");
    let ghost rv = raw@.map_values(|s: String| s@);
    let mut out: Vec<String> = Vec::new();
    let n = raw.len();
    let mut i: usize = 0;
    while i < n
        invariant
            n == raw@.len(),
            rv == raw@.map_values(|s: String| s@),
            rv == cookie_values_spec(cookie@, "sg_display_name"@),
            i <= n,
            out@.len() == i,
            forall|k: int|
                0 <= k < i ==> (#[trigger] out@[k])@ == utf8_lossy(decode_bytes(encode_utf8(rv[k]))),
        decreases n - i,
    {
        assert(raw@[i as int]@ == rv[i as int]);
        out.push(urlencoding_decode(raw[i].as_str()));
        i = i + 1;
    }
    out
}

/// The characters percent-encoding writes: unreserved ones, `%` and
/// upper-case hex digits.
pub open spec fn url_char(c: char) -> bool {
    let u = c as u32;
    ||| 65 <= u <= 90
    ||| 97 <= u <= 122
    ||| 48 <= u <= 57
    ||| u == 45
    ||| u == 95
    ||| u == 46
    ||| u == 126
    ||| u == 37
}

proof fn lemma_encode_bytes_url_chars(bs: Seq<u8>)
    ensures
        forall|i: int| 0 <= i < encode_bytes(bs).len() ==> url_char(#[trigger] encode_bytes(bs)[i]),
    decreases bs.len(),
{
    if bs.len() > 0 {
        lemma_encode_bytes_url_chars(bs.drop_first());
        let a = encode_byte(bs[0]);
        let r = encode_bytes(bs.drop_first());
        if !unreserved(bs[0]) {
            assert(bs[0] / 16 < 16 && bs[0] % 16 < 16);
        }
        assert forall|i: int| 0 <= i < (a + r).len() implies url_char(#[trigger] (a + r)[i]) by {
            if i < a.len() {
                assert((a + r)[i] == a[i]);
            } else {
                assert((a + r)[i] == r[i - a.len()]);
            }
        }
    }
}

/// Splitting text without the separator from `i` on gives the current
/// piece with the rest of the text.
proof fn lemma_split_without_sep(s: Seq<char>, sep: char, i: int, cur: Seq<char>)
    requires
        0 <= i <= s.len(),
        forall|k: int| i <= k < s.len() ==> #[trigger] s[k] != sep,
    ensures
        split_from(s, sep, i, cur) == seq![cur + s.subrange(i, s.len() as int)],
    decreases s.len() - i,
{
    if i < s.len() {
        lemma_split_without_sep(s, sep, i + 1, cur.push(s[i]));
        assert(cur.push(s[i]) + s.subrange(i + 1, s.len() as int) =~= cur + s.subrange(
            i,
            s.len() as int,
        ));
    } else {
        assert(cur + s.subrange(i, s.len() as int) =~= cur);
    }
}

/// What the display-name cookie gives back: a cookie string holding the
/// stored piece `sg_display_name=<encoded name>` yields exactly the encoded
/// name as the one value, and it percent-decodes to valid UTF-8 that reads
/// as the name.
pub proof fn law_cookie_reads_back_name(name: Seq<char>)
    ensures
        ({
            let enc = encode_bytes(encode_utf8(name));
            &&& cookie_values_spec("sg_display_name="@ + enc, "sg_display_name"@) == seq![enc]
            &&& valid_utf8(decode_bytes(encode_utf8(enc)))
            &&& decode_utf8(decode_bytes(encode_utf8(enc))) == name
        }),
{
    let enc = encode_bytes(encode_utf8(name));
    let key = "sg_display_name"@;
    let jar = "sg_display_name="@ + enc;
    reveal_strlit("sg_display_name=");
    reveal_strlit("sg_display_name");
    lemma_encode_bytes_url_chars(encode_utf8(name));
    assert forall|k: int| 0 <= k < jar.len() implies #[trigger] jar[k] != ';' && !is_ws(jar[k]) by {
        if k >= 16 {
            assert(jar[k] == enc[k - 16]);
            assert(url_char(enc[k - 16]));
        }
    }
    lemma_split_without_sep(jar, ';', 0, seq![]);
    assert(seq![] + jar.subrange(0, jar.len() as int) =~= jar);
    assert(split_on(jar, ';') == seq![jar]);
    assert(trim_start_from(jar, 0) == 0);
    assert(trim_end_from(jar, jar.len() as int) == jar.len());
    assert(trim(jar) =~= jar);
    let p = key.push('=');
    assert(jar.take(p.len() as int) =~= p);
    assert(jar.skip(p.len() as int) =~= enc);
    assert(cookie_value_of(jar, key) == Some(enc));
    assert(seq![jar].drop_last() =~= Seq::<Seq<char>>::empty());
    reveal_with_fuel(Seq::filter_map, 2);
    assert(cookie_values_spec(jar, key) =~= seq![enc]);
    law_url_roundtrip(name);
}

} // verus!

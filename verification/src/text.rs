//! Character-level text helpers with exact specifications: whitespace,
//! trimming, splitting into words and on a separator, lowercasing, and
//! building `String`s out of characters.

use vstd::prelude::*;

verus! {

// ---------------------------------------------------------------------------
// Whitespace
// ---------------------------------------------------------------------------

/// Unicode `White_Space`, the set that `char::is_whitespace` documents.
pub open spec fn is_ws(c: char) -> bool {
    let u = c as u32;
    ||| 9 <= u <= 13
    ||| u == 32
    ||| u == 0x85
    ||| u == 0xA0
    ||| u == 0x1680
    ||| 0x2000 <= u <= 0x200A
    ||| u == 0x2028
    ||| u == 0x2029
    ||| u == 0x202F
    ||| u == 0x205F
    ||| u == 0x3000
}

/// Whether `c` is Unicode whitespace.
pub fn is_whitespace(c: char) -> (r: bool)
    ensures
        r == is_ws(c),
{
    let u = c as u32;
    (9 <= u && u <= 13) || u == 32 || u == 0x85 || u == 0xA0 || u == 0x1680 || (0x2000 <= u && u
        <= 0x200A) || u == 0x2028 || u == 0x2029 || u == 0x202F || u == 0x205F || u == 0x3000
}

// ---------------------------------------------------------------------------
// Words (the tokens of `str::split_whitespace`)
// ---------------------------------------------------------------------------

/// End of the word that starts at `i`: the first index at or after `i` that
/// holds whitespace, or the length.
pub open spec fn word_end(s: Seq<char>, i: int) -> int
    decreases s.len() - i,
{
    if i < 0 || i >= s.len() || is_ws(s[i]) {
        i
    } else {
        word_end(s, i + 1)
    }
}

pub proof fn lemma_word_end_bounds(s: Seq<char>, i: int)
    requires
        0 <= i <= s.len(),
    ensures
        i <= word_end(s, i) <= s.len(),
        forall|k: int| i <= k < word_end(s, i) ==> !is_ws(#[trigger] s[k]),
        word_end(s, i) < s.len() ==> is_ws(s[word_end(s, i)]),
    decreases s.len() - i,
{
    if i < s.len() && !is_ws(s[i]) {
        lemma_word_end_bounds(s, i + 1);
    }
}

/// The whitespace-separated words of `s` from index `i` on.
pub open spec fn words_from(s: Seq<char>, i: int) -> Seq<Seq<char>>
    decreases s.len() - i,
{
    if i < 0 || i >= s.len() {
        seq![]
    } else if is_ws(s[i]) {
        words_from(s, i + 1)
    } else {
        proof {
            lemma_word_end_bounds(s, i + 1);
        }
        seq![s.subrange(i, word_end(s, i))] + words_from(s, word_end(s, i))
    }
}

/// The whitespace-separated words of `s`, in order (what
/// `str::split_whitespace` yields).
pub open spec fn words(s: Seq<char>) -> Seq<Seq<char>> {
    words_from(s, 0)
}

/// Every word is non-empty and holds no whitespace.
pub proof fn lemma_words_from_shape(s: Seq<char>, i: int)
    requires
        0 <= i <= s.len(),
    ensures
        forall|k: int|
            0 <= k < words_from(s, i).len() ==> (#[trigger] words_from(s, i)[k]).len() > 0,
    decreases s.len() - i,
{
    if i < s.len() {
        if is_ws(s[i]) {
            lemma_words_from_shape(s, i + 1);
            assert(words_from(s, i) == words_from(s, i + 1));
        } else {
            lemma_word_end_bounds(s, i + 1);
            lemma_word_end_bounds(s, i);
            lemma_words_from_shape(s, word_end(s, i));
            let w = words_from(s, i);
            assert(w == seq![s.subrange(i, word_end(s, i))] + words_from(s, word_end(s, i)));
            assert(w[0].len() > 0);
            assert forall|k: int| 0 <= k < w.len() implies (#[trigger] w[k]).len() > 0 by {
                if k > 0 {
                    assert(w[k] == words_from(s, word_end(s, i))[k - 1]);
                }
            }
        }
    }
}

/// The views of a vector of character vectors.
pub open spec fn views(v: Seq<Vec<char>>) -> Seq<Seq<char>> {
    v.map_values(|w: Vec<char>| w@)
}

/// The whitespace-separated words of `s`.
pub fn split_words(s: &Vec<char>) -> (out: Vec<Vec<char>>)
    ensures
        views(out@) == words(s@),
{
    let n = s.len();
    let mut out: Vec<Vec<char>> = Vec::new();
    let mut i: usize = 0;
    while i < n
        invariant
            n == s@.len(),
            0 <= i <= n,
            words(s@) == views(out@) + words_from(s@, i as int),
        decreases n - i,
    {
        if is_whitespace(s[i]) {
            i = i + 1;
        } else {
            let mut j: usize = i;
            let mut w: Vec<char> = Vec::new();
            while j < n && !is_whitespace(s[j])
                invariant
                    n == s@.len(),
                    i <= j <= n,
                    word_end(s@, i as int) == word_end(s@, j as int),
                    w@ == s@.subrange(i as int, j as int),
                decreases n - j,
            {
                w.push(s[j]);
                j = j + 1;
            }
            proof {
                lemma_word_end_bounds(s@, i as int + 1);
                assert(word_end(s@, j as int) == j);
                let ghost old_out = views(out@);
                assert(views(out@.push(w)) == old_out.push(w@));
                assert(words_from(s@, i as int) == seq![w@] + words_from(s@, j as int));
                assert(old_out + words_from(s@, i as int) == old_out.push(w@) + words_from(
                    s@,
                    j as int,
                ));
            }
            out.push(w);
            i = j;
        }
    }
    out
}

// ---------------------------------------------------------------------------
// Trimming (`str::trim`)
// ---------------------------------------------------------------------------

/// First index at or after `i` that is not whitespace, or the length.
pub open spec fn trim_start_from(s: Seq<char>, i: int) -> int
    decreases s.len() - i,
{
    if 0 <= i < s.len() && is_ws(s[i]) {
        trim_start_from(s, i + 1)
    } else {
        i
    }
}

/// One past the last index before `j` that is not whitespace, or 0.
pub open spec fn trim_end_from(s: Seq<char>, j: int) -> int
    decreases j,
{
    if 0 < j <= s.len() && is_ws(s[j - 1]) {
        trim_end_from(s, j - 1)
    } else {
        j
    }
}

/// `s` without leading and trailing whitespace.
pub open spec fn trim(s: Seq<char>) -> Seq<char> {
    let a = trim_start_from(s, 0);
    let b = trim_end_from(s, s.len() as int);
    if b <= a {
        seq![]
    } else {
        s.subrange(a, b)
    }
}

proof fn lemma_trim_start_bounds(s: Seq<char>, i: int)
    requires
        0 <= i <= s.len(),
    ensures
        i <= trim_start_from(s, i) <= s.len(),
        forall|k: int| i <= k < trim_start_from(s, i) ==> is_ws(#[trigger] s[k]),
    decreases s.len() - i,
{
    if i < s.len() && is_ws(s[i]) {
        lemma_trim_start_bounds(s, i + 1);
    }
}

proof fn lemma_trim_end_bounds(s: Seq<char>, j: int)
    requires
        0 <= j <= s.len(),
    ensures
        0 <= trim_end_from(s, j) <= j,
        forall|k: int| trim_end_from(s, j) <= k < j ==> is_ws(#[trigger] s[k]),
    decreases j,
{
    if j > 0 && is_ws(s[j - 1]) {
        lemma_trim_end_bounds(s, j - 1);
    }
}

/// `s` without leading and trailing whitespace.
pub fn trim_chars(s: &Vec<char>) -> (r: Vec<char>)
    ensures
        r@ == trim(s@),
{
    let n = s.len();
    let mut a: usize = 0;
    while a < n && is_whitespace(s[a])
        invariant
            n == s@.len(),
            a <= n,
            trim_start_from(s@, 0) == trim_start_from(s@, a as int),
        decreases n - a,
    {
        a = a + 1;
    }
    let mut b: usize = n;
    while b > 0 && is_whitespace(s[b - 1])
        invariant
            n == s@.len(),
            b <= n,
            trim_end_from(s@, n as int) == trim_end_from(s@, b as int),
        decreases b,
    {
        b = b - 1;
    }
    let mut r: Vec<char> = Vec::new();
    if a < b {
        let mut k: usize = a;
        while k < b
            invariant
                n == s@.len(),
                a <= k <= b <= n,
                r@ == s@.subrange(a as int, k as int),
            decreases b - k,
        {
            r.push(s[k]);
            k = k + 1;
        }
    }
    proof {
        assert(trim_start_from(s@, a as int) == a);
        assert(trim_end_from(s@, b as int) == b);
        if !(a < b) {
            assert(r@ == Seq::<char>::empty());
        }
    }
    r
}

// ---------------------------------------------------------------------------
// Splitting on a separator (`str::split`)
// ---------------------------------------------------------------------------

/// The pieces of `s` between occurrences of `sep`, starting with the piece
/// that begins at `start`; `cur` holds the characters of the current piece
/// seen before index `i`.
pub open spec fn split_from(s: Seq<char>, sep: char, i: int, cur: Seq<char>) -> Seq<Seq<char>>
    decreases s.len() - i,
{
    if i < 0 || i >= s.len() {
        seq![cur]
    } else if s[i] == sep {
        seq![cur] + split_from(s, sep, i + 1, seq![])
    } else {
        split_from(s, sep, i + 1, cur.push(s[i]))
    }
}

/// The pieces of `s` between occurrences of `sep` (what `str::split` yields
/// for a character pattern): one more piece than there are separators.
pub open spec fn split_on(s: Seq<char>, sep: char) -> Seq<Seq<char>> {
    split_from(s, sep, 0, seq![])
}

/// The pieces of `s` between occurrences of `sep`.
pub fn split_chars(s: &Vec<char>, sep: char) -> (out: Vec<Vec<char>>)
    ensures
        views(out@) == split_on(s@, sep),
{
    let n = s.len();
    let mut out: Vec<Vec<char>> = Vec::new();
    let mut cur: Vec<char> = Vec::new();
    let mut i: usize = 0;
    while i < n
        invariant
            n == s@.len(),
            0 <= i <= n,
            split_on(s@, sep) == views(out@) + split_from(s@, sep, i as int, cur@),
        decreases n - i,
    {
        if s[i] == sep {
            proof {
                let ghost o = views(out@);
                assert(views(out@.push(cur)) == o.push(cur@));
                assert(o + split_from(s@, sep, i as int, cur@) == o.push(cur@) + split_from(
                    s@,
                    sep,
                    i + 1,
                    seq![],
                ));
            }
            out.push(cur);
            cur = Vec::new();
        } else {
            cur.push(s[i]);
        }
        i = i + 1;
    }
    proof {
        let ghost o = views(out@);
        assert(views(out@.push(cur)) == o.push(cur@));
    }
    out.push(cur);
    out
}

// ---------------------------------------------------------------------------
// ASCII lowercase (`str::to_ascii_lowercase`)
// ---------------------------------------------------------------------------

pub open spec fn lower_char(c: char) -> char {
    if 'A' <= c <= 'Z' {
        ((c as u32) + 32) as char
    } else {
        c
    }
}

pub open spec fn ascii_lower(s: Seq<char>) -> Seq<char> {
    s.map_values(|c: char| lower_char(c))
}

/// `s` with ASCII capitals turned to lowercase; other characters unchanged.
pub fn to_ascii_lower(s: &Vec<char>) -> (r: Vec<char>)
    ensures
        r@ == ascii_lower(s@),
{
    let mut r: Vec<char> = Vec::new();
    let n = s.len();
    let mut i: usize = 0;
    while i < n
        invariant
            n == s@.len(),
            i <= n,
            r@ == ascii_lower(s@.take(i as int)),
        decreases n - i,
    {
        let c = s[i];
        let d = if 'A' <= c && c <= 'Z' {
            let u = c as u32 + 32;
            assert(0x61 <= u <= 0x7A);
            char_from_ascii(u)
        } else {
            c
        };
        r.push(d);
        assert(s@.take(i + 1) == s@.take(i as int).push(c));
        i = i + 1;
    }
    assert(s@.take(n as int) == s@);
    r
}

/// The character with an ASCII code point.
fn char_from_ascii(u: u32) -> (c: char)
    requires
        u < 128,
    ensures
        c == u as char,
        c as u32 == u,
{
    let b = u as u8;
    b as char
}

// ---------------------------------------------------------------------------
// Building strings
// ---------------------------------------------------------------------------

/// Appends one character to a `String` (std `String::push`, which the std
/// documentation states appends the given char to the end of the string).
#[verifier::external_body]
pub(crate) fn push_char(s: &mut String, c: char)
    ensures
        final(s)@ == old(s)@.push(c),
{
    s.push(c);
}

/// The characters of `s`, in order.
pub fn chars_of(s: &str) -> (v: Vec<char>)
    ensures
        v@ == s@,
{
    let mut v: Vec<char> = Vec::new();
    for c in it: s.chars()
        invariant
            it.seq() == s@,
            v@ == s@.take(it.index() as int),
    {
        v.push(c);
    }
    v
}

/// Appends the characters of `v` to `s`.
pub fn push_chars(s: &mut String, v: &Vec<char>)
    ensures
        final(s)@ == old(s)@ + v@,
{
    let n = v.len();
    let mut i: usize = 0;
    while i < n
        invariant
            n == v@.len(),
            i <= n,
            s@ == old(s)@ + v@.take(i as int),
        decreases n - i,
    {
        push_char(s, v[i]);
        assert(v@.take(i + 1) == v@.take(i as int).push(v@[i as int]));
        i = i + 1;
    }
    assert(v@.take(n as int) == v@);
}

/// Appends `t` to `s`.
pub fn push_str(s: &mut String, t: &str)
    ensures
        final(s)@ == old(s)@ + t@,
{
    let v = chars_of(t);
    push_chars(s, &v);
}

/// A `String` holding the characters of `v`.
pub fn string_of(v: &Vec<char>) -> (s: String)
    ensures
        s@ == v@,
{
    let mut s = String::new();
    push_chars(&mut s, v);
    s
}

/// A `String` holding the characters of `t`.
pub fn string_from(t: &str) -> (s: String)
    ensures
        s@ == t@,
{
    let mut s = String::new();
    push_str(&mut s, t);
    s
}

/// Whether two character vectors are equal.
pub fn chars_eq(a: &Vec<char>, b: &Vec<char>) -> (r: bool)
    ensures
        r == (a@ == b@),
{
    if a.len() != b.len() {
        return false;
    }
    let n = a.len();
    let mut i: usize = 0;
    while i < n
        invariant
            n == a@.len() == b@.len(),
            i <= n,
            forall|k: int| 0 <= k < i ==> a@[k] == b@[k],
        decreases n - i,
    {
        if a[i] != b[i] {
            return false;
        }
        i = i + 1;
    }
    assert(a@ =~= b@);
    true
}

/// Whether the characters `a` spell `t`.
pub fn chars_eq_str(a: &Vec<char>, t: &str) -> (r: bool)
    ensures
        r == (a@ == t@),
{
    let b = chars_of(t);
    chars_eq(a, &b)
}

/// Whether `p` is a prefix of `a`.
pub fn chars_starts_with(a: &Vec<char>, p: &str) -> (r: bool)
    ensures
        r == (p@.len() <= a@.len() && a@.take(p@.len() as int) == p@),
{
    let b = chars_of(p);
    if b.len() > a.len() {
        return false;
    }
    let n = b.len();
    let mut i: usize = 0;
    while i < n
        invariant
            n == b@.len() <= a@.len(),
            b@ == p@,
            i <= n,
            forall|k: int| 0 <= k < i ==> a@[k] == b@[k],
        decreases n - i,
    {
        if a[i] != b[i] {
            assert(a@.take(n as int) != p@) by {
                if a@.take(n as int) == p@ {
                    assert(a@.take(n as int)[i as int] == p@[i as int]);
                }
            }
            return false;
        }
        i = i + 1;
    }
    assert(a@.take(n as int) =~= b@);
    true
}

/// The characters of `a` from index `k` on.
pub fn chars_skip(a: &Vec<char>, k: usize) -> (r: Vec<char>)
    requires
        k <= a@.len(),
    ensures
        r@ == a@.skip(k as int),
{
    let mut r: Vec<char> = Vec::new();
    let n = a.len();
    let mut i: usize = k;
    while i < n
        invariant
            n == a@.len(),
            k <= i <= n,
            r@ == a@.subrange(k as int, i as int),
        decreases n - i,
    {
        r.push(a[i]);
        i = i + 1;
    }
    r
}

// ---------------------------------------------------------------------------
// Decimal text
// ---------------------------------------------------------------------------

/// The decimal digit for `d < 10`.
pub open spec fn dec_digit(d: nat) -> char {
    ((48 + d) as u8) as char
}

/// Decimal notation of `n`, without leading zeros.
pub open spec fn decimal(n: nat) -> Seq<char>
    decreases n,
{
    if n < 10 {
        seq![dec_digit(n)]
    } else {
        decimal(n / 10).push(dec_digit(n % 10))
    }
}

/// Appends the decimal notation of `n`.
pub fn push_decimal(s: &mut String, n: u64)
    ensures
        final(s)@ == old(s)@ + decimal(n as nat),
    decreases n,
{
    if n >= 10 {
        push_decimal(s, n / 10);
    }
    let d = (n % 10) as u8;
    push_char(s, (48 + d) as char);
    proof {
        if n >= 10 {
            assert(old(s)@ + decimal(n as nat) == old(s)@ + decimal((n / 10) as nat) + seq![
                dec_digit((n % 10) as nat),
            ]);
        }
    }
}

} // verus!

//! Character-level string primitives shared by the rest of the library.
//!
//! Strings are modelled by their `Seq<char>` views; byte offsets go through
//! vstd's UTF-8 model (`spec_bytes`, `is_char_boundary`). The few std string
//! operations the library relies on are wrapped here, each with the
//! contract its documentation gives.

use vstd::prelude::*;
use vstd::string::*;
use vstd::utf8::*;

verus! {

/// Whether a character has the Unicode `White_Space` property: the 25
/// code points U+0009–U+000D, U+0020, U+0085, U+00A0, U+1680,
/// U+2000–U+200A, U+2028, U+2029, U+202F, U+205F and U+3000.
pub open spec fn is_white_space(c: char) -> bool {
    ('\u{9}' <= c && c <= '\u{d}') || c == ' ' || c == '\u{85}' || c == '\u{a0}' || c == '\u{1680}' || (
    '\u{2000}' <= c && c <= '\u{200a}') || c == '\u{2028}' || c == '\u{2029}' || c == '\u{202f}' || c
        == '\u{205f}' || c == '\u{3000}'
}

/// Whether a character is alphabetic or numeric in Unicode's sense.
pub uninterp spec fn is_alphanumeric(c: char) -> bool;

/// The Unicode lowercase mapping of a whole string, as `str::to_lowercase`
/// computes it (context-sensitive for final sigma, so not stated per char).
pub uninterp spec fn lowercase(s: Seq<char>) -> Seq<char>;

/// Whether a character is white space (`char::is_whitespace`).
pub fn char_is_whitespace(c: char) -> (r: bool)
    ensures
        r == is_white_space(c),
{
    ('\u{9}' <= c && c <= '\u{d}') || c == ' ' || c == '\u{85}' || c == '\u{a0}' || c == '\u{1680}' || (
    '\u{2000}' <= c && c <= '\u{200a}') || c == '\u{2028}' || c == '\u{2029}' || c == '\u{202f}' || c
        == '\u{205f}' || c == '\u{3000}'
}

/// Calls `char::is_alphanumeric`: true for alphabetic or numeric characters.
#[verifier::external_body]
pub(crate) fn char_is_alphanumeric(c: char) -> (r: bool)
    ensures
        r == is_alphanumeric(c),
{
    c.is_alphanumeric()
}

/// Calls `str::to_lowercase`; the result is named by `lowercase`.
#[verifier::external_body]
pub(crate) fn str_to_lowercase(s: &str) -> (r: String)
    ensures
        r@ == lowercase(s@),
{
    s.to_lowercase()
}

/// `s` without its leading `White_Space` characters.
pub open spec fn trim_start_ws(s: Seq<char>) -> Seq<char>
    decreases s.len(),
{
    if s.len() > 0 && is_white_space(s[0]) {
        trim_start_ws(s.drop_first())
    } else {
        s
    }
}

/// `s` without its trailing `White_Space` characters.
pub open spec fn trim_end_ws(s: Seq<char>) -> Seq<char>
    decreases s.len(),
{
    if s.len() > 0 && is_white_space(s.last()) {
        trim_end_ws(s.drop_last())
    } else {
        s
    }
}

/// `s` without leading and trailing `White_Space` characters.
pub open spec fn trim_ws(s: Seq<char>) -> Seq<char> {
    trim_end_ws(trim_start_ws(s))
}

/// Calls `str::trim`: the slice with leading and trailing whitespace
/// (the `White_Space` property) removed.
#[verifier::external_body]
pub(crate) fn str_trim(s: &str) -> (r: &str)
    ensures
        r@ == trim_ws(s@),
{
    s.trim()
}

/// Whether two string slices hold the same characters.
pub(crate) fn str_eq(a: &str, b: &str) -> (r: bool)
    ensures
        r == (a@ == b@),
{
    let x = chars_of(a);
    let y = chars_of(b);
    if x.len() != y.len() {
        return false;
    }
    let mut i: usize = 0;
    while i < x.len()
        invariant
            x@ == a@,
            y@ == b@,
            x@.len() == y@.len(),
            i <= x@.len(),
            forall|j: int| 0 <= j < i ==> x@[j] == y@[j],
        decreases x.len() - i,
    {
        if x[i] != y[i] {
            return false;
        }
        i = i + 1;
    }
    assert(a@ =~= b@);
    true
}

/// Calls `String::push`: appends one character.
#[verifier::external_body]
pub(crate) fn string_push(buf: &mut String, c: char)
    ensures
        final(buf)@ == old(buf)@.push(c),
{
    buf.push(c);
}

/// The decimal digit character for `d < 10`.
pub open spec fn digit_char(d: nat) -> char {
    (('0' as u32) + d) as char
}

/// The decimal rendering of a natural number, most significant digit first.
pub open spec fn decimal(n: nat) -> Seq<char>
    decreases n,
{
    if n < 10 {
        seq![digit_char(n)]
    } else {
        decimal(n / 10).push(digit_char(n % 10))
    }
}

/// The digit character of `d`.
fn digit(d: u64) -> (c: char)
    requires
        d < 10,
    ensures
        c == digit_char(d as nat),
{
    match d {
        0 => '0',
        1 => '1',
        2 => '2',
        3 => '3',
        4 => '4',
        5 => '5',
        6 => '6',
        7 => '7',
        8 => '8',
        _ => '9',
    }
}

/// Appends the decimal rendering of `n`.
pub(crate) fn push_decimal(buf: &mut String, n: u64)
    ensures
        final(buf)@ == old(buf)@ + decimal(n as nat),
    decreases n,
{
    if n < 10 {
        string_push(buf, digit(n));
        assert(old(buf)@.push(digit_char(n as nat)) =~= old(buf)@ + decimal(n as nat));
    } else {
        push_decimal(buf, n / 10);
        string_push(buf, digit(n % 10));
        assert(old(buf)@ + decimal((n / 10) as nat) + seq![digit_char((n % 10) as nat)] =~= old(buf)@ + decimal(
            n as nat,
        ));
    }
}

/// The decimal rendering of `n`, with no sign, padding or separators.
pub(crate) fn usize_to_string(n: usize) -> (s: String)
    ensures
        s@ == decimal(n as nat),
{
    let mut s = String::new();
    push_decimal(&mut s, n as u64);
    assert(Seq::<char>::empty() + decimal(n as nat) =~= decimal(n as nat));
    s
}

/// A `String` holding the characters of `s`.
pub fn owned(s: &str) -> (r: String)
    ensures
        r@ == s@,
{
    String::from_str(s)
}

/// The concatenation of two strings.
pub fn concat2(a: &str, b: &str) -> (r: String)
    ensures
        r@ == a@ + b@,
{
    let mut r = String::from_str(a);
    r.append(b);
    r
}

/// The concatenation of three strings.
pub fn concat3(a: &str, b: &str, c: &str) -> (r: String)
    ensures
        r@ == a@ + b@ + c@,
{
    let mut r = String::from_str(a);
    r.append(b);
    r.append(c);
    r
}

/// Copies the characters of `s` into a vector.
pub fn chars_of(s: &str) -> (v: Vec<char>)
    ensures
        v@ == s@,
{
    let mut v: Vec<char> = Vec::new();
    for c in it: s.chars()
        invariant
            v@ == it.seq().take(it.index() as int),
    {
        v.push(c);
    }
    v
}

/// A `String` holding the characters `v[from..to]`.
pub fn string_from_chars(v: &Vec<char>, from: usize, to: usize) -> (s: String)
    requires
        from <= to <= v@.len(),
    ensures
        s@ == v@.subrange(from as int, to as int),
{
    let mut s = String::new();
    let mut i = from;
    while i < to
        invariant
            from <= i <= to <= v@.len(),
            s@ == v@.subrange(from as int, i as int),
        decreases to - i,
    {
        string_push(&mut s, v[i]);
        proof {
            assert(v@.subrange(from as int, i as int + 1) =~= v@.subrange(from as int, i as int).push(
                v@[i as int],
            ));
        }
        i = i + 1;
    }
    s
}

/// Whether the characters of `needle` occur in `hay` starting at `at`.
pub open spec fn occurs_at(hay: Seq<char>, needle: Seq<char>, at: int) -> bool {
    0 <= at && at + needle.len() <= hay.len() && hay.subrange(at, at + needle.len()) == needle
}

/// Whether `v[at..]` starts with `needle`.
pub fn chars_occur_at(v: &Vec<char>, needle: &Vec<char>, at: usize) -> (r: bool)
    ensures
        r == occurs_at(v@, needle@, at as int),
{
    if at > v.len() || needle.len() > v.len() - at {
        return false;
    }
    let mut k: usize = 0;
    while k < needle.len()
        invariant
            at + needle@.len() <= v@.len(),
            v@.len() <= usize::MAX,
            k <= needle@.len(),
            forall|j: int| 0 <= j < k ==> v@[at + j] == needle@[j],
        decreases needle.len() - k,
    {
        if v[at + k] != needle[k] {
            proof {
                assert(v@.subrange(at as int, at + needle@.len())[k as int] != needle@[k as int]);
            }
            return false;
        }
        k = k + 1;
    }
    proof {
        assert(v@.subrange(at as int, at + needle@.len()) =~= needle@);
    }
    true
}

} // verus!

verus! {

/// The UTF-8 byte length of `s`.
pub fn byte_len(s: &str) -> (n: usize)
    ensures
        n == s.spec_bytes().len(),
        n == s.len(),
{
    let b = s.as_bytes();
    b.len()
}

} // verus!

verus! {

/// The characters encoded by the bytes `a..b` of the UTF-8 encoding of `s`.
pub open spec fn piece(s: Seq<char>, a: int, b: int) -> Seq<char> {
    decode_utf8(encode_utf8(s).subrange(a, b))
}

/// A character boundary of a valid UTF-8 sequence stays one, shifted,
/// in the suffix that starts at another boundary before it.
pub proof fn lemma_boundary_in_suffix(bytes: Seq<u8>, a: int, b: int)
    requires
        valid_utf8(bytes),
        0 <= a <= b <= bytes.len(),
        is_char_boundary(bytes, a),
        is_char_boundary(bytes, b),
    ensures
        valid_utf8(bytes.subrange(a, bytes.len() as int)),
        is_char_boundary(bytes.subrange(a, bytes.len() as int), b - a),
{
    broadcast use valid_utf8_split, is_char_boundary_start_end_of_seq,
        is_char_boundary_iff_not_is_continuation_byte;

    let rest = bytes.subrange(a, bytes.len() as int);
    assert(valid_utf8(rest));
    if b < bytes.len() {
        assert(rest[b - a] == bytes[b]);
        assert(is_char_boundary(bytes, b) <==> !is_continuation_byte(bytes[b]));
        assert(is_char_boundary(rest, b - a) <==> !is_continuation_byte(rest[b - a]));
    } else {
        assert(rest.len() == b - a);
        assert(is_char_boundary(rest, rest.len() as int));
    }
}

/// The sub-slice of `s` between two character boundaries `a <= b` (byte offsets).
pub fn slice_bytes(s: &str, a: usize, b: usize) -> (r: &str)
    requires
        a <= b <= s.spec_bytes().len(),
        is_char_boundary(s.spec_bytes(), a as int),
        is_char_boundary(s.spec_bytes(), b as int),
    ensures
        r.spec_bytes() == s.spec_bytes().subrange(a as int, b as int),
        r@ == piece(s@, a as int, b as int),
{
    broadcast use encode_utf8_valid_utf8, encode_utf8_decode_utf8;

    proof {
        lemma_boundary_in_suffix(s.spec_bytes(), a as int, b as int);
    }
    let (_, rest) = s.split_at(a);
    let (mid, _) = rest.split_at(b - a);
    proof {
        assert(mid.spec_bytes() =~= s.spec_bytes().subrange(a as int, b as int));
        assert(decode_utf8(encode_utf8(mid@)) == mid@);
    }
    mid
}

} // verus!

verus! {

/// The end of the run of non-whitespace characters starting at `i`.
pub open spec fn word_end(s: Seq<char>, i: int) -> int
    decreases s.len() - i,
{
    if 0 <= i < s.len() && !is_white_space(s[i]) {
        word_end(s, i + 1)
    } else {
        i
    }
}

/// The whitespace-separated words of `s[i..]`, in order (`str::split_whitespace`).
pub open spec fn words_from(s: Seq<char>, i: int) -> Seq<Seq<char>>
    decreases s.len() - i, 1int,
{
    if i < 0 || i >= s.len() {
        seq![]
    } else if is_white_space(s[i]) {
        words_from(s, i + 1)
    } else {
        let j = word_end(s, i);
        if i < j <= s.len() {
            seq![s.subrange(i, j)] + words_from(s, j)
        } else {
            seq![]
        }
    }
}

/// The whitespace-separated words of `s`.
pub open spec fn words(s: Seq<char>) -> Seq<Seq<char>> {
    words_from(s, 0)
}

/// The first whitespace-separated word of `s`, if any.
pub open spec fn first_word(s: Seq<char>) -> Option<Seq<char>> {
    if words(s).len() > 0 { Some(words(s)[0]) } else { None }
}

proof fn lemma_word_end(s: Seq<char>, i: int)
    requires
        0 <= i <= s.len(),
    ensures
        i <= word_end(s, i) <= s.len(),
        forall|k: int| i <= k < word_end(s, i) ==> !is_white_space(s[k]),
        word_end(s, i) < s.len() ==> is_white_space(s[word_end(s, i)]),
    decreases s.len() - i,
{
    if i < s.len() && !is_white_space(s[i]) {
        lemma_word_end(s, i + 1);
    }
}

/// The whitespace-separated words of `s`, each as a `String`.
pub fn split_words(s: &str) -> (r: Vec<String>)
    ensures
        r@.len() == words(s@).len(),
        forall|k: int| 0 <= k < r@.len() ==> #[trigger] r@[k]@ == words(s@)[k],
{
    let v = chars_of(s);
    let n = v.len();
    let mut out: Vec<String> = Vec::new();
    let ghost mut done: Seq<Seq<char>> = seq![];
    let mut i: usize = 0;
    while i < n
        invariant
            i <= n == v@.len(),
            v@ == s@,
            out@.len() == done.len(),
            forall|k: int| 0 <= k < out@.len() ==> #[trigger] out@[k]@ == done[k],
            done + words_from(s@, i as int) == words(s@),
        decreases n - i,
    {
        if char_is_whitespace(v[i]) {
            i = i + 1;
        } else {
            let start = i;
            proof {
                lemma_word_end(s@, i as int);
            }
            while i < n && !char_is_whitespace(v[i])
                invariant
                    start <= i <= n == v@.len(),
                    v@ == s@,
                    word_end(s@, start as int) == word_end(s@, i as int),
                decreases n - i,
            {
                i = i + 1;
            }
            let w = string_from_chars(&v, start, i);
            proof {
                assert(word_end(s@, i as int) == i);
                assert(words_from(s@, start as int) == seq![s@.subrange(start as int, i as int)]
                    + words_from(s@, i as int));
                done = done.push(w@);
                assert(done + words_from(s@, i as int) =~= words(s@));
            }
            out.push(w);
        }
    }
    proof {
        assert(words_from(s@, i as int) =~= Seq::<Seq<char>>::empty());
        assert(done =~= words(s@));
    }
    out
}

/// Whether `s` starts with `prefix`.
pub open spec fn starts_with(s: Seq<char>, prefix: Seq<char>) -> bool {
    prefix.len() <= s.len() && s.subrange(0, prefix.len() as int) == prefix
}

/// Whether the characters of `s` start with those of `prefix`.
pub fn str_starts_with(s: &str, prefix: &str) -> (r: bool)
    ensures
        r == starts_with(s@, prefix@),
{
    let v = chars_of(s);
    let p = chars_of(prefix);
    chars_occur_at(&v, &p, 0)
}

} // verus!

verus! {

/// Whether `needle` occurs in `hay` at byte offset `b`.
pub open spec fn byte_occurs_at(hay: Seq<u8>, needle: Seq<u8>, b: int) -> bool {
    0 <= b && b + needle.len() <= hay.len() && hay.subrange(b, b + needle.len()) == needle
}

/// The byte offset of the first occurrence of `needle` in `hay`.
#[verifier::opaque]
pub open spec fn first_byte_occurrence(hay: Seq<u8>, needle: Seq<u8>) -> Option<int> {
    if exists|b: int| byte_occurs_at(hay, needle, b) {
        Some(choose|b: int| byte_occurs_at(hay, needle, b) && forall|c: int| 0 <= c < b ==> !byte_occurs_at(hay, needle, c))
    } else {
        None
    }
}

/// Calls `str::find` with a string pattern: the byte index of the first
/// occurrence of `needle` in `hay`, if any.
#[verifier::external_body]
pub(crate) fn str_find(hay: &str, needle: &str) -> (r: Option<usize>)
    ensures
        r matches Some(b) ==> first_byte_occurrence(hay.spec_bytes(), needle.spec_bytes()) == Some(b as int),
        r is None ==> first_byte_occurrence(hay.spec_bytes(), needle.spec_bytes()) is None,
{
    hay.find(needle)
}

/// The suffix of a string from a character boundary re-encodes to the
/// byte suffix.
pub proof fn lemma_piece_suffix(s: Seq<char>, e: int)
    requires
        0 <= e <= encode_utf8(s).len(),
        is_char_boundary(encode_utf8(s), e),
    ensures
        encode_utf8(piece(s, e, encode_utf8(s).len() as int)) == encode_utf8(s).subrange(e, encode_utf8(s).len() as int),
{
    broadcast use encode_utf8_valid_utf8, valid_utf8_split, decode_utf8_encode_utf8;

    let bytes = encode_utf8(s);
    assert(valid_utf8(bytes));
    assert(valid_utf8(bytes.subrange(e, bytes.len() as int)));
}

} // verus!

verus! {

/// The elements of `s` joined by `sep`.
pub open spec fn join_with(s: Seq<Seq<char>>, sep: Seq<char>) -> Seq<char>
    decreases s.len(),
{
    if s.len() == 0 {
        seq![]
    } else if s.len() == 1 {
        s[0]
    } else {
        join_with(s.drop_last(), sep) + sep + s.last()
    }
}

/// The views of a list of strings.
pub open spec fn string_views(v: Seq<String>) -> Seq<Seq<char>> {
    Seq::new(v.len(), |i: int| v[i]@)
}

/// The elements of `v` joined by `sep`.
pub fn join_strings(v: &[String], sep: &str) -> (r: String)
    ensures
        r@ == join_with(string_views(v@), sep@),
{
    let mut out = String::new();
    let mut k: usize = 0;
    while k < v.len()
        invariant
            k <= v@.len(),
            out@ == join_with(string_views(v@).take(k as int), sep@),
        decreases v.len() - k,
    {
        proof {
            assert(string_views(v@).take(k as int + 1).drop_last() =~= string_views(v@).take(k as int));
            if k == 0 {
                assert(string_views(v@).take(1) =~= seq![v@[0]@]);
            }
        }
        if k > 0 {
            out.append(sep);
        }
        out.append(v[k].as_str());
        k = k + 1;
    }
    assert(string_views(v@).take(v@.len() as int) =~= string_views(v@));
    out
}

} // verus!

//! Record identifiers: the `table:key` strings the database hands back, and
//! the keys the library derives from display names.

use vstd::prelude::*;

use crate::text::{chars_of, char_is_alphanumeric, is_alphanumeric, string_from_chars, string_push};

verus! {

/// Removes `\` escapes: `\x` stands for `x`, and a lone trailing `\` is dropped.
pub open spec fn unescape_chars(s: Seq<char>) -> Seq<char>
    decreases s.len(),
{
    if s.len() == 0 {
        seq![]
    } else if s[0] == '\\' {
        if s.len() >= 2 {
            seq![s[1]] + unescape_chars(s.subrange(2, s.len() as int))
        } else {
            seq![]
        }
    } else {
        seq![s[0]] + unescape_chars(s.drop_first())
    }
}

/// Whether a raw key is wrapped in backticks (at least two characters,
/// starting and ending with a backtick).
pub open spec fn is_backtick_quoted(raw: Seq<char>) -> bool {
    raw.len() >= 2 && raw[0] == '`' && raw.last() == '`'
}

/// The key a raw record key stands for: a backtick-quoted key is unquoted
/// and unescaped, anything else is taken as it is.
pub open spec fn unescaped_key(raw: Seq<char>) -> Seq<char> {
    if is_backtick_quoted(raw) {
        unescape_chars(raw.subrange(1, raw.len() - 1))
    } else {
        raw
    }
}

/// Strips SurrealQL backtick-quoting from a record key, if present, and
/// unescapes any `` \` `` / `\\` sequences within. Any key containing a
/// character other than alphanumerics and `_` (every UUID, for one) comes
/// back quoted from the database's rendering of record ids.
pub fn unescape_record_key(raw: &str) -> (r: String)
    ensures
        r@ == unescaped_key(raw@),
{
    let v = chars_of(raw);
    let n = v.len();
    if !(n >= 2 && v[0] == '`' && v[n - 1] == '`') {
        return string_from_chars(&v, 0, n);
    }
    let end = n - 1;
    let ghost inner = v@.subrange(1, end as int);
    let mut out = String::new();
    let mut i: usize = 1;
    while i < end
        invariant
            1 <= i <= end + 1,
            end + 1 == n == v@.len(),
            inner == v@.subrange(1, end as int),
            i <= end ==> out@ + unescape_chars(v@.subrange(i as int, end as int)) == unescape_chars(inner),
            i > end ==> out@ == unescape_chars(inner),
        decreases end + 1 - i,
    {
        let ghost rest = v@.subrange(i as int, end as int);
        let c = v[i];
        if c == '\\' {
            if i + 1 < end {
                string_push(&mut out, v[i + 1]);
                proof {
                    assert(rest.subrange(2, rest.len() as int) =~= v@.subrange(i + 2, end as int));
                    assert(out@ + unescape_chars(v@.subrange(i + 2, end as int)) =~= unescape_chars(inner));
                }
                i = i + 2;
            } else {
                proof {
                    assert(unescape_chars(rest) =~= Seq::<char>::empty());
                    assert(out@ =~= unescape_chars(inner));
                }
                i = end + 1;
            }
        } else {
            string_push(&mut out, c);
            proof {
                assert(rest.drop_first() =~= v@.subrange(i + 1, end as int));
            }
            i = i + 1;
        }
    }
    proof {
        if i == end {
            assert(v@.subrange(i as int, end as int) =~= Seq::<char>::empty());
        }
    }
    out
}

/// The position of the first `sep` in `v`.
pub fn find_char(v: &Vec<char>, sep: char) -> (r: Option<usize>)
    ensures
        match r {
            Some(i) => i < v@.len() && v@[i as int] == sep && forall|j: int| 0 <= j < i ==> v@[j] != sep,
            None => forall|j: int| 0 <= j < v@.len() ==> v@[j] != sep,
        },
{
    let mut i: usize = 0;
    while i < v.len()
        invariant
            i <= v@.len(),
            forall|j: int| 0 <= j < i ==> v@[j] != sep,
        decreases v.len() - i,
    {
        if v[i] == sep {
            return Some(i);
        }
        i = i + 1;
    }
    None
}

/// Splits a `"table:key"` string at its first `:` into the table name and
/// the unescaped key (see `unescape_record_key`); `None` without a `:`.
pub fn parse_record_id(s: &str) -> (r: Option<(String, String)>)
    ensures
        match r {
            Some((table, key)) => exists|i: int|
                0 <= i < s@.len() && s@[i] == ':' && (forall|j: int| 0 <= j < i ==> s@[j] != ':')
                    && table@ == s@.subrange(0, i) && key@ == unescaped_key(
                    s@.subrange(i + 1, s@.len() as int),
                ),
            None => forall|j: int| 0 <= j < s@.len() ==> s@[j] != ':',
        },
{
    let v = chars_of(s);
    let n = v.len();
    match find_char(&v, ':') {
        Some(i) => {
            let table = string_from_chars(&v, 0, i);
            let raw_key = string_from_chars(&v, i + 1, n);
            let key = unescape_record_key(raw_key.as_str());
            Some((table, key))
        },
        None => None,
    }
}

/// ASCII lowercase of one character (`char::to_ascii_lowercase`): `A`–`Z`
/// map to `a`–`z`, everything else is unchanged.
pub open spec fn ascii_lower(c: char) -> char {
    if 'A' <= c && c <= 'Z' {
        ((c as u32) + 32) as char
    } else {
        c
    }
}

/// `char::to_ascii_lowercase`.
pub fn to_ascii_lower(c: char) -> (r: char)
    ensures
        r == ascii_lower(c),
{
    if 'A' <= c && c <= 'Z' {
        ((c as u8) + 32) as char
    } else {
        c
    }
}

/// The record-id fragment for a display name: alphanumerics lowercased
/// (ASCII only), everything else replaced by `_`.
pub open spec fn sanitized(name: Seq<char>) -> Seq<char> {
    Seq::new(name.len(), |i: int| if is_alphanumeric(name[i]) { ascii_lower(name[i]) } else { '_' })
}

/// Turns a model name (e.g. "AlbedoBase XL (SDXL)") into a safe record-id fragment.
pub fn sanitize_id(name: &str) -> (r: String)
    ensures
        r@ == sanitized(name@),
{
    let v = chars_of(name);
    let mut out = String::new();
    let mut i: usize = 0;
    while i < v.len()
        invariant
            i <= v@.len(),
            v@ == name@,
            out@ == sanitized(name@).take(i as int),
        decreases v.len() - i,
    {
        let c = v[i];
        let mapped = if char_is_alphanumeric(c) { to_ascii_lower(c) } else { '_' };
        string_push(&mut out, mapped);
        proof {
            assert(sanitized(name@).take(i as int + 1) =~= sanitized(name@).take(i as int).push(mapped));
        }
        i = i + 1;
    }
    proof {
        assert(sanitized(name@).take(v@.len() as int) =~= sanitized(name@));
    }
    out
}

} // verus!

//! Multi-character response parser.
//!
//! Splits a single LLM response containing multiple character voices into
//! individual segments, each attributed to a specific character. The
//! expected format is `[CharName]: content` at the start of a line; a looser
//! `CharName: content` is accepted too, and without any marker the whole
//! response goes to one character.

use vstd::prelude::*;
use vstd::string::*;
use vstd::utf8::*;

use crate::text::{
    byte_len, concat2, first_word, is_white_space, lowercase, owned, piece, slice_bytes, trim_end_ws, trim_start_ws,
    split_words, starts_with, str_eq, str_starts_with, str_to_lowercase, str_trim, trim_ws,
    chars_of, char_is_whitespace, string_from_chars, join_with, string_views,
};

verus! {

#[verifier::external_type_specification]
#[verifier::external_body]
pub struct ExRegex(regex::Regex);

/// Whether `regex::Regex::new` accepts a pattern.
pub uninterp spec fn regex_compiles(pattern: Seq<char>) -> bool;

/// The byte spans `(start, end)` of the successive non-overlapping matches
/// of a pattern in a haystack, as `regex::Regex::find_iter` reports them.
pub uninterp spec fn regex_match_spans(pattern: Seq<char>, haystack: Seq<char>) -> Seq<(usize, usize)>;

/// The text of capture group 1 of the first match of a pattern in a
/// haystack (`regex::Regex::captures` then `get(1)`), if there is one.
pub uninterp spec fn regex_group1(pattern: Seq<char>, haystack: Seq<char>) -> Option<Seq<char>>;

/// What `find_iter` guarantees of its matches: each lies within the
/// haystack between two UTF-8 character boundaries, and they come in order
/// without overlapping.
pub open spec fn spans_well_formed(spans: Seq<(usize, usize)>, bytes: Seq<u8>) -> bool {
    &&& forall|k: int|
        0 <= k < spans.len() ==> #[trigger] spans[k].0 <= spans[k].1 <= bytes.len()
            && is_char_boundary(bytes, spans[k].0 as int) && is_char_boundary(bytes, spans[k].1 as int)
    &&& forall|k: int| 0 <= k < spans.len() - 1 ==> #[trigger] spans[k].1 <= spans[k + 1].0
}

/// A compiled regular expression together with the pattern it came from.
pub struct MarkerPattern {
    source: String,
    compiled: regex::Regex,
}

impl MarkerPattern {
    /// The pattern this expression was compiled from.
    pub closed spec fn pattern(&self) -> Seq<char> {
        self.source@
    }
}

/// Calls `regex::Regex::new`: `Some` exactly when the pattern compiles,
/// holding the compiled expression beside its pattern text.
#[verifier::external_body]
fn compile_pattern(pattern: &str) -> (r: Option<MarkerPattern>)
    ensures
        r is Some <==> regex_compiles(pattern@),
        r matches Some(p) ==> p.pattern() == pattern@,
{
    match regex::Regex::new(pattern) {
        Ok(re) => Some(MarkerPattern { source: pattern.to_string(), compiled: re }),
        Err(_) => None,
    }
}

/// Calls `regex::Regex::find_iter` and collects each match's byte span.
/// The spans are named by `regex_match_spans`; the crate documents that
/// the matches are successive and non-overlapping and that their offsets
/// fall on UTF-8 character boundaries.
#[verifier::external_body]
fn find_spans(p: &MarkerPattern, haystack: &str) -> (r: Vec<(usize, usize)>)
    ensures
        r@ == regex_match_spans(p.pattern(), haystack@),
        spans_well_formed(r@, haystack.spec_bytes()),
{
    p.compiled.find_iter(haystack).map(|m| (m.start(), m.end())).collect()
}

/// Calls `regex::Regex::captures` and returns the text of group 1 of the
/// first match, named by `regex_group1`.
#[verifier::external_body]
fn capture_group1(p: &MarkerPattern, haystack: &str) -> (r: Option<String>)
    ensures
        r matches Some(s) ==> regex_group1(p.pattern(), haystack@) == Some(s@),
        r is None ==> regex_group1(p.pattern(), haystack@) is None,
{
    match p.compiled.captures(haystack) {
        Some(caps) => match caps.get(1) {
            Some(m) => Some(m.as_str().to_string()),
            None => None,
        },
        None => None,
    }
}

/// The characters `regex::escape` puts a backslash in front of.
pub open spec fn is_regex_meta(c: char) -> bool {
    c == '\\' || c == '.' || c == '+' || c == '*' || c == '?' || c == '(' || c == ')' || c == '|'
        || c == '[' || c == ']' || c == '{' || c == '}' || c == '^' || c == '$' || c == '#' || c
        == '&' || c == '-' || c == '~'
}

/// `s` with every regex meta character preceded by a backslash.
pub open spec fn regex_escaped(s: Seq<char>) -> Seq<char>
    decreases s.len(),
{
    if s.len() == 0 {
        seq![]
    } else {
        (if is_regex_meta(s[0]) { seq!['\\', s[0]] } else { seq![s[0]] }) + regex_escaped(
            s.drop_first(),
        )
    }
}

/// Calls `regex::escape`, which (per `regex_syntax::escape_into`) copies
/// the text and puts `\` before each meta character.
#[verifier::external_body]
fn escape_regex(s: &str) -> (r: String)
    ensures
        r@ == regex_escaped(s@),
{
    regex::escape(s)
}

/// A single character's segment from a multi-character response.
#[derive(Debug, Clone)]
pub struct ParsedSegment {
    /// The character's name as it appeared in the `[Name]:` marker
    pub character_name: String,
    /// The character's response content (without the `[Name]:` prefix)
    pub content: String,
    /// Position in the parsed result (0-indexed)
    pub index: usize,
}

/// The `(name, content)` views of parsed segments.
pub open spec fn segment_views(v: Seq<ParsedSegment>) -> Seq<(Seq<char>, Seq<char>)> {
    Seq::new(v.len(), |i: int| (v[i].character_name@, v[i].content@))
}

/// Whether every segment's `index` is its position.
pub open spec fn indexed_in_order(v: Seq<ParsedSegment>) -> bool {
    forall|i: int| 0 <= i < v.len() ==> #[trigger] v[i].index == i
}

/// The speaker a marker names: its capture group 1, or the fallback.
pub open spec fn marker_name(pattern: Seq<char>, response: Seq<char>, span: (usize, usize), fallback: Seq<char>) -> Seq<char> {
    match regex_group1(pattern, piece(response, span.0 as int, span.1 as int)) {
        Some(name) => name,
        None => fallback,
    }
}

/// The `k`-th stretch of text around the markers with its speaker: the
/// preamble before the first marker goes to the fallback, the text after
/// marker `k - 1` (up to the next marker or the end) to that marker's name.
pub open spec fn segment_candidate(
    pattern: Seq<char>,
    response: Seq<char>,
    spans: Seq<(usize, usize)>,
    fallback: Seq<char>,
    k: int,
) -> (Seq<char>, Seq<char>) {
    if k == 0 {
        (fallback, trim_ws(piece(response, 0, spans[0].0 as int)))
    } else {
        let end = if k < spans.len() { spans[k].0 as int } else { encode_utf8(response).len() as int };
        (marker_name(pattern, response, spans[k - 1], fallback), trim_ws(piece(response, spans[k - 1].1 as int, end)))
    }
}

/// The non-empty candidates among the first `k`.
pub open spec fn raw_segments(
    pattern: Seq<char>,
    response: Seq<char>,
    spans: Seq<(usize, usize)>,
    fallback: Seq<char>,
    k: nat,
) -> Seq<(Seq<char>, Seq<char>)>
    decreases k,
{
    if k == 0 {
        seq![]
    } else {
        let prev = raw_segments(pattern, response, spans, fallback, (k - 1) as nat);
        let c = segment_candidate(pattern, response, spans, fallback, k - 1);
        if c.1.len() > 0 { prev.push(c) } else { prev }
    }
}

/// Adjacent segments of the same speaker joined into one, their contents
/// separated by a blank line.
pub open spec fn merge_segments(s: Seq<(Seq<char>, Seq<char>)>) -> Seq<(Seq<char>, Seq<char>)>
    decreases s.len(),
{
    if s.len() == 0 {
        seq![]
    } else {
        let prev = merge_segments(s.drop_last());
        let x = s.last();
        if prev.len() > 0 && prev.last().0 == x.0 {
            prev.drop_last().push((x.0, prev.last().1 + "\n\n"@ + x.1))
        } else {
            prev.push(x)
        }
    }
}

/// The segments a response splits into at the given marker matches; with
/// no usable segment at all, the whole trimmed response goes to the fallback.
pub open spec fn regex_segments(
    pattern: Seq<char>,
    response: Seq<char>,
    spans: Seq<(usize, usize)>,
    fallback: Seq<char>,
) -> Seq<(Seq<char>, Seq<char>)> {
    let raw = if spans.len() == 0 {
        seq![]
    } else {
        raw_segments(pattern, response, spans, fallback, spans.len() + 1)
    };
    if raw.len() == 0 {
        seq![(fallback, trim_ws(response))]
    } else {
        merge_segments(raw)
    }
}

/// Whether no two neighbouring segments share a speaker.
pub open spec fn speakers_alternate(s: Seq<(Seq<char>, Seq<char>)>) -> bool {
    forall|i: int| 0 <= i < s.len() - 1 ==> #[trigger] s[i].0 != s[i + 1].0
}

/// Merging leaves no two neighbouring segments with the same speaker, and
/// merging segments with non-empty contents keeps every content non-empty.
pub proof fn law_merged_segments_alternate_speakers(s: Seq<(Seq<char>, Seq<char>)>)
    ensures
        speakers_alternate(merge_segments(s)),
        merge_segments(s).len() <= s.len(),
        (forall|i: int| 0 <= i < s.len() ==> (#[trigger] s[i]).1.len() > 0) ==> forall|i: int|
            0 <= i < merge_segments(s).len() ==> (#[trigger] merge_segments(s)[i]).1.len() > 0,
    decreases s.len(),
{
    if s.len() > 0 {
        law_merged_segments_alternate_speakers(s.drop_last());
        let prev = merge_segments(s.drop_last());
        let x = s.last();
        if (forall|i: int| 0 <= i < s.len() ==> (#[trigger] s[i]).1.len() > 0) {
            assert forall|i: int| 0 <= i < s.drop_last().len() implies (#[trigger] s.drop_last()[i]).1.len() > 0 by {
                assert(s.drop_last()[i] == s[i]);
            }
            assert(x.1.len() > 0);
        }
        if prev.len() > 0 && prev.last().0 == x.0 {
            let m = prev.drop_last().push((x.0, prev.last().1 + "\n\n"@ + x.1));
            assert forall|i: int| 0 <= i < m.len() - 1 implies #[trigger] m[i].0 != m[i + 1].0 by {
                assert(m[i] == prev[i]);
                if i + 1 < m.len() - 1 {
                    assert(m[i + 1] == prev[i + 1]);
                } else {
                    assert(m[i + 1].0 == prev[i + 1].0);
                }
            }
        } else {
            let m = prev.push(x);
            assert forall|i: int| 0 <= i < m.len() - 1 implies #[trigger] m[i].0 != m[i + 1].0 by {
                assert(m[i] == prev[i]);
                if i + 1 < m.len() - 1 {
                    assert(m[i + 1] == prev[i + 1]);
                }
            }
        }
    }
}

/// The speaker named by the marker at `span`.
fn speaker_of(p: &MarkerPattern, response: &str, span: (usize, usize), fallback: &str) -> (r: String)
    requires
        span.0 <= span.1 <= response.spec_bytes().len(),
        is_char_boundary(response.spec_bytes(), span.0 as int),
        is_char_boundary(response.spec_bytes(), span.1 as int),
    ensures
        r@ == marker_name(p.pattern(), response@, span, fallback@),
{
    let marker = slice_bytes(response, span.0, span.1);
    match capture_group1(p, marker) {
        Some(name) => name,
        None => owned(fallback),
    }
}

/// The views of a list of `(name, content)` pairs.
pub open spec fn pair_views(v: Seq<(String, String)>) -> Seq<(Seq<char>, Seq<char>)> {
    Seq::new(v.len(), |i: int| (v[i].0@, v[i].1@))
}

/// The `k`-th segment candidate (see `segment_candidate`).
fn candidate_at(p: &MarkerPattern, response: &str, spans: &Vec<(usize, usize)>, fallback: &str, k: usize) -> (r: (String, String))
    requires
        spans@.len() > 0,
        k <= spans@.len(),
        spans_well_formed(spans@, response.spec_bytes()),
    ensures
        (r.0@, r.1@) == segment_candidate(p.pattern(), response@, spans@, fallback@, k as int),
{
    broadcast use encode_utf8_valid_utf8, is_char_boundary_start_end_of_seq;

    let m = spans.len();
    let n = byte_len(response);
    assert(is_char_boundary(response.spec_bytes(), 0));
    assert(is_char_boundary(response.spec_bytes(), n as int));
    if k == 0 {
        assert(spans@[0].0 <= spans@[0].1);
        let content = str_trim(slice_bytes(response, 0, spans[0].0));
        (owned(fallback), owned(content))
    } else {
        let prev = spans[k - 1];
        assert(spans@[k - 1].0 <= spans@[k - 1].1);
        let end = if k < m {
            assert(spans@[k - 1].1 <= spans@[k as int].0);
            spans[k].0
        } else {
            n
        };
        let name = speaker_of(p, response, prev, fallback);
        let content = str_trim(slice_bytes(response, prev.1, end));
        (name, owned(content))
    }
}

/// Appends the `k`-th candidate when its content is not empty.
fn push_candidate(raw: &mut Vec<(String, String)>, p: &MarkerPattern, response: &str, spans: &Vec<(usize, usize)>, fallback: &str, k: usize)
    requires
        spans@.len() > 0,
        k <= spans@.len(),
        spans_well_formed(spans@, response.spec_bytes()),
        pair_views(old(raw)@) == raw_segments(p.pattern(), response@, spans@, fallback@, k as nat),
    ensures
        pair_views(final(raw)@) == raw_segments(p.pattern(), response@, spans@, fallback@, k as nat + 1),
{
    let (name, content) = candidate_at(p, response, spans, fallback, k);
    if !content.as_str().is_empty() {
        raw.push((name, content));
    }
    assert(pair_views(raw@) =~= raw_segments(p.pattern(), response@, spans@, fallback@, k as nat + 1));
}

/// Merges a neighbouring segment of the same speaker into the last one.
fn merge_into(merged: &mut Vec<ParsedSegment>, name: String, content: String)
    requires
        indexed_in_order(old(merged)@),
    ensures
        indexed_in_order(final(merged)@),
        segment_views(final(merged)@) == ({
            let prev = segment_views(old(merged)@);
            if prev.len() > 0 && prev.last().0 == name@ {
                prev.drop_last().push((name@, prev.last().1 + "\n\n"@ + content@))
            } else {
                prev.push((name@, content@))
            }
        }),
{
    let len = merged.len();
    let same = len > 0 && str_eq(merged[len - 1].character_name.as_str(), name.as_str());
    let ghost prev = segment_views(merged@);
    if same {
        let mut last = merged.pop().unwrap();
        last.content.append("\n\n");
        last.content.append(content.as_str());
        merged.push(last);
        assert(segment_views(merged@) =~= prev.drop_last().push((name@, prev.last().1 + "\n\n"@ + content@)));
    } else {
        merged.push(ParsedSegment { character_name: name, content, index: len });
        assert(segment_views(merged@) =~= prev.push((name@, content@)));
    }
}

/// Splits `response` at the matches of a marker pattern whose capture
/// group 1 is the speaker's name, then merges neighbouring segments of the
/// same speaker.
fn parse_with_regex(response: &str, p: &MarkerPattern, fallback: &str) -> (r: Vec<ParsedSegment>)
    ensures
        segment_views(r@) == regex_segments(
            p.pattern(),
            response@,
            regex_match_spans(p.pattern(), response@),
            fallback@,
        ),
        indexed_in_order(r@),
        speakers_alternate(segment_views(r@)),
{
    let spans = find_spans(p, response);
    let m = spans.len();
    let ghost pat = p.pattern();
    let mut raw: Vec<(String, String)> = Vec::new();
    if m > 0 {
        let mut k: usize = 0;
        while k < m
            invariant
                m == spans@.len() > 0,
                spans_well_formed(spans@, response.spec_bytes()),
                pat == p.pattern(),
                k <= m,
                pair_views(raw@) == raw_segments(pat, response@, spans@, fallback@, k as nat),
            decreases m - k,
        {
            push_candidate(&mut raw, p, response, &spans, fallback, k);
            k = k + 1;
        }
        push_candidate(&mut raw, p, response, &spans, fallback, m);
    }
    let ghost raw_spec = pair_views(raw@);
    proof {
        if m == 0 {
            assert(raw_spec =~= Seq::<(Seq<char>, Seq<char>)>::empty());
        }
    }
    if raw.len() == 0 {
        let mut only: Vec<ParsedSegment> = Vec::new();
        only.push(ParsedSegment {
            character_name: owned(fallback),
            content: owned(str_trim(response)),
            index: 0,
        });
        proof {
            assert(segment_views(only@) =~= seq![(fallback@, trim_ws(response@))]);
        }
        return only;
    }
    let mut merged: Vec<ParsedSegment> = Vec::new();
    let mut i: usize = 0;
    while i < raw.len()
        invariant
            i <= raw@.len(),
            raw_spec == pair_views(raw@),
            segment_views(merged@) == merge_segments(raw_spec.take(i as int)),
            indexed_in_order(merged@),
        decreases raw.len() - i,
    {
        proof {
            assert(raw_spec.take(i as int + 1).drop_last() =~= raw_spec.take(i as int));
            assert(raw_spec.take(i as int + 1).last() == raw_spec[i as int]);
        }
        let name = raw[i].0.clone();
        let content = raw[i].1.clone();
        merge_into(&mut merged, name, content);
        i = i + 1;
    }
    proof {
        assert(raw_spec.take(raw@.len() as int) =~= raw_spec);
        law_merged_segments_alternate_speakers(raw_spec);
    }
    merged
}

/// UTF-8 byte length of a character sequence (`str::len`).
pub open spec fn blen(s: Seq<char>) -> nat {
    encode_utf8(s).len()
}

/// The regex alternatives for one known name: the escaped name, then its
/// escaped first word when that differs from the whole name.
pub open spec fn variants_of(name: Seq<char>) -> Seq<Seq<char>> {
    match first_word(name) {
        Some(f) => if f != name {
            seq![regex_escaped(name), regex_escaped(f)]
        } else {
            seq![regex_escaped(name)]
        },
        None => seq![regex_escaped(name)],
    }
}

/// The alternatives of the first `k` known names, in order.
pub open spec fn raw_variants(known: Seq<String>, k: nat) -> Seq<Seq<char>>
    decreases k,
{
    if k == 0 || k > known.len() {
        seq![]
    } else {
        raw_variants(known, (k - 1) as nat) + variants_of(known[k - 1]@)
    }
}

/// Where a stable descending sort by byte length puts `x` among `sorted`
/// (scanning from `i`): before the first element that is strictly shorter.
pub open spec fn insert_pos_from(sorted: Seq<Seq<char>>, x: Seq<char>, i: int) -> int
    decreases sorted.len() - i,
{
    if i < 0 || i >= sorted.len() {
        sorted.len() as int
    } else if blen(sorted[i]) < blen(x) {
        i
    } else {
        insert_pos_from(sorted, x, i + 1)
    }
}

/// `s` sorted by descending byte length, keeping equal lengths in their
/// input order (what `sort_by(|a, b| b.len().cmp(&a.len()))` yields).
pub open spec fn sort_by_len_desc(s: Seq<Seq<char>>) -> Seq<Seq<char>>
    decreases s.len(),
{
    if s.len() == 0 {
        seq![]
    } else {
        let sorted = sort_by_len_desc(s.drop_last());
        sorted.insert(insert_pos_from(sorted, s.last(), 0), s.last())
    }
}

/// `s` with each run of equal neighbours reduced to its first element (`Vec::dedup`).
pub open spec fn dedup_runs(s: Seq<Seq<char>>) -> Seq<Seq<char>>
    decreases s.len(),
{
    if s.len() == 0 {
        seq![]
    } else {
        let d = dedup_runs(s.drop_last());
        if d.len() > 0 && d.last() == s.last() { d } else { d.push(s.last()) }
    }
}

/// The alternation of all name variants, longest first, so that
/// "Aria Silverleaf" is tried before "Aria".
pub open spec fn known_alternation(known: Seq<String>) -> Seq<char> {
    join_with(dedup_runs(sort_by_len_desc(raw_variants(known, known.len()))), "|"@)
}

proof fn lemma_insert_pos_in_range(sorted: Seq<Seq<char>>, x: Seq<char>, i: int)
    requires
        0 <= i <= sorted.len(),
    ensures
        i <= insert_pos_from(sorted, x, i) <= sorted.len(),
    decreases sorted.len() - i,
{
    if i < sorted.len() && !(blen(sorted[i]) < blen(x)) {
        lemma_insert_pos_in_range(sorted, x, i + 1);
    }
}

#[verifier::rlimit(40)]
proof fn lemma_sort_same_members(s: Seq<Seq<char>>)
    ensures
        sort_by_len_desc(s).len() == s.len(),
        forall|x: Seq<char>| sort_by_len_desc(s).contains(x) <==> s.contains(x),
    decreases s.len(),
{
    if s.len() > 0 {
        let t = s.drop_last();
        lemma_sort_same_members(t);
        let sorted = sort_by_len_desc(t);
        let y = s.last();
        let p = insert_pos_from(sorted, y, 0);
        lemma_insert_pos_in_range(sorted, y, 0);
        sorted.insert_ensures(p, y);
        let r = sorted.insert(p, y);
        assert(r == sort_by_len_desc(s));
        assert forall|x: Seq<char>| r.contains(x) <==> s.contains(x) by {
            if r.contains(x) {
                let j = choose|j: int| 0 <= j < r.len() && r[j] == x;
                if j == p {
                    assert(s[s.len() - 1] == x);
                } else {
                    let m = if j < p { j } else { j - 1 };
                    if j > p {
                        assert(r[m + 1] == sorted[m]);
                    }
                    assert(sorted[m] == x);
                    assert(sorted.contains(x));
                    assert(sort_by_len_desc(t).contains(x) <==> t.contains(x));
                    let k = choose|k: int| 0 <= k < t.len() && t[k] == x;
                    assert(s[k] == x);
                }
            }
            if s.contains(x) {
                let k = choose|k: int| 0 <= k < s.len() && s[k] == x;
                if k == s.len() - 1 {
                    assert(r[p] == x);
                } else {
                    assert(t[k] == x);
                    assert(t.contains(x));
                    assert(sort_by_len_desc(t).contains(x) <==> t.contains(x));
                    let j = choose|j: int| 0 <= j < sorted.len() && sorted[j] == x;
                    if j < p {
                        assert(r[j] == x);
                    } else {
                        assert(r[j + 1] == x);
                    }
                }
            }
        }
    }
}

proof fn lemma_dedup_same_members(s: Seq<Seq<char>>)
    ensures
        forall|x: Seq<char>| dedup_runs(s).contains(x) <==> s.contains(x),
    decreases s.len(),
{
    if s.len() > 0 {
        let t = s.drop_last();
        lemma_dedup_same_members(t);
        let d = dedup_runs(t);
        let y = s.last();
        let r = dedup_runs(s);
        assert forall|x: Seq<char>| r.contains(x) <==> s.contains(x) by {
            if s.contains(x) {
                let k = choose|k: int| 0 <= k < s.len() && s[k] == x;
                if k == s.len() - 1 {
                    if d.len() > 0 && d.last() == y {
                        assert(r[d.len() - 1] == x);
                    } else {
                        assert(r[d.len() as int] == x);
                    }
                } else {
                    assert(t[k] == x);
                    assert(t.contains(x));
                    assert(dedup_runs(t).contains(x) <==> t.contains(x));
                    let j = choose|j: int| 0 <= j < d.len() && d[j] == x;
                    assert(r[j] == x);
                }
            }
            if r.contains(x) {
                let j = choose|j: int| 0 <= j < r.len() && r[j] == x;
                if j < d.len() {
                    assert(d[j] == x);
                    assert(d.contains(x));
                    assert(dedup_runs(t).contains(x) <==> t.contains(x));
                    let k = choose|k: int| 0 <= k < t.len() && t[k] == x;
                    assert(s[k] == x);
                } else {
                    assert(s[s.len() - 1] == x);
                }
            }
        }
    }
}

proof fn lemma_raw_variants_complete(known: Seq<String>, n: nat, k: int)
    requires
        0 <= k < n <= known.len(),
    ensures
        forall|v: Seq<char>| #[trigger] variants_of(known[k]@).contains(v) ==> raw_variants(known, n).contains(v),
    decreases n,
{
    let prev = raw_variants(known, (n - 1) as nat);
    let vs = variants_of(known[n - 1]@);
    assert(raw_variants(known, n) == prev + vs);
    if k == n - 1 {
        assert forall|v: Seq<char>| #[trigger] vs.contains(v) implies raw_variants(known, n).contains(v) by {
            let i = choose|i: int| 0 <= i < vs.len() && vs[i] == v;
            assert((prev + vs)[prev.len() + i] == v);
        }
    } else {
        lemma_raw_variants_complete(known, (n - 1) as nat, k);
        assert forall|v: Seq<char>| #[trigger] variants_of(known[k]@).contains(v) implies raw_variants(known, n).contains(v) by {
            assert(prev.contains(v));
            let i = choose|i: int| 0 <= i < prev.len() && prev[i] == v;
            assert((prev + vs)[i] == v);
        }
    }
}

proof fn lemma_raw_variants_sound(known: Seq<String>, n: nat)
    requires
        n <= known.len(),
    ensures
        forall|a: Seq<char>|
            raw_variants(known, n).contains(a) ==> exists|k: int| 0 <= k < n && #[trigger] variants_of(known[k]@).contains(a),
    decreases n,
{
    if n > 0 {
        lemma_raw_variants_sound(known, (n - 1) as nat);
        let prev = raw_variants(known, (n - 1) as nat);
        let vs = variants_of(known[n - 1]@);
        assert forall|a: Seq<char>| raw_variants(known, n).contains(a) implies exists|k: int|
            0 <= k < n && #[trigger] variants_of(known[k]@).contains(a) by {
            let i = choose|i: int| 0 <= i < (prev + vs).len() && (prev + vs)[i] == a;
            if i < prev.len() {
                assert(prev[i] == a);
                assert(prev.contains(a));
            } else {
                assert(vs[i - prev.len()] == a);
                assert(variants_of(known[n - 1]@).contains(a));
            }
        }
    }
}

/// The speaker alternatives of the marker patterns: the alternation joins,
/// with `|`, a list that offers every known name (escaped) and, for a name
/// of several words, its first word too, so "Aria:" marks a line spoken by
/// "Aria Silverleaf"; it offers nothing else.
pub proof fn law_marker_alternatives(known: Seq<String>)
    ensures
        exists|alts: Seq<Seq<char>>|
            #![trigger join_with(alts, "|"@)]
            known_alternation(known) == join_with(alts, "|"@) && (forall|k: int|
                0 <= k < known.len() ==> alts.contains(regex_escaped(#[trigger] known[k]@))) && (forall|k: int|
                0 <= k < known.len() && first_word(#[trigger] known[k]@) is Some && first_word(known[k]@)->0
                    != known[k]@ ==> alts.contains(regex_escaped(first_word(known[k]@)->0))) && (forall|a: Seq<char>|
                #[trigger] alts.contains(a) ==> exists|k: int|
                    0 <= k < known.len() && (a == regex_escaped(#[trigger] known[k]@) || (first_word(known[k]@) is Some
                        && a == regex_escaped(first_word(known[k]@)->0)))),
{
    let raw = raw_variants(known, known.len());
    let alts = dedup_runs(sort_by_len_desc(raw));
    lemma_sort_same_members(raw);
    lemma_dedup_same_members(sort_by_len_desc(raw));
    lemma_raw_variants_sound(known, known.len());
    assert forall|k: int| 0 <= k < known.len() implies alts.contains(regex_escaped(#[trigger] known[k]@)) by {
        lemma_raw_variants_complete(known, known.len(), k);
        let vs = variants_of(known[k]@);
        assert(vs[0] == regex_escaped(known[k]@));
        assert(vs.contains(regex_escaped(known[k]@)));
        assert(raw.contains(regex_escaped(known[k]@)));
        assert(sort_by_len_desc(raw).contains(regex_escaped(known[k]@)));
    }
    assert forall|k: int|
        0 <= k < known.len() && first_word(#[trigger] known[k]@) is Some && first_word(known[k]@)->0 != known[k]@ implies alts.contains(
        regex_escaped(first_word(known[k]@)->0),
    ) by {
        lemma_raw_variants_complete(known, known.len(), k);
        let vs = variants_of(known[k]@);
        assert(vs[1] == regex_escaped(first_word(known[k]@)->0));
        assert(vs.contains(regex_escaped(first_word(known[k]@)->0)));
        assert(raw.contains(regex_escaped(first_word(known[k]@)->0)));
        assert(sort_by_len_desc(raw).contains(regex_escaped(first_word(known[k]@)->0)));
    }
    assert forall|a: Seq<char>| #[trigger] alts.contains(a) implies exists|k: int|
        0 <= k < known.len() && (a == regex_escaped(#[trigger] known[k]@) || (first_word(known[k]@) is Some && a
            == regex_escaped(first_word(known[k]@)->0))) by {
        assert(sort_by_len_desc(raw).contains(a));
        assert(raw.contains(a));
        let k = choose|k: int| 0 <= k < known.len() && #[trigger] variants_of(known[k]@).contains(a);
        let vs = variants_of(known[k]@);
        let i = choose|i: int| 0 <= i < vs.len() && vs[i] == a;
        assert(a == regex_escaped(known[k]@) || (first_word(known[k]@) is Some && a == regex_escaped(
            first_word(known[k]@)->0,
        )));
    }
    assert(known_alternation(known) == join_with(alts, "|"@));
}

/// A capitalized name a speaker not yet in the cast may be marked with.
pub open spec fn generic_name_pattern() -> Seq<char> {
    "[A-Z][\\w' .-]{1,40}"@
}

/// `[Name]:` at the start of a line, for a known or a capitalized name.
pub open spec fn bracket_marker_pattern(alt: Seq<char>) -> Seq<char> {
    if alt.len() == 0 {
        "(?m)^\\[("@ + generic_name_pattern() + ")\\]:\\s*"@
    } else {
        "(?m)^\\[("@ + alt + "|"@ + generic_name_pattern() + ")\\]:\\s*"@
    }
}

/// `Name:` (no brackets) at the start of a line, for a known name.
pub open spec fn loose_marker_pattern(alt: Seq<char>) -> Seq<char> {
    "(?m)^("@ + alt + "):\\s*"@
}

/// Roleplay formatting that may lead a response: `*`, `"`, `“` or `_`.
pub open spec fn is_rp_lead(c: char) -> bool {
    c == '*' || c == '"' || c == '\u{201C}' || c == '_'
}

/// `s` without its leading roleplay formatting characters.
pub open spec fn drop_rp_lead(s: Seq<char>) -> Seq<char>
    decreases s.len(),
{
    if s.len() > 0 && is_rp_lead(s[0]) { drop_rp_lead(s.drop_first()) } else { s }
}

/// Characters that end the leading word of a response.
pub open spec fn is_word_stop(c: char) -> bool {
    is_white_space(c) || c == '\'' || c == '\u{2019}' || c == '*'
}

/// The characters of `s` before its first word stop.
pub open spec fn leading_token(s: Seq<char>) -> Seq<char>
    decreases s.len(),
{
    if s.len() == 0 || is_word_stop(s[0]) { seq![] } else { seq![s[0]] + leading_token(s.drop_first()) }
}

/// Whether an unmarked response reads as spoken by `name`: its first word
/// (after roleplay formatting) is the name's first word, or the response
/// starts with the full name, both compared in lowercase.
pub open spec fn starts_as(name: Seq<char>, response: Seq<char>) -> bool {
    let trimmed = trim_ws(response);
    let first_name = match first_word(name) {
        Some(f) => f,
        None => seq![],
    };
    lowercase(leading_token(drop_rp_lead(trimmed))) == lowercase(first_name) || starts_with(
        lowercase(trimmed),
        lowercase(name),
    )
}

/// The first known name an unmarked response reads as spoken by.
pub open spec fn guessed_speaker(known: Seq<String>, response: Seq<char>) -> Option<int> {
    if exists|k: int| 0 <= k < known.len() && starts_as(#[trigger] known[k]@, response) {
        Some(
            choose|k: int|
                0 <= k < known.len() && starts_as(#[trigger] known[k]@, response) && forall|j: int|
                    0 <= j < k ==> !starts_as(#[trigger] known[j]@, response),
        )
    } else {
        None
    }
}

proof fn lemma_first_speaker_exists(known: Seq<String>, response: Seq<char>, i: int)
    requires
        0 <= i < known.len(),
        starts_as(known[i]@, response),
    ensures
        exists|k: int|
            0 <= k < known.len() && starts_as(#[trigger] known[k]@, response) && forall|j: int|
                0 <= j < k ==> !starts_as(#[trigger] known[j]@, response),
    decreases i,
{
    if exists|j: int| 0 <= j < i && starts_as(#[trigger] known[j]@, response) {
        let j = choose|j: int| 0 <= j < i && starts_as(#[trigger] known[j]@, response);
        lemma_first_speaker_exists(known, response, j);
    } else {
        assert(known[i]@ == known[i]@);
    }
}

/// `guessed_speaker` finds the first known name the response starts as,
/// and none fits where it finds nothing.
pub proof fn lemma_guessed_speaker_first(known: Seq<String>, response: Seq<char>)
    ensures
        match guessed_speaker(known, response) {
            Some(k) => 0 <= k < known.len() && starts_as(known[k]@, response) && forall|j: int|
                0 <= j < k ==> !starts_as(#[trigger] known[j]@, response),
            None => forall|k: int| 0 <= k < known.len() ==> !starts_as(#[trigger] known[k]@, response),
        },
{
    if exists|k: int| 0 <= k < known.len() && starts_as(#[trigger] known[k]@, response) {
        let k = choose|k: int| 0 <= k < known.len() && starts_as(#[trigger] known[k]@, response);
        lemma_first_speaker_exists(known, response, k);
    }
}

/// The segments `parse_multi_character_response` returns, as `(name, content)`.
pub open spec fn parsed_response(response: Seq<char>, known: Seq<String>, fallback: Seq<char>) -> Seq<(Seq<char>, Seq<char>)> {
    let trimmed = trim_ws(response);
    let alt = known_alternation(known);
    let bracket = bracket_marker_pattern(alt);
    let loose = loose_marker_pattern(alt);
    if trimmed.len() == 0 {
        seq![]
    } else if !regex_compiles(bracket) {
        seq![(fallback, trimmed)]
    } else if regex_match_spans(bracket, response).len() > 0 {
        regex_segments(bracket, response, regex_match_spans(bracket, response), fallback)
    } else if regex_compiles(loose) && regex_match_spans(loose, response).len() > 0 {
        regex_segments(loose, response, regex_match_spans(loose, response), fallback)
    } else {
        match guessed_speaker(known, response) {
            Some(k) => seq![(known[k]@, trimmed)],
            None => seq![(fallback, trimmed)],
        }
    }
}

/// Whether a text is non-empty and neither starts nor ends with whitespace.
pub open spec fn is_trimmed(c: Seq<char>) -> bool {
    c.len() > 0 && !is_white_space(c[0]) && !is_white_space(c.last())
}

proof fn lemma_trim_start_first(s: Seq<char>)
    ensures
        trim_start_ws(s).len() > 0 ==> !is_white_space(trim_start_ws(s)[0]),
    decreases s.len(),
{
    if s.len() > 0 && is_white_space(s[0]) {
        lemma_trim_start_first(s.drop_first());
    }
}

proof fn lemma_trim_end_prefix(s: Seq<char>)
    ensures
        trim_end_ws(s).len() <= s.len(),
        trim_end_ws(s) =~= s.take(trim_end_ws(s).len() as int),
        trim_end_ws(s).len() > 0 ==> !is_white_space(trim_end_ws(s).last()),
    decreases s.len(),
{
    if s.len() > 0 && is_white_space(s.last()) {
        lemma_trim_end_prefix(s.drop_last());
        let k = trim_end_ws(s.drop_last()).len() as int;
        assert(s.drop_last().take(k) =~= s.take(k));
    }
}

/// A non-empty trimmed text starts and ends with a non-space.
pub proof fn lemma_trim_ws_trimmed(s: Seq<char>)
    ensures
        trim_ws(s).len() > 0 ==> is_trimmed(trim_ws(s)),
{
    lemma_trim_start_first(s);
    let t = trim_start_ws(s);
    lemma_trim_end_prefix(t);
    if trim_ws(s).len() > 0 {
        assert(trim_ws(s)[0] == t.take(trim_ws(s).len() as int)[0]);
    }
}

proof fn lemma_raw_segments_trimmed(
    pattern: Seq<char>,
    response: Seq<char>,
    spans: Seq<(usize, usize)>,
    fallback: Seq<char>,
    k: nat,
)
    ensures
        forall|i: int|
            0 <= i < raw_segments(pattern, response, spans, fallback, k).len() ==> is_trimmed(
                #[trigger] raw_segments(pattern, response, spans, fallback, k)[i].1,
            ),
    decreases k,
{
    if k > 0 {
        lemma_raw_segments_trimmed(pattern, response, spans, fallback, (k - 1) as nat);
        let j = k - 1;
        if j == 0 {
            lemma_trim_ws_trimmed(piece(response, 0, spans[0].0 as int));
        } else {
            let end = if j < spans.len() { spans[j].0 as int } else { encode_utf8(response).len() as int };
            lemma_trim_ws_trimmed(piece(response, spans[j - 1].1 as int, end));
        }
        let prev = raw_segments(pattern, response, spans, fallback, (k - 1) as nat);
        let c = segment_candidate(pattern, response, spans, fallback, j as int);
        if c.1.len() > 0 {
            let m = prev.push(c);
            assert forall|i: int| 0 <= i < m.len() implies is_trimmed(#[trigger] m[i].1) by {
                if i < prev.len() {
                    assert(m[i] == prev[i]);
                }
            }
        }
    }
}

proof fn lemma_merged_trimmed(s: Seq<(Seq<char>, Seq<char>)>)
    requires
        forall|i: int| 0 <= i < s.len() ==> is_trimmed(#[trigger] s[i].1),
    ensures
        forall|i: int| 0 <= i < merge_segments(s).len() ==> is_trimmed(#[trigger] merge_segments(s)[i].1),
    decreases s.len(),
{
    if s.len() > 0 {
        assert forall|i: int| 0 <= i < s.drop_last().len() implies is_trimmed(#[trigger] s.drop_last()[i].1) by {
            assert(s.drop_last()[i] == s[i]);
        }
        lemma_merged_trimmed(s.drop_last());
        let prev = merge_segments(s.drop_last());
        let x = s.last();
        assert(is_trimmed(x.1));
        if prev.len() > 0 && prev.last().0 == x.0 {
            let a = prev.last().1;
            assert(is_trimmed(prev[prev.len() - 1].1));
            let c = a + "\n\n"@ + x.1;
            assert(c[0] == a[0]);
            assert(c.last() == x.1.last());
            let m = prev.drop_last().push((x.0, c));
            assert forall|i: int| 0 <= i < m.len() implies is_trimmed(#[trigger] m[i].1) by {
                if i < m.len() - 1 {
                    assert(m[i] == prev[i]);
                }
            }
        } else {
            let m = prev.push(x);
            assert forall|i: int| 0 <= i < m.len() implies is_trimmed(#[trigger] m[i].1) by {
                if i < m.len() - 1 {
                    assert(m[i] == prev[i]);
                }
            }
        }
    }
}

/// Every segment of a parsed response has content that is non-empty and
/// trimmed, and no two neighbouring segments share a speaker.
pub proof fn law_parsed_segments_are_trimmed(response: Seq<char>, known: Seq<String>, fallback: Seq<char>)
    ensures
        forall|i: int|
            0 <= i < parsed_response(response, known, fallback).len() ==> is_trimmed(
                #[trigger] parsed_response(response, known, fallback)[i].1,
            ),
        speakers_alternate(parsed_response(response, known, fallback)),
{
    let trimmed = trim_ws(response);
    lemma_trim_ws_trimmed(response);
    let alt = known_alternation(known);
    let bracket = bracket_marker_pattern(alt);
    let loose = loose_marker_pattern(alt);
    let r = parsed_response(response, known, fallback);
    if trimmed.len() > 0 && regex_compiles(bracket) {
        let pat = if regex_match_spans(bracket, response).len() > 0 {
            bracket
        } else {
            loose
        };
        let spans = regex_match_spans(pat, response);
        if spans.len() > 0 && (pat == bracket || regex_compiles(loose)) {
            let raw = raw_segments(pat, response, spans, fallback, spans.len() + 1);
            if raw.len() > 0 {
                lemma_raw_segments_trimmed(pat, response, spans, fallback, spans.len() + 1);
                lemma_merged_trimmed(raw);
                law_merged_segments_alternate_speakers(raw);
            }
        }
    }
}

/// The regex alternatives of all known names, in order.
fn collect_variants(known: &[String]) -> (r: Vec<String>)
    ensures
        r@.len() == raw_variants(known@, known@.len()).len(),
        forall|i: int| 0 <= i < r@.len() ==> #[trigger] r@[i]@ == raw_variants(known@, known@.len())[i],
{
    let mut out: Vec<String> = Vec::new();
    let mut k: usize = 0;
    while k < known.len()
        invariant
            k <= known@.len(),
            out@.len() == raw_variants(known@, k as nat).len(),
            forall|i: int| 0 <= i < out@.len() ==> #[trigger] out@[i]@ == raw_variants(known@, k as nat)[i],
        decreases known.len() - k,
    {
        let name = known[k].as_str();
        let ghost before = raw_variants(known@, k as nat);
        out.push(escape_regex(name));
        let ws = split_words(name);
        if ws.len() > 0 && !str_eq(ws[0].as_str(), name) {
            out.push(escape_regex(ws[0].as_str()));
        }
        proof {
            let after = raw_variants(known@, k as nat + 1);
            assert(after == before + variants_of(known@[k as int]@));
            assert forall|i: int| 0 <= i < out@.len() implies #[trigger] out@[i]@ == after[i] by {
                if i >= before.len() {
                    assert(after[i] == variants_of(known@[k as int]@)[i - before.len()]);
                }
            }
        }
        k = k + 1;
    }
    out
}

/// Sorts by descending byte length, stably.
fn sort_variants(v: Vec<String>) -> (r: Vec<String>)
    ensures
        string_views(r@) == sort_by_len_desc(string_views(v@)),
{
    let mut sorted: Vec<String> = Vec::new();
    let mut k: usize = 0;
    while k < v.len()
        invariant
            k <= v@.len(),
            string_views(sorted@) == sort_by_len_desc(string_views(v@).take(k as int)),
        decreases v.len() - k,
    {
        let x = v[k].clone();
        let xl = byte_len(x.as_str());
        let ghost sv = string_views(sorted@);
        let mut pos: usize = 0;
        while pos < sorted.len() && byte_len(sorted[pos].as_str()) >= xl
            invariant
                pos <= sorted@.len(),
                sv == string_views(sorted@),
                xl == blen(x@),
                insert_pos_from(sv, x@, pos as int) == insert_pos_from(sv, x@, 0),
            decreases sorted.len() - pos,
        {
            pos = pos + 1;
        }
        proof {
            assert(insert_pos_from(sv, x@, pos as int) == pos);
            assert(string_views(v@).take(k as int + 1).drop_last() =~= string_views(v@).take(k as int));
            assert(string_views(v@).take(k as int + 1).last() == x@);
        }
        sorted.insert(pos, x);
        proof {
            assert(string_views(sorted@) =~= sv.insert(pos as int, x@));
        }
        k = k + 1;
    }
    proof {
        assert(string_views(v@).take(v@.len() as int) =~= string_views(v@));
    }
    sorted
}

/// Drops neighbouring repeats.
fn dedup_variants(v: Vec<String>) -> (r: Vec<String>)
    ensures
        string_views(r@) == dedup_runs(string_views(v@)),
{
    let mut out: Vec<String> = Vec::new();
    let mut k: usize = 0;
    while k < v.len()
        invariant
            k <= v@.len(),
            string_views(out@) == dedup_runs(string_views(v@).take(k as int)),
        decreases v.len() - k,
    {
        proof {
            assert(string_views(v@).take(k as int + 1).drop_last() =~= string_views(v@).take(k as int));
            assert(string_views(v@).take(k as int + 1).last() == v@[k as int]@);
        }
        let n = out.len();
        if n > 0 && str_eq(out[n - 1].as_str(), v[k].as_str()) {
            assert(string_views(out@) =~= dedup_runs(string_views(v@).take(k as int + 1)));
        } else {
            out.push(v[k].clone());
            assert(string_views(out@) =~= dedup_runs(string_views(v@).take(k as int + 1)));
        }
        k = k + 1;
    }
    proof {
        assert(string_views(v@).take(v@.len() as int) =~= string_views(v@));
    }
    out
}

/// Joins with `|`.
fn join_alternatives(v: &Vec<String>) -> (r: String)
    ensures
        r@ == join_with(string_views(v@), "|"@),
{
    let mut out = String::new();
    let mut k: usize = 0;
    while k < v.len()
        invariant
            k <= v@.len(),
            out@ == join_with(string_views(v@).take(k as int), "|"@),
        decreases v.len() - k,
    {
        proof {
            assert(string_views(v@).take(k as int + 1).drop_last() =~= string_views(v@).take(k as int));
            assert(string_views(v@).take(k as int + 1).last() == v@[k as int]@);
            if k == 0 {
                assert(string_views(v@).take(1) =~= seq![v@[0]@]);
            }
        }
        if k > 0 {
            out.append("|");
        }
        out.append(v[k].as_str());
        k = k + 1;
    }
    proof {
        assert(string_views(v@).take(v@.len() as int) =~= string_views(v@));
    }
    out
}

/// The alternation of the known names (see `known_alternation`).
fn build_alternation(known: &[String]) -> (r: String)
    ensures
        r@ == known_alternation(known@),
{
    let raw = collect_variants(known);
    proof {
        assert(string_views(raw@) =~= raw_variants(known@, known@.len()));
    }
    let sorted = sort_variants(raw);
    let deduped = dedup_variants(sorted);
    join_alternatives(&deduped)
}

/// The characters of `v` from `from` on that are not leading roleplay formatting.
fn skip_rp_lead(v: &Vec<char>) -> (r: usize)
    ensures
        r <= v@.len(),
        v@.subrange(r as int, v@.len() as int) == drop_rp_lead(v@),
{
    let mut i: usize = 0;
    assert(v@.subrange(0, v@.len() as int) =~= v@);
    while i < v.len() && (v[i] == '*' || v[i] == '"' || v[i] == '\u{201C}' || v[i] == '_')
        invariant
            i <= v@.len(),
            drop_rp_lead(v@.subrange(i as int, v@.len() as int)) == drop_rp_lead(v@),
        decreases v.len() - i,
    {
        proof {
            assert(v@.subrange(i as int, v@.len() as int).drop_first() =~= v@.subrange(i as int + 1, v@.len() as int));
        }
        i = i + 1;
    }
    i
}

/// The end of the leading token of `v[from..]`.
fn token_end(v: &Vec<char>, from: usize) -> (r: usize)
    requires
        from <= v@.len(),
    ensures
        from <= r <= v@.len(),
        v@.subrange(from as int, r as int) == leading_token(v@.subrange(from as int, v@.len() as int)),
{
    let mut i = from;
    while i < v.len() && !(char_is_whitespace(v[i]) || v[i] == '\'' || v[i] == '\u{2019}' || v[i] == '*')
        invariant
            from <= i <= v@.len(),
            v@.subrange(from as int, i as int) + leading_token(v@.subrange(i as int, v@.len() as int))
                == leading_token(v@.subrange(from as int, v@.len() as int)),
        decreases v.len() - i,
    {
        proof {
            let rest = v@.subrange(i as int, v@.len() as int);
            assert(rest.drop_first() =~= v@.subrange(i as int + 1, v@.len() as int));
            assert(v@.subrange(from as int, i as int + 1) =~= v@.subrange(from as int, i as int) + seq![v@[i as int]]);
        }
        i = i + 1;
    }
    proof {
        let rest = v@.subrange(i as int, v@.len() as int);
        assert(leading_token(rest) =~= Seq::<char>::empty());
    }
    i
}

/// Whether an unmarked response reads as spoken by `name` (see `starts_as`).
fn response_starts_as(name: &str, response: &str, trimmed: &str, trimmed_lower: &str, first_lower: &str) -> (r: bool)
    requires
        trimmed@ == trim_ws(response@),
        first_lower@ == lowercase(leading_token(drop_rp_lead(trimmed@))),
        trimmed_lower@ == lowercase(trimmed@),
    ensures
        r == starts_as(name@, response@),
{
    let ws = split_words(name);
    let first_name = if ws.len() > 0 { ws[0].clone() } else { String::new() };
    let first_name_lower = str_to_lowercase(first_name.as_str());
    let name_lower = str_to_lowercase(name);
    str_eq(first_lower, first_name_lower.as_str()) || str_starts_with(trimmed_lower, name_lower.as_str())
}

/// One segment holding all of `content`.
fn single_segment(name: String, content: &str) -> (v: Vec<ParsedSegment>)
    ensures
        segment_views(v@) == seq![(name@, content@)],
        indexed_in_order(v@),
{
    let mut v: Vec<ParsedSegment> = Vec::new();
    v.push(ParsedSegment { character_name: name, content: owned(content), index: 0 });
    assert(segment_views(v@) =~= seq![(name@, content@)]);
    v
}

/// Splits a multi-character response into per-character segments.
///
/// Markers are `[Name]:` at the start of a line, where the name is a known
/// name, the first word of one, or any capitalized name (a speaker who is
/// not yet in the cast). Without bracketed markers, `Name:` at a line start
/// is accepted for known names. Without any marker the whole trimmed
/// response goes to the known character it starts with, or to
/// `fallback_name`. Neighbouring segments of one speaker are merged.
#[verifier::loop_isolation(false)]
pub fn parse_multi_character_response(response: &str, known_names: &[String], fallback_name: &str) -> (r: Vec<ParsedSegment>)
    ensures
        segment_views(r@) == parsed_response(response@, known_names@, fallback_name@),
        indexed_in_order(r@),
{
    let trimmed = str_trim(response);
    if trimmed.is_empty() {
        let empty: Vec<ParsedSegment> = Vec::new();
        assert(segment_views(empty@) =~= Seq::<(Seq<char>, Seq<char>)>::empty());
        return empty;
    }
    let alt = build_alternation(known_names);
    let bracket = if alt.as_str().is_empty() {
        let mut p = owned("(?m)^\\[(");
        p.append("[A-Z][\\w' .-]{1,40}");
        p.append(")\\]:\\s*");
        p
    } else {
        let mut p = owned("(?m)^\\[(");
        p.append(alt.as_str());
        p.append("|");
        p.append("[A-Z][\\w' .-]{1,40}");
        p.append(")\\]:\\s*");
        p
    };
    let re = match compile_pattern(bracket.as_str()) {
        Some(re) => re,
        None => {
            return single_segment(owned(fallback_name), trimmed);
        },
    };
    let spans = find_spans(&re, response);
    if spans.len() > 0 {
        return parse_with_regex(response, &re, fallback_name);
    }
    let mut loose = owned("(?m)^(");
    loose.append(alt.as_str());
    loose.append("):\\s*");
    if let Some(loose_re) = compile_pattern(loose.as_str()) {
        let loose_spans = find_spans(&loose_re, response);
        if loose_spans.len() > 0 {
            return parse_with_regex(response, &loose_re, fallback_name);
        }
    }
    let tv = chars_of(trimmed);
    let start = skip_rp_lead(&tv);
    let end = token_end(&tv, start);
    let first = string_from_chars(&tv, start, end);
    let first_lower = str_to_lowercase(first.as_str());
    let trimmed_lower = str_to_lowercase(trimmed);
    let mut k: usize = 0;
    while k < known_names.len()
        invariant
            k <= known_names@.len(),
            first_lower@ == lowercase(leading_token(drop_rp_lead(trim_ws(response@)))),
            trimmed_lower@ == lowercase(trim_ws(response@)),
            trimmed@ == trim_ws(response@),
            forall|j: int| 0 <= j < k ==> !starts_as(#[trigger] known_names@[j]@, response@),
        decreases known_names.len() - k,
    {
        if response_starts_as(known_names[k].as_str(), response, trimmed, trimmed_lower.as_str(), first_lower.as_str()) {
            proof {
                lemma_guessed_speaker(known_names@, response@, k as int);
            }
            return single_segment(known_names[k].clone(), trimmed);
        }
        k = k + 1;
    }
    proof {
        lemma_guessed_speaker(known_names@, response@, k as int);
    }
    single_segment(owned(fallback_name), trimmed)
}

proof fn lemma_guessed_speaker(known: Seq<String>, response: Seq<char>, k: int)
    requires
        0 <= k <= known.len(),
        forall|j: int| 0 <= j < k ==> !starts_as(#[trigger] known[j]@, response),
    ensures
        k < known.len() && starts_as(known[k]@, response) ==> guessed_speaker(known, response) == Some(k),
        k == known.len() ==> guessed_speaker(known, response) is None,
{
    if k < known.len() && starts_as(known[k]@, response) {
        let c = choose|c: int|
            0 <= c < known.len() && starts_as(#[trigger] known[c]@, response) && forall|j: int|
                0 <= j < c ==> !starts_as(#[trigger] known[j]@, response);
        assert(starts_as(known[k]@, response) && forall|j: int|
            0 <= j < k ==> !starts_as(#[trigger] known[j]@, response));
        if c > k {
            assert(!starts_as(known[k]@, response));
        }
    }
}

} // verus!

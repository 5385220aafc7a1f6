//! Story-driven NPC tracking: when a detection pass is due, how a detected
//! name is counted toward the two-pass debounce, and how an LLM's JSON
//! answer is cut out of its surrounding text.

use vstd::prelude::*;
use vstd::string::*;

use crate::resolve::{resolve_character_id, resolved_id};
use crate::text::{
    chars_of, lowercase, owned, str_eq, str_to_lowercase, str_trim, string_from_chars, trim_ws,
};

verus! {

/// Number of message-completion events between periodic (non-forced)
/// detection passes — a safety net so detection cannot silently stall.
pub const NPC_DETECTION_CADENCE: i32 = 5;

/// Per-conversation detection bookkeeping.
#[derive(Debug, Clone)]
pub struct DetectionState {
    /// Completed messages since the last detection pass.
    pub messages_since_scan: i32,
    /// The last message a pass was considered for.
    pub last_scanned_message_id: Option<String>,
}

/// The outcome of announcing a completed message to the detector.
#[derive(Debug, Clone)]
pub struct DetectionTick {
    /// Whether a detection pass runs now.
    pub due: bool,
    /// The state to store, or `None` when nothing changes (the message was
    /// already seen).
    pub next_state: Option<DetectionState>,
}

/// Whether `state` already saw `message_id`.
pub open spec fn already_seen(state: DetectionState, message_id: Seq<char>) -> bool {
    state.last_scanned_message_id matches Some(id) && id@ == message_id
}

/// Counts a completed message toward the detection cadence. A message seen
/// before never triggers again (idempotent retries); otherwise a pass is
/// due when forced or once `cadence` messages have accumulated, and the
/// counter restarts at zero after each pass.
pub fn bump_and_check_due(state: &DetectionState, message_id: &str, forced: bool, cadence: i32) -> (r: DetectionTick)
    requires
        state.messages_since_scan < i32::MAX,
    ensures
        already_seen(*state, message_id@) ==> !r.due && r.next_state is None,
        !already_seen(*state, message_id@) ==> {
            let since = state.messages_since_scan + 1;
            &&& r.due == (forced || since >= cadence)
            &&& r.next_state is Some
            &&& r.next_state->0.messages_since_scan == (if r.due { 0 } else { since })
            &&& r.next_state->0.last_scanned_message_id is Some
            &&& r.next_state->0.last_scanned_message_id->0@ == message_id@
        },
{
    if let Some(last) = &state.last_scanned_message_id {
        if str_eq(last.as_str(), message_id) {
            return DetectionTick { due: false, next_state: None };
        }
    }
    let since = state.messages_since_scan + 1;
    let due = forced || since >= cadence;
    let next_count = if due { 0 } else { since };
    DetectionTick {
        due,
        next_state: Some(DetectionState { messages_since_scan: next_count, last_scanned_message_id: Some(owned(message_id)) }),
    }
}

/// With a positive cadence, a counter below the cadence stays below it and
/// non-negative, and a pass runs (unforced) exactly when the cadence-th
/// message since the last pass arrives.
pub proof fn law_detection_counter_stays_below_cadence(count: i32, cadence: i32, forced: bool)
    requires
        cadence >= 1,
        0 <= count < cadence,
    ensures
        ({
            let since = count + 1;
            let due = forced || since >= cadence;
            let next = if due { 0 } else { since };
            &&& 0 <= next < cadence
            &&& !forced ==> (due <==> count == cadence - 1)
        }),
{
}

/// Whether a detection tag counts as a sighting ("recurring" or "pivotal").
pub open spec fn counts_as_sighting(tag: Seq<char>) -> bool {
    tag == "recurring"@ || tag == "pivotal"@
}

/// The pass count after a detection with `tag`: one more for a sighting,
/// unchanged otherwise; a new candidate starts from zero.
pub open spec fn pass_count_after(existing: Option<i32>, tag: Seq<char>) -> int {
    let inc: int = if counts_as_sighting(tag) { 1 } else { 0 };
    match existing {
        Some(c) => c + inc,
        None => inc,
    }
}

/// Updates a candidate's pass count for a new detection.
pub fn next_pass_count(existing: Option<i32>, tag: &str) -> (r: i32)
    requires
        existing matches Some(c) ==> c < i32::MAX,
    ensures
        r == pass_count_after(existing, tag@),
{
    let increments = str_eq(tag, "recurring") || str_eq(tag, "pivotal");
    match existing {
        Some(c) => if increments { c + 1 } else { c },
        None => if increments { 1 } else { 0 },
    }
}

/// Detections needed before a candidate gets a full profile.
pub const DEBOUNCE_PASSES: i32 = 2;

/// Whether a candidate crossed the debounce threshold and is still pending.
pub open spec fn is_debounced(pass_count: i32, status: Seq<char>) -> bool {
    pass_count >= DEBOUNCE_PASSES && status == "pending"@
}

/// Whether a candidate is ready for profile generation.
pub fn candidate_is_debounced(pass_count: i32, status: &str) -> (r: bool)
    ensures
        r == is_debounced(pass_count, status@),
{
    pass_count >= DEBOUNCE_PASSES && str_eq(status, "pending")
}

/// A pending candidate first sighted in one pass is not yet debounced, and
/// a second sighting in another pass makes it so.
pub proof fn law_two_sightings_debounce(tag1: Seq<char>, tag2: Seq<char>)
    requires
        counts_as_sighting(tag1),
        counts_as_sighting(tag2),
    ensures
        !is_debounced(pass_count_after(None, tag1) as i32, "pending"@),
        is_debounced(pass_count_after(Some(pass_count_after(None, tag1) as i32), tag2) as i32, "pending"@),
{
}

/// The dedup key of a candidate name: trimmed and lowercased.
pub open spec fn candidate_key_of(name: Seq<char>) -> Seq<char> {
    lowercase(trim_ws(name))
}

/// The key under which a detected name is tracked.
pub fn candidate_key(name: &str) -> (r: String)
    ensures
        r@ == candidate_key_of(name@),
{
    str_to_lowercase(str_trim(name))
}

/// A cast row as the detection pipeline sees it.
#[derive(Debug, Clone)]
pub struct CastRow {
    pub character_id: String,
    /// "primary", "secondary", "npc" or "transient".
    pub role: String,
}

/// What to do with a name the detector reported.
#[derive(Debug, Clone, PartialEq, Eq)]
pub enum CandidateAction {
    /// The name is an established cast member (the primary, or someone past
    /// the transient placeholder stage): only refresh a placeholder profile.
    Established(String),
    /// The name is a still-pending placeholder: count this sighting.
    PendingPlaceholder(String),
    /// The name is new: start or continue tracking it.
    Track,
}

/// Whether cast row `m` is the still-transient row of character `id`.
pub open spec fn is_transient_row(m: CastRow, id: Seq<char>) -> bool {
    m.character_id@ == id && m.role@ == "transient"@
}

/// How a detected name is handled: a name resolving to a known character
/// is established unless that character is (not the primary and) still a
/// transient placeholder in the cast; any other name is tracked.
pub open spec fn candidate_action(
    name: Seq<char>,
    known: Seq<(String, String)>,
    primary_id: Option<Seq<char>>,
    cast: Seq<CastRow>,
) -> (Option<Seq<char>>, bool) {
    match resolved_id(known, name) {
        None => (None, false),
        Some(id) => (
            Some(id),
            primary_id != Some(id) && exists|i: int| 0 <= i < cast.len() && is_transient_row(#[trigger] cast[i], id),
        ),
    }
}

/// Classifies a detected name against the known cast (see `candidate_action`).
pub fn classify_candidate(name: &str, known: &[(String, String)], primary_id: Option<&str>, cast: &[CastRow]) -> (r: CandidateAction)
    ensures
        ({
            let pid = match primary_id {
                Some(p) => Some(p@),
                None => None,
            };
            match candidate_action(name@, known@, pid, cast@) {
                (None, _) => r == CandidateAction::Track,
                (Some(id), pending) => if pending {
                    r matches CandidateAction::PendingPlaceholder(x) && x@ == id
                } else {
                    r matches CandidateAction::Established(x) && x@ == id
                },
            }
        }),
{
    match resolve_character_id(name, known) {
        None => CandidateAction::Track,
        Some(existing) => {
            let is_primary = match primary_id {
                Some(p) => str_eq(p, existing.as_str()),
                None => false,
            };
            let mut pending = false;
            if !is_primary {
                let mut i: usize = 0;
                while i < cast.len() && !pending
                    invariant
                        i <= cast@.len(),
                        !pending ==> forall|j: int| 0 <= j < i ==> !is_transient_row(#[trigger] cast@[j], existing@),
                        pending ==> i < cast@.len() && is_transient_row(cast@[i as int], existing@),
                    decreases cast.len() - i, if pending { 0int } else { 1int },
                {
                    if str_eq(cast[i].character_id.as_str(), existing.as_str()) && str_eq(cast[i].role.as_str(), "transient") {
                        pending = true;
                    } else {
                        i = i + 1;
                    }
                }
            }
            if pending {
                CandidateAction::PendingPlaceholder(existing)
            } else {
                CandidateAction::Established(existing)
            }
        },
    }
}

/// The descriptions given to a freshly registered placeholder NPC.
pub open spec fn is_placeholder_text(desc: Seq<char>) -> bool {
    desc == "Just arrived in the story — their role isn't clear yet."@ || desc
        == "Just spoke for the first time — their role in the story isn't clear yet."@
}

/// Whether a character's description is still one of the placeholder texts
/// (ignoring surrounding whitespace), i.e. its profile was never filled in.
pub fn is_placeholder_description(description: &str) -> (r: bool)
    ensures
        r == is_placeholder_text(trim_ws(description@)),
{
    let d = str_trim(description);
    str_eq(d, "Just arrived in the story — their role isn't clear yet.") || str_eq(
        d,
        "Just spoke for the first time — their role in the story isn't clear yet.",
    )
}

/// `s` with every leading copy of `prefix` removed (`str::trim_start_matches`).
pub open spec fn strip_prefixes(s: Seq<char>, prefix: Seq<char>) -> Seq<char>
    decreases s.len(),
{
    if prefix.len() > 0 && prefix.len() <= s.len() && s.subrange(0, prefix.len() as int) == prefix {
        strip_prefixes(s.subrange(prefix.len() as int, s.len() as int), prefix)
    } else {
        s
    }
}

/// `s` with every trailing copy of `suffix` removed (`str::trim_end_matches`).
pub open spec fn strip_suffixes(s: Seq<char>, suffix: Seq<char>) -> Seq<char>
    decreases s.len(),
{
    if suffix.len() > 0 && suffix.len() <= s.len() && s.subrange(s.len() - suffix.len(), s.len() as int) == suffix {
        strip_suffixes(s.subrange(0, s.len() - suffix.len()), suffix)
    } else {
        s
    }
}

/// An LLM answer with surrounding whitespace and Markdown code fences
/// (```` ```json ```` / ```` ``` ````) removed.
pub open spec fn unfenced(raw: Seq<char>) -> Seq<char> {
    trim_ws(strip_suffixes(strip_prefixes(strip_prefixes(trim_ws(raw), "```json"@), "```"@), "```"@))
}

/// The index of the first `c` in `s`.
pub open spec fn first_pos(s: Seq<char>, c: char) -> Option<int> {
    if exists|i: int| 0 <= i < s.len() && s[i] == c {
        Some(choose|i: int| 0 <= i < s.len() && s[i] == c && forall|j: int| 0 <= j < i ==> s[j] != c)
    } else {
        None
    }
}

/// The index of the last `c` in `s`.
pub open spec fn last_pos(s: Seq<char>, c: char) -> Option<int> {
    if exists|i: int| 0 <= i < s.len() && s[i] == c {
        Some(choose|i: int| 0 <= i < s.len() && s[i] == c && forall|j: int| i < j < s.len() ==> s[j] != c)
    } else {
        None
    }
}

/// The JSON text of an LLM answer: unfenced, then cut from the first
/// `open` to the last `close` when both occur in that order.
pub open spec fn json_payload(raw: Seq<char>, open: char, close: char) -> Seq<char> {
    let f = unfenced(raw);
    match (first_pos(f, open), last_pos(f, close)) {
        (Some(a), Some(b)) => if b >= a { f.subrange(a, b + 1) } else { f },
        _ => f,
    }
}

/// The payload runs from the first `open` of the unfenced answer through
/// the last `close`, nested values included: for positions `a` (the first
/// `open`) and `b >= a` (the last `close`), the payload is exactly the
/// characters `a..=b`.
pub proof fn law_payload_spans_first_open_to_last_close(raw: Seq<char>, open: char, close: char, a: int, b: int)
    requires
        0 <= a <= b < unfenced(raw).len(),
        unfenced(raw)[a] == open,
        forall|j: int| 0 <= j < a ==> unfenced(raw)[j] != open,
        unfenced(raw)[b] == close,
        forall|j: int| b < j < unfenced(raw).len() ==> unfenced(raw)[j] != close,
    ensures
        json_payload(raw, open, close) == unfenced(raw).subrange(a, b + 1),
        json_payload(raw, open, close).len() > 0,
        json_payload(raw, open, close)[0] == open,
        json_payload(raw, open, close).last() == close,
{
    let f = unfenced(raw);
    let i = choose|i: int| 0 <= i < f.len() && f[i] == open && forall|j: int| 0 <= j < i ==> f[j] != open;
    assert(first_pos(f, open) == Some(i));
    if i < a {
    } else if i > a {
        assert(f[a] != open);
    }
    let k = choose|k: int| 0 <= k < f.len() && f[k] == close && forall|j: int| k < j < f.len() ==> f[j] != close;
    assert(last_pos(f, close) == Some(k));
    if k < b {
        assert(f[b] != close);
    } else if k > b {
    }
}

/// An unfenced answer that is itself one value, opening with `open` and
/// closing with `close`, is its own payload.
pub proof fn law_whole_value_is_its_own_payload(raw: Seq<char>, open: char, close: char)
    requires
        unfenced(raw).len() > 0,
        unfenced(raw)[0] == open,
        unfenced(raw).last() == close,
    ensures
        json_payload(raw, open, close) == unfenced(raw),
{
    let f = unfenced(raw);
    law_payload_spans_first_open_to_last_close(raw, open, close, 0, f.len() - 1);
    assert(f.subrange(0, f.len() as int) =~= f);
}

proof fn lemma_first_from(s: Seq<char>, c: char, i: int)
    requires
        0 <= i < s.len(),
        s[i] == c,
    ensures
        exists|k: int| 0 <= k < s.len() && s[k] == c && forall|j: int| 0 <= j < k ==> s[j] != c,
    decreases i,
{
    if exists|j: int| 0 <= j < i && s[j] == c {
        let j = choose|j: int| 0 <= j < i && s[j] == c;
        lemma_first_from(s, c, j);
    } else {
        assert(forall|j: int| 0 <= j < i ==> s[j] != c);
    }
}

proof fn lemma_last_from(s: Seq<char>, c: char, i: int)
    requires
        0 <= i < s.len(),
        s[i] == c,
    ensures
        exists|k: int| 0 <= k < s.len() && s[k] == c && forall|j: int| k < j < s.len() ==> s[j] != c,
    decreases s.len() - i,
{
    if exists|j: int| i < j < s.len() && s[j] == c {
        let j = choose|j: int| i < j < s.len() && s[j] == c;
        lemma_last_from(s, c, j);
    } else {
        assert(forall|j: int| i < j < s.len() ==> s[j] != c);
    }
}

/// When no `close` comes at or after an `open` of the unfenced answer,
/// the payload is the whole unfenced answer.
pub proof fn law_no_enclosed_payload_keeps_answer(raw: Seq<char>, open: char, close: char)
    requires
        forall|a: int, b: int|
            #![trigger unfenced(raw)[a], unfenced(raw)[b]]
            0 <= a <= b < unfenced(raw).len() ==> !(unfenced(raw)[a] == open && unfenced(raw)[b] == close),
    ensures
        json_payload(raw, open, close) == unfenced(raw),
{
    let f = unfenced(raw);
    if exists|i: int| 0 <= i < f.len() && f[i] == open {
        if exists|i: int| 0 <= i < f.len() && f[i] == close {
            let i0 = choose|i: int| 0 <= i < f.len() && f[i] == open;
            let k0 = choose|i: int| 0 <= i < f.len() && f[i] == close;
            lemma_first_from(f, open, i0);
            lemma_last_from(f, close, k0);
            let a = choose|i: int| 0 <= i < f.len() && f[i] == open && forall|j: int| 0 <= j < i ==> f[j] != open;
            let b = choose|i: int| 0 <= i < f.len() && f[i] == close && forall|j: int| i < j < f.len() ==> f[j] != close;
            assert(first_pos(f, open) == Some(a));
            assert(last_pos(f, close) == Some(b));
            if b >= a {
                assert(!(f[a] == open && f[b] == close));
            }
        }
    }
}

/// Removes every leading copy of `prefix` from `v[from..to]`.
fn strip_prefix_runs(v: &Vec<char>, prefix: &Vec<char>, from: usize, to: usize) -> (r: usize)
    requires
        from <= to <= v@.len(),
    ensures
        from <= r <= to,
        v@.subrange(r as int, to as int) == strip_prefixes(v@.subrange(from as int, to as int), prefix@),
{
    let mut i = from;
    let m = prefix.len();
    if m == 0 {
        return from;
    }
    while m <= to - i && crate::text::chars_occur_at(v, prefix, i)
        invariant
            from <= i <= to <= v@.len(),
            m == prefix@.len() > 0,
            strip_prefixes(v@.subrange(i as int, to as int), prefix@) == strip_prefixes(v@.subrange(from as int, to as int), prefix@),
        decreases to - i,
    {
        proof {
            let s = v@.subrange(i as int, to as int);
            assert(s.subrange(0, m as int) =~= v@.subrange(i as int, i + m));
            assert(s.subrange(m as int, s.len() as int) =~= v@.subrange(i + m, to as int));
        }
        i = i + m;
    }
    proof {
        let s = v@.subrange(i as int, to as int);
        if m <= to - i {
            assert(s.subrange(0, m as int) =~= v@.subrange(i as int, i + m));
        }
    }
    i
}

/// Removes every trailing copy of `suffix` from `v[from..to]`.
fn strip_suffix_runs(v: &Vec<char>, suffix: &Vec<char>, from: usize, to: usize) -> (r: usize)
    requires
        from <= to <= v@.len(),
    ensures
        from <= r <= to,
        v@.subrange(from as int, r as int) == strip_suffixes(v@.subrange(from as int, to as int), suffix@),
{
    let mut j = to;
    let m = suffix.len();
    if m == 0 {
        return to;
    }
    while m <= j - from && crate::text::chars_occur_at(v, suffix, j - m)
        invariant
            from <= j <= to <= v@.len(),
            m == suffix@.len() > 0,
            strip_suffixes(v@.subrange(from as int, j as int), suffix@) == strip_suffixes(v@.subrange(from as int, to as int), suffix@),
        decreases j,
    {
        proof {
            let s = v@.subrange(from as int, j as int);
            assert(s.subrange(s.len() - m, s.len() as int) =~= v@.subrange(j - m, j as int));
            assert(s.subrange(0, s.len() - m) =~= v@.subrange(from as int, j - m));
        }
        j = j - m;
    }
    proof {
        let s = v@.subrange(from as int, j as int);
        if m <= j - from {
            assert(s.subrange(s.len() - m, s.len() as int) =~= v@.subrange(j - m, j as int));
        }
    }
    j
}

/// Strips whitespace and Markdown code fences from an LLM answer.
pub fn strip_code_fences(raw: &str) -> (r: String)
    ensures
        r@ == unfenced(raw@),
{
    let t = str_trim(raw);
    let v = chars_of(t);
    let n = v.len();
    let json_tag = chars_of("```json");
    let fence = chars_of("```");
    proof {
        assert(v@.subrange(0, n as int) =~= v@);
    }
    let a = strip_prefix_runs(&v, &json_tag, 0, n);
    let b = strip_prefix_runs(&v, &fence, a, n);
    let c = strip_suffix_runs(&v, &fence, b, n);
    let inner = string_from_chars(&v, b, c);
    owned(str_trim(inner.as_str()))
}

/// Cuts the JSON value out of an LLM answer: strips fences, then keeps the
/// text from the first `open` to the last `close` (e.g. `{`/`}` or `[`/`]`)
/// when both are present in that order.
pub fn extract_json_payload(raw: &str, open: char, close: char) -> (r: String)
    ensures
        r@ == json_payload(raw@, open, close),
{
    let f = strip_code_fences(raw);
    let v = chars_of(f.as_str());
    let n = v.len();
    let mut a: usize = 0;
    while a < n && v[a] != open
        invariant
            a <= n == v@.len(),
            forall|j: int| 0 <= j < a ==> v@[j] != open,
        decreases n - a,
    {
        a = a + 1;
    }
    let mut b: usize = n;
    while b > 0 && v[b - 1] != close
        invariant
            b <= n == v@.len(),
            forall|j: int| b <= j < n ==> v@[j] != close,
        decreases b,
    {
        b = b - 1;
    }
    proof {
        if a < n {
            assert(first_pos(v@, open) == Some(a as int)) by {
                let c = choose|i: int| 0 <= i < v@.len() && v@[i] == open && forall|j: int| 0 <= j < i ==> v@[j] != open;
                assert(v@[a as int] == open);
                if c < a { } else if c > a { assert(v@[a as int] != open); }
            }
        } else {
            assert(first_pos(v@, open) is None);
        }
        if b > 0 {
            assert(last_pos(v@, close) == Some(b - 1)) by {
                let c = choose|i: int| 0 <= i < v@.len() && v@[i] == close && forall|j: int| i < j < v@.len() ==> v@[j] != close;
                assert(v@[b - 1] == close);
                if c < b - 1 { assert(v@[b - 1] != close); } else if c > b - 1 { }
            }
        } else {
            assert(last_pos(v@, close) is None);
        }
    }
    if a < n && b > 0 && b - 1 >= a {
        string_from_chars(&v, a, b)
    } else {
        string_from_chars(&v, 0, n)
    }
}

} // verus!

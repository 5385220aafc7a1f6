//! The decisions inside prompt assembly: which lorebook entries and memory
//! facts enter the prompt, how character-card text is rendered, and how
//! `{{user}}` is substituted. Fetching the data is the caller's business.

use vstd::prelude::*;
use vstd::string::*;
use vstd::utf8::*;

use crate::models::{ChatMessage, MessageRole};
use crate::tokenizer::{cl100k_token_count, count_message_tokens, message_tokens, MESSAGE_OVERHEAD};
use crate::records::{ascii_lower, to_ascii_lower};
use crate::text::{
    char_is_alphanumeric, chars_of, chars_occur_at, is_alphanumeric, join_strings, join_with,
    occurs_at, owned, str_eq, string_push, string_views,
};

verus! {

/// `"• " + fact` for each fact, one per line.
pub open spec fn bullet_lines(facts: Seq<String>) -> Seq<char>
    decreases facts.len(),
{
    if facts.len() == 0 {
        seq![]
    } else if facts.len() == 1 {
        "• "@ + facts[0]@
    } else {
        bullet_lines(facts.drop_last()) + "\n"@ + "• "@ + facts.last()@
    }
}

/// A memory block: the header line, then the facts as bullets.
pub open spec fn memory_block(header: Seq<char>, facts: Seq<String>) -> Seq<char> {
    header + "\n"@ + bullet_lines(facts)
}

/// Formats a list of memory facts as a bulleted block under `header` —
/// the shape of every memory injection in the prompt.
pub fn format_memory_block(header: &str, facts: &[String]) -> (r: String)
    ensures
        r@ == memory_block(header@, facts@),
{
    let mut lines = String::new();
    let mut k: usize = 0;
    while k < facts.len()
        invariant
            k <= facts@.len(),
            lines@ == bullet_lines(facts@.take(k as int)),
        decreases facts.len() - k,
    {
        proof {
            assert(facts@.take(k as int + 1).drop_last() =~= facts@.take(k as int));
            if k == 0 {
                assert(facts@.take(1) =~= seq![facts@[0]]);
            }
        }
        if k > 0 {
            lines.append("\n");
        }
        lines.append("• ");
        lines.append(facts[k].as_str());
        k = k + 1;
    }
    proof {
        assert(facts@.take(facts@.len() as int) =~= facts@);
    }
    let mut r = owned(header);
    r.append("\n");
    r.append(lines.as_str());
    r
}

/// Whether the occurrence `corpus[start..end]` is bounded by a
/// non-alphanumeric character (or the end of the text) on each side.
pub open spec fn bounded_at(corpus: Seq<char>, start: int, end: int) -> bool {
    (start == 0 || !is_alphanumeric(corpus[start - 1])) && (end == corpus.len() || !is_alphanumeric(
        corpus[end],
    ))
}

/// Whether `keyword` (non-empty) occurs somewhere in `corpus` with a word
/// boundary on both sides.
pub open spec fn keyword_on_boundary(corpus: Seq<char>, keyword: Seq<char>) -> bool {
    keyword.len() > 0 && exists|i: int|
        #[trigger] occurs_at(corpus, keyword, i) && bounded_at(corpus, i, i + keyword.len())
}

/// Whether `keyword` appears in `corpus` on a word boundary — not as a
/// substring buried inside a longer word (so "cat" does not fire on
/// "catastrophe"). Every occurrence is considered, overlapping ones
/// included. Both are expected already lowercased. A multi-word key must be
/// bounded as a whole phrase. An empty keyword never matches.
pub fn keyword_matches_at_word_boundary(corpus: &str, keyword: &str) -> (r: bool)
    ensures
        r == keyword_on_boundary(corpus@, keyword@),
{
    let c = chars_of(corpus);
    let k = chars_of(keyword);
    let n = c.len();
    let m = k.len();
    if m == 0 {
        return false;
    }
    let mut i: usize = 0;
    while i <= n && m <= n - i
        invariant
            n == c@.len(),
            m == k@.len() > 0,
            c@ == corpus@,
            k@ == keyword@,
            forall|j: int|
                0 <= j < i ==> !(#[trigger] occurs_at(corpus@, keyword@, j) && bounded_at(corpus@, j, j + m)),
        decreases n + 1 - i,
    {
        if chars_occur_at(&c, &k, i) {
            let end = i + m;
            let before_ok = i == 0 || !char_is_alphanumeric(c[i - 1]);
            let after_ok = end == n || !char_is_alphanumeric(c[end]);
            if before_ok && after_ok {
                return true;
            }
        }
        i = i + 1;
    }
    proof {
        assert forall|j: int| #[trigger] occurs_at(corpus@, keyword@, j) implies !bounded_at(corpus@, j, j + m) by {
            if j >= i {
                assert(j + m > n);
            }
        }
    }
    false
}

/// The character-card macro that stands for the user.
pub open spec fn user_macro() -> Seq<char> {
    seq!['{', '{', 'u', 's', 'e', 'r', '}', '}']
}

/// Whether `{{user}}` starts at position `i` of `s`, letters compared
/// without regard to case.
pub open spec fn macro_at(s: Seq<char>, i: int) -> bool {
    0 <= i && i + 8 <= s.len() && forall|j: int| 0 <= j < 8 ==> ascii_lower(#[trigger] s[i + j]) == user_macro()[j]
}

/// `s` with each `{{user}}` (in any letter case) replaced by `name`,
/// scanning left to right; all other characters are kept.
pub open spec fn substituted(s: Seq<char>, name: Seq<char>) -> Seq<char>
    decreases s.len(),
{
    if s.len() == 0 {
        seq![]
    } else if macro_at(s, 0) {
        name + substituted(s.subrange(8, s.len() as int), name)
    } else {
        seq![s[0]] + substituted(s.drop_first(), name)
    }
}

/// Text in which `{{user}}` occurs nowhere comes back unchanged.
pub proof fn law_text_without_macro_is_unchanged(s: Seq<char>, name: Seq<char>)
    requires
        forall|i: int| !#[trigger] macro_at(s, i),
    ensures
        substituted(s, name) == s,
    decreases s.len(),
{
    if s.len() > 0 {
        let t = s.drop_first();
        assert forall|i: int| !#[trigger] macro_at(t, i) by {
            if macro_at(t, i) {
                assert forall|j: int| 0 <= j < 8 implies ascii_lower(#[trigger] s[i + 1 + j]) == user_macro()[j] by {
                    assert(s[i + 1 + j] == t[i + j]);
                }
                assert(macro_at(s, i + 1));
            }
        }
        law_text_without_macro_is_unchanged(t, name);
        assert(s =~= seq![s[0]] + t);
    }
}

/// The name `{{user}}` stands for: the persona's, or the generic "User".
pub open spec fn macro_name(persona_name: Option<&str>) -> Seq<char> {
    match persona_name {
        Some(p) => p@,
        None => "User"@,
    }
}

fn macro_at_index(v: &Vec<char>, i: usize) -> (r: bool)
    ensures
        r == macro_at(v@, i as int),
{
    if i > v.len() || v.len() - i < 8 {
        return false;
    }
    let pattern = ['{', '{', 'u', 's', 'e', 'r', '}', '}'];
    let mut j: usize = 0;
    while j < 8
        invariant
            i + 8 <= v.len(),
            j <= 8,
            pattern@ == user_macro(),
            forall|k: int| 0 <= k < j ==> ascii_lower(#[trigger] v@[i + k]) == user_macro()[k],
        decreases 8 - j,
    {
        if to_ascii_lower(v[i + j]) != pattern[j] {
            return false;
        }
        j = j + 1;
    }
    true
}

/// Case-insensitive `{{user}}` -> display-name substitution, applied to
/// character-card text fields: the active persona's name when one is
/// selected, otherwise the generic "User". Every other character of the
/// text is kept as it is; text without the macro comes back unchanged.
pub fn substitute_user_macro(text: &str, persona_name: Option<&str>) -> (r: String)
    ensures
        r@ == substituted(text@, macro_name(persona_name)),
{
    let name: &str = match persona_name {
        Some(p) => p,
        None => "User",
    };
    let v = chars_of(text);
    let n = v.len();
    let mut out = String::new();
    let mut i: usize = 0;
    proof {
        assert(v@.subrange(0, n as int) =~= v@);
        assert(out@ + substituted(v@, name@) =~= substituted(v@, name@));
    }
    while i < n
        invariant
            n == v@.len(),
            v@ == text@,
            i <= n,
            name@ == macro_name(persona_name),
            out@ + substituted(v@.subrange(i as int, n as int), name@) == substituted(v@, name@),
        decreases n - i,
    {
        let ghost rest = v@.subrange(i as int, n as int);
        if macro_at_index(&v, i) {
            proof {
                assert forall|j: int| 0 <= j < 8 implies ascii_lower(#[trigger] rest[0 + j]) == user_macro()[j] by {
                    assert(rest[0 + j] == v@[i + j]);
                }
                assert(rest.subrange(8, rest.len() as int) =~= v@.subrange(i + 8, n as int));
                assert(out@ + name@ + substituted(v@.subrange(i + 8, n as int), name@) =~= out@ + (name@
                    + substituted(v@.subrange(i + 8, n as int), name@)));
            }
            out.append(name);
            i = i + 8;
        } else {
            proof {
                if macro_at(rest, 0) {
                    assert forall|j: int| 0 <= j < 8 implies ascii_lower(#[trigger] v@[i + j]) == user_macro()[j] by {
                        assert(rest[0 + j] == v@[i + j]);
                    }
                }
                assert(rest.drop_first() =~= v@.subrange(i + 1, n as int));
                assert(out@.push(v@[i as int]) + substituted(v@.subrange(i + 1, n as int), name@) =~= out@ + (
                seq![v@[i as int]] + substituted(v@.subrange(i + 1, n as int), name@)));
            }
            string_push(&mut out, v[i]);
            i = i + 1;
        }
    }
    proof {
        assert(v@.subrange(n as int, n as int) =~= Seq::<char>::empty());
        assert(out@ + Seq::<char>::empty() =~= out@);
    }
    out
}

/// Tokens a system message with this content counts for.
pub open spec fn system_tokens(content: Seq<char>) -> nat {
    cl100k_token_count(content) + MESSAGE_OVERHEAD as nat
}

/// Trying the first `k` facts, then fewer, down to one: how many facts the
/// first memory block within `cap` tokens holds.
pub open spec fn memory_fit_from(header: Seq<char>, facts: Seq<String>, cap: nat, k: nat) -> Option<nat>
    decreases k,
{
    if k == 0 || k > facts.len() {
        None
    } else if system_tokens(memory_block(header, facts.take(k as int))) <= cap {
        Some(k)
    } else if k == 1 {
        None
    } else {
        memory_fit_from(header, facts, cap, (k - 1) as nat)
    }
}

/// The memory message within the memories layer's token cap: all facts if
/// they fit, otherwise the longest leading run of facts that does (facts
/// are dropped from the end, keeping at least one), or none at all.
pub fn fit_memory_block(header: &str, facts: &[String], cap: usize) -> (r: Option<ChatMessage>)
    ensures
        match memory_fit_from(header@, facts@, cap as nat, facts@.len()) {
            Some(k) => r matches Some(m) && m.role == MessageRole::System && m.content@ == memory_block(
                header@,
                facts@.take(k as int),
            ),
            None => r is None,
        },
{
    let mut k = facts.len();
    if k == 0 {
        return None;
    }
    proof {
        assert(facts@.take(k as int) =~= facts@);
    }
    loop
        invariant
            1 <= k <= facts@.len(),
            memory_fit_from(header@, facts@, cap as nat, k as nat) == memory_fit_from(header@, facts@, cap as nat, facts@.len()),
        decreases k,
    {
        let block = format_memory_block(header, vstd::slice::slice_subrange(facts, 0, k));
        let msg = ChatMessage { role: MessageRole::System, content: block };
        let t = count_message_tokens(&msg);
        proof {
            assert(facts@.subrange(0, k as int) =~= facts@.take(k as int));
        }
        if t <= cap {
            return Some(msg);
        }
        if k == 1 {
            return None;
        }
        k = k - 1;
    }
}

/// The retrieved-context message text for the given result lines.
pub open spec fn rag_text(lines: Seq<String>) -> Seq<char> {
    "[Relevant Past Context — retrieved from earlier conversation history]\n"@ + join_with(
        string_views(lines),
        "\n\n"@,
    )
}

/// Trying the first `k` result lines, then fewer, down to one: how many
/// lines the first retrieved-context message within `cap` tokens holds.
pub open spec fn rag_fit_from(lines: Seq<String>, cap: nat, k: nat) -> Option<nat>
    decreases k,
{
    if k == 0 || k > lines.len() {
        None
    } else if system_tokens(rag_text(lines.take(k as int))) <= cap {
        Some(k)
    } else if k == 1 {
        None
    } else {
        rag_fit_from(lines, cap, (k - 1) as nat)
    }
}

/// The tokens the retrieval layer uses: those of the message added, or 0
/// when no message fitted.
pub open spec fn rag_charge(lines: Seq<String>, cap: nat) -> nat {
    if lines.len() == 0 {
        0
    } else {
        match rag_fit_from(lines, cap, lines.len()) {
            Some(k) => system_tokens(rag_text(lines.take(k as int))),
            None => 0,
        }
    }
}

/// Adds the retrieved past context to the prompt within the retrieval
/// budget `cap`: all result lines if they fit, otherwise the longest
/// leading run of lines that does (dropping from the end, keeping at least
/// one), or nothing. Returns the tokens the layer uses: the added
/// message's, or 0.
pub fn add_rag_layer(prompt: &mut Vec<ChatMessage>, lines: &[String], cap: usize) -> (used: usize)
    ensures
        used == rag_charge(lines@, cap as nat),
        lines@.len() == 0 ==> final(prompt)@ == old(prompt)@,
        lines@.len() > 0 ==> match rag_fit_from(lines@, cap as nat, lines@.len()) {
            Some(k) => final(prompt)@.len() == old(prompt)@.len() + 1 && final(prompt)@.drop_last() == old(prompt)@
                && final(prompt)@.last().role == MessageRole::System && final(prompt)@.last().content@ == rag_text(
                lines@.take(k as int),
            ),
            None => final(prompt)@ == old(prompt)@,
        },
{
    let mut k = lines.len();
    if k == 0 {
        return 0;
    }
    proof {
        assert(lines@.take(k as int) =~= lines@);
    }
    loop
        invariant
            1 <= k <= lines@.len(),
            prompt@ == old(prompt)@,
            rag_fit_from(lines@, cap as nat, k as nat) == rag_fit_from(lines@, cap as nat, lines@.len()),
        decreases k,
    {
        let kept = vstd::slice::slice_subrange(lines, 0, k);
        proof {
            assert(kept@ =~= lines@.take(k as int));
        }
        let mut content = owned("[Relevant Past Context — retrieved from earlier conversation history]\n");
        let body = join_strings(kept, "\n\n");
        content.append(body.as_str());
        let msg = ChatMessage { role: MessageRole::System, content };
        let t = count_message_tokens(&msg);
        if t <= cap {
            prompt.push(msg);
            return t;
        }
        if k == 1 {
            return 0;
        }
        k = k - 1;
    }
}

/// A member of a conversation's cast.
#[derive(Debug, Clone)]
pub struct CastMember {
    pub character_id: String,
    pub character_name: String,
    /// "primary", "secondary", "npc" or "transient".
    pub role: String,
    pub talkativeness: i32,
    pub is_active: bool,
}

/// Whether an active cast member other than the conversation's own
/// primary character makes this a deliberate group story: one added by
/// hand (role "primary" or "secondary"), or an NPC the user promoted to
/// the gallery (`promoted`).
pub open spec fn counts_toward_group(primary_id: Option<Seq<char>>, m: CastMember, promoted: bool) -> bool {
    m.is_active && primary_id != Some(m.character_id@) && (m.role@ == "primary"@ || m.role@ == "secondary"@
        || promoted)
}

/// Whether the conversation runs in genuine multi-character mode. A merely
/// transient or confirmed-but-unpromoted NPC does not switch it on.
/// `promoted[i]` tells whether cast member `i`'s character has the
/// "gallery" origin.
pub fn is_genuine_multi_character(primary_id: Option<&str>, cast: &[CastMember], promoted: &[bool]) -> (r: bool)
    requires
        promoted@.len() == cast@.len(),
    ensures
        r == exists|i: int|
            0 <= i < cast@.len() && counts_toward_group(
                match primary_id {
                    Some(p) => Some(p@),
                    None => None,
                },
                #[trigger] cast@[i],
                promoted@[i],
            ),
{
    let ghost pid = match primary_id {
        Some(p) => Some(p@),
        None => None::<Seq<char>>,
    };
    let mut i: usize = 0;
    while i < cast.len()
        invariant
            i <= cast@.len(),
            promoted@.len() == cast@.len(),
            pid == match primary_id {
                Some(p) => Some(p@),
                None => None,
            },
            forall|j: int| 0 <= j < i ==> !counts_toward_group(pid, #[trigger] cast@[j], promoted@[j]),
        decreases cast.len() - i,
    {
        let c = &cast[i];
        if c.is_active {
            let is_primary = match primary_id {
                Some(p) => str_eq(p, c.character_id.as_str()),
                None => false,
            };
            if !is_primary {
                if str_eq(c.role.as_str(), "primary") || str_eq(c.role.as_str(), "secondary") || promoted[i] {
                    return true;
                }
            }
        }
        i = i + 1;
    }
    false
}

/// The names of the active cast members other than the primary, in cast
/// order: who solo mode may voice besides the character itself.
pub open spec fn other_cast_names(primary_id: Seq<char>, cast: Seq<CastMember>) -> Seq<Seq<char>>
    decreases cast.len(),
{
    if cast.len() == 0 {
        seq![]
    } else if cast.last().is_active && cast.last().character_id@ != primary_id {
        other_cast_names(primary_id, cast.drop_last()).push(cast.last().character_name@)
    } else {
        other_cast_names(primary_id, cast.drop_last())
    }
}

/// Lists the other active cast members by name.
pub fn known_other_names(primary_id: &str, cast: &[CastMember]) -> (r: Vec<String>)
    ensures
        string_views(r@) == other_cast_names(primary_id@, cast@),
{
    let mut out: Vec<String> = Vec::new();
    let mut k: usize = 0;
    while k < cast.len()
        invariant
            k <= cast@.len(),
            string_views(out@) == other_cast_names(primary_id@, cast@.take(k as int)),
        decreases cast.len() - k,
    {
        proof {
            assert(cast@.take(k as int + 1).drop_last() =~= cast@.take(k as int));
        }
        let c = &cast[k];
        if c.is_active && !str_eq(c.character_id.as_str(), primary_id) {
            let ghost before = string_views(out@);
            out.push(c.character_name.clone());
            proof {
                assert(string_views(out@) =~= before.push(c.character_name@));
            }
        }
        k = k + 1;
    }
    proof {
        assert(cast@.take(cast@.len() as int) =~= cast@);
    }
    out
}

/// The content of the last user message of the chain, empty when there is none.
pub open spec fn last_user_text(chain: Seq<ChatMessage>) -> Seq<char>
    decreases chain.len(),
{
    if chain.len() == 0 {
        seq![]
    } else if chain.last().role == MessageRole::User {
        chain.last().content@
    } else {
        last_user_text(chain.drop_last())
    }
}

/// The latest user message's text, the query of semantic retrieval.
pub fn last_user_content(chain: &[ChatMessage]) -> (r: String)
    ensures
        r@ == last_user_text(chain@),
{
    let mut i: usize = chain.len();
    assert(chain@.take(i as int) =~= chain@);
    while i > 0
        invariant
            i <= chain@.len(),
            last_user_text(chain@) == last_user_text(chain@.take(i as int)),
        decreases i,
    {
        proof {
            assert(chain@.take(i as int).drop_last() =~= chain@.take(i as int - 1));
        }
        if chain[i - 1].role == MessageRole::User {
            return chain[i - 1].content.clone();
        }
        i = i - 1;
    }
    String::new()
}

/// The facts of the recency fallback: the first `limit` rows of a
/// newest-first listing, turned around so the oldest reads first.
pub open spec fn oldest_first(rows: Seq<String>, limit: nat) -> Seq<String> {
    let n = if rows.len() < limit { rows.len() } else { limit };
    Seq::new(n, |i: int| rows[n - 1 - i])
}

/// Takes the first `limit` rows and reverses them.
pub fn recent_facts_oldest_first(rows: &[String], limit: usize) -> (r: Vec<String>)
    ensures
        r@ == oldest_first(rows@, limit as nat),
{
    let n: usize = if rows.len() < limit { rows.len() } else { limit };
    let mut out: Vec<String> = Vec::new();
    let mut k: usize = 0;
    while k < n
        invariant
            n <= rows@.len(),
            n == (if rows@.len() < limit { rows@.len() } else { limit as nat }),
            k <= n,
            out@ == oldest_first(rows@, limit as nat).take(k as int),
        decreases n - k,
    {
        out.push(rows[n - 1 - k].clone());
        proof {
            assert(out@ =~= oldest_first(rows@, limit as nat).take(k as int + 1));
        }
        k = k + 1;
    }
    proof {
        assert(oldest_first(rows@, limit as nat).take(n as int) =~= oldest_first(rows@, limit as nat));
    }
    out
}

/// The most facts one cast member's memory block shows.
pub const CHARACTER_MEMORY_LIMIT: usize = 10;

/// One cast member's attributed memory block in group mode: the header
/// `[{name}'s Memories]` and that member's first ten facts.
pub open spec fn character_memory_text(name: Seq<char>, facts: Seq<String>) -> Seq<char> {
    let n = if facts.len() < CHARACTER_MEMORY_LIMIT { facts.len() } else { CHARACTER_MEMORY_LIMIT as nat };
    memory_block("["@ + name + "'s Memories]"@, facts.take(n as int))
}

/// The memory block of a cast member, or `None` when they have no facts.
pub fn character_memory_block(name: &str, facts: &[String]) -> (r: Option<String>)
    ensures
        facts@.len() == 0 <==> r is None,
        r matches Some(b) ==> b@ == character_memory_text(name@, facts@),
{
    if facts.len() == 0 {
        return None;
    }
    let n: usize = if facts.len() < CHARACTER_MEMORY_LIMIT { facts.len() } else { CHARACTER_MEMORY_LIMIT };
    let mut header = owned("[");
    header.append(name);
    header.append("'s Memories]");
    let kept = vstd::slice::slice_subrange(facts, 0, n);
    proof {
        assert(kept@ =~= facts@.take(n as int));
    }
    Some(format_memory_block(header.as_str(), kept))
}

/// The elements of `s` with later repeats dropped, in order of first occurrence.
pub open spec fn first_occurrences(s: Seq<Seq<char>>) -> Seq<Seq<char>>
    decreases s.len(),
{
    if s.len() == 0 {
        seq![]
    } else if first_occurrences(s.drop_last()).contains(s.last()) {
        first_occurrences(s.drop_last())
    } else {
        first_occurrences(s.drop_last()).push(s.last())
    }
}

fn contains_string(v: &Vec<String>, x: &str) -> (r: bool)
    ensures
        r == string_views(v@).contains(x@),
{
    let mut i: usize = 0;
    while i < v.len()
        invariant
            i <= v@.len(),
            forall|j: int| 0 <= j < i ==> v@[j]@ != x@,
        decreases v.len() - i,
    {
        if str_eq(v[i].as_str(), x) {
            assert(string_views(v@)[i as int] == x@);
            return true;
        }
        i = i + 1;
    }
    proof {
        if string_views(v@).contains(x@) {
            let j = choose|j: int| 0 <= j < string_views(v@).len() && string_views(v@)[j] == x@;
            assert(v@[j]@ == x@);
        }
    }
    false
}

/// The characters whose lorebooks the prompt draws on: the primary, then
/// every active cast member, each once.
pub fn lorebook_character_ids(primary_id: &str, cast_ids: &[String]) -> (r: Vec<String>)
    ensures
        string_views(r@) == first_occurrences(seq![primary_id@] + string_views(cast_ids@)),
{
    let ghost all = seq![primary_id@] + string_views(cast_ids@);
    let mut out: Vec<String> = Vec::new();
    out.push(owned(primary_id));
    proof {
        assert(all.take(1).drop_last() =~= Seq::<Seq<char>>::empty());
        assert(first_occurrences(all.take(1).drop_last()) =~= Seq::<Seq<char>>::empty());
        assert(string_views(out@) =~= first_occurrences(all.take(1)));
    }
    let mut k: usize = 0;
    while k < cast_ids.len()
        invariant
            k <= cast_ids@.len(),
            all == seq![primary_id@] + string_views(cast_ids@),
            string_views(out@) == first_occurrences(all.take(k as int + 1)),
        decreases cast_ids.len() - k,
    {
        let id = &cast_ids[k];
        proof {
            assert(all.take(k as int + 2).drop_last() =~= all.take(k as int + 1));
            assert(all.take(k as int + 2).last() == id@);
        }
        if !contains_string(&out, id.as_str()) {
            let ghost before = string_views(out@);
            out.push(id.clone());
            proof {
                assert(string_views(out@) =~= before.push(id@));
            }
        }
        k = k + 1;
    }
    proof {
        assert(all.take(cast_ids@.len() as int + 1) =~= all);
    }
    out
}

} // verus!

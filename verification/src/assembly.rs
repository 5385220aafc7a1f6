//! Prompt assembly: from everything the store holds for a conversation to
//! the messages sent to the model and the statistics of the context window.
//!
//! The layers come in a fixed order: the user's system prompt, the
//! character card(s), the user's persona, lorebook entries, memories,
//! emotional state, the current scene and the rolling summary; then the
//! conversation history the sliding window keeps, retrieved past context,
//! and last the post-history instructions.

use vstd::prelude::*;

use crate::budget::{allocation_of, plan_history};
use crate::cards::{
    about_user_block, about_user_text, emotional_line, emotional_line_text, emotional_state_block,
    emotional_state_text, emotional_states_block, emotional_states_text, group_layer_texts, group_layers,
    instruction_message, solo_card, solo_card_text, summary_message, summary_text, system_messages_with,
    CardFields, EmotionalState, MemberCard,
};
use crate::lorebook::{lorebook_contents, select_lorebook_messages, take_within_budget, LorebookEntry};
use crate::models::{ChatMessage, MessageRole};
use crate::prompt::{
    add_rag_layer, character_memory_block, character_memory_text, counts_toward_group, fit_memory_block,
    format_memory_block, memory_block, memory_fit_from, oldest_first, rag_charge, rag_fit_from, rag_text,
    recent_facts_oldest_first, system_tokens,
};
use crate::scene::{format_scene_block, scene_block_text, scene_view, SceneSnapshot};
use crate::text::{join_strings, owned, str_eq, string_views, trim_ws};
use crate::tokenizer::{count_message_tokens, message_tokens, sum_message_tokens, REPLY_PRIMING};
use crate::window::{suffix_tokens, window_kept, ContextStats};

verus! {

/// The header of the remembered-facts block.
pub const MEMORY_HEADER: &'static str = "[Remembered Facts — things you know from past interactions]";

/// The recency fallback shows this many facts with a character.
pub const RECENT_MEMORY_LIMIT: usize = 15;

/// Without a character, this many conversation facts are shown.
pub const CONVERSATION_MEMORY_LIMIT: usize = 20;

/// The user's active persona.
#[derive(Debug, Clone)]
pub struct PersonaCard {
    pub name: String,
    pub description: String,
    pub personality: String,
}

/// What the store holds for one prompt. Card fields and scene names come
/// with `{{user}}` already substituted.
#[derive(Debug, Clone)]
pub struct PromptInputs {
    /// The global system prompt from the settings.
    pub user_system_prompt: Option<String>,
    /// The instructions placed after the history.
    pub post_history_instructions: Option<String>,
    /// The conversation's primary character, if it has one.
    pub character_id: Option<String>,
    /// That character's name and card, when it loaded.
    pub character: Option<(String, CardFields)>,
    /// The conversation's cast.
    pub cast: Vec<MemberCard>,
    /// The active persona, if any.
    pub persona: Option<PersonaCard>,
    /// The lorebook entries of everyone in the cast, merged and sorted.
    pub lorebook_entries: Vec<LorebookEntry>,
    /// "character", "conversation" or "none".
    pub memory_scope: String,
    /// Facts found relevant to the last user message, best first.
    pub semantic_memories: Vec<String>,
    /// Facts in the store's listing order, newest first.
    pub recent_memories: Vec<String>,
    /// In group mode, each active member's name and facts.
    pub cast_memories: Vec<(String, Vec<String>)>,
    /// The character's emotional state (solo mode).
    pub emotional_state: Option<EmotionalState>,
    /// The members' emotional states (group mode).
    pub cast_states: Vec<(String, EmotionalState)>,
    /// The current scene and who is present in it.
    pub scene: Option<(SceneSnapshot, Vec<String>)>,
    /// The rolling summary of evicted history.
    pub summary: Option<String>,
}

/// The characters of an optional id.
pub open spec fn id_view(id: Option<String>) -> Option<Seq<char>> {
    match id {
        Some(s) => Some(s@),
        None => None,
    }
}

/// A configured instruction as a layer: trimmed, absent when blank.
pub open spec fn instruction_layer(text: Option<String>) -> Seq<Seq<char>> {
    match text {
        Some(s) => if trim_ws(s@).len() > 0 { seq![trim_ws(s@)] } else { seq![] },
        None => seq![],
    }
}

/// Whether the conversation is a deliberate group story.
pub open spec fn is_group(pid: Option<Seq<char>>, cast: Seq<MemberCard>) -> bool {
    exists|i: int| 0 <= i < cast.len() && counts_toward_group(pid, (#[trigger] cast[i]).member, cast[i].promoted)
}

/// The names of the active members other than the primary.
pub open spec fn others_of(pid: Seq<char>, cast: Seq<MemberCard>) -> Seq<Seq<char>>
    decreases cast.len(),
{
    if cast.len() == 0 {
        seq![]
    } else if cast.last().member.is_active && cast.last().member.character_id@ != pid {
        others_of(pid, cast.drop_last()).push(cast.last().member.character_name@)
    } else {
        others_of(pid, cast.drop_last())
    }
}

/// The character layers: the group cards and directive in group mode,
/// otherwise the solo card of the loaded primary character.
pub open spec fn character_layer(inp: PromptInputs) -> Seq<Seq<char>> {
    let pid = id_view(inp.character_id);
    if is_group(pid, inp.cast@) {
        group_layer_texts(pid, inp.character, inp.cast@)
    } else {
        match (pid, inp.character) {
            (Some(id), Some(c)) => seq![solo_card_text(c.0@, others_of(id, inp.cast@), c.1)],
            _ => seq![],
        }
    }
}

/// The persona layer.
pub open spec fn persona_layer(inp: PromptInputs) -> Seq<Seq<char>> {
    match inp.persona {
        Some(p) => seq![about_user_text(p.name@, p.description@, p.personality@)],
        None => seq![],
    }
}

/// Sum of the tokens of system messages with these contents.
pub open spec fn contents_sum(cs: Seq<Seq<char>>) -> nat
    decreases cs.len(),
{
    if cs.len() == 0 {
        0
    } else {
        contents_sum(cs.drop_last()) + system_tokens(cs.last())
    }
}

/// Tokens of a whole prompt of system messages with these contents.
pub open spec fn contents_tokens(cs: Seq<Seq<char>>) -> nat {
    contents_sum(cs) + REPLY_PRIMING as nat
}

/// How many leading contents fit in `cap` tokens, added in order until the
/// first that does not fit.
pub open spec fn contents_fit(cs: Seq<Seq<char>>, cap: nat, k: nat) -> nat
    decreases cs.len() - k,
{
    if k < cs.len() && contents_sum(cs.take(k as int + 1)) <= cap {
        contents_fit(cs, cap, k + 1)
    } else {
        k
    }
}

/// The lorebook layer: the selected entries' contents, cut at the first
/// that would exceed the lorebook cap.
pub open spec fn lorebook_layer(inp: PromptInputs, chain: Seq<ChatMessage>, cap: nat) -> Seq<Seq<char>> {
    let cs = lorebook_contents(inp.lorebook_entries@, chain);
    cs.take(contents_fit(cs, cap, 0) as int)
}

/// The facts of the single-character memory block: the semantic results,
/// or else the most recent facts, oldest first.
pub open spec fn single_facts(inp: PromptInputs) -> Seq<String> {
    if inp.semantic_memories@.len() > 0 {
        inp.semantic_memories@
    } else {
        oldest_first(inp.recent_memories@, RECENT_MEMORY_LIMIT as nat)
    }
}

/// The attributed memory blocks of the members that have facts.
pub open spec fn cast_memory_texts(ms: Seq<(String, Vec<String>)>) -> Seq<Seq<char>>
    decreases ms.len(),
{
    if ms.len() == 0 {
        seq![]
    } else if ms.last().1@.len() > 0 {
        cast_memory_texts(ms.drop_last()).push(character_memory_text(ms.last().0@, ms.last().1@))
    } else {
        cast_memory_texts(ms.drop_last())
    }
}

/// The memory layer with a character: none when memories are off, each
/// member's block in group mode, otherwise the facts within the memory cap.
pub open spec fn memory_layer(inp: PromptInputs, group: bool, cap: nat) -> Seq<Seq<char>> {
    if inp.memory_scope@ == "none"@ {
        seq![]
    } else if group {
        cast_memory_texts(inp.cast_memories@)
    } else {
        let facts = single_facts(inp);
        match memory_fit_from(MEMORY_HEADER@, facts, cap, facts.len()) {
            Some(k) => seq![memory_block(MEMORY_HEADER@, facts.take(k as int))],
            None => seq![],
        }
    }
}

/// The memory layer without a character: the conversation's latest facts,
/// oldest first, uncapped.
pub open spec fn conversation_memory_layer(inp: PromptInputs) -> Seq<Seq<char>> {
    let facts = oldest_first(inp.recent_memories@, CONVERSATION_MEMORY_LIMIT as nat);
    if inp.memory_scope@ == "none"@ || facts.len() == 0 {
        seq![]
    } else {
        seq![memory_block(MEMORY_HEADER@, facts)]
    }
}

/// The emotional layer: every member's line in group mode, otherwise the
/// character's state.
pub open spec fn emotion_layer(inp: PromptInputs, group: bool) -> Seq<Seq<char>> {
    if group {
        let cs = inp.cast_states@;
        if cs.len() > 0 {
            seq![emotional_states_text(Seq::new(cs.len(), |i: int| emotional_line_text(cs[i].0@, cs[i].1)))]
        } else {
            seq![]
        }
    } else {
        match inp.emotional_state {
            Some(s) => seq![emotional_state_text(s)],
            None => seq![],
        }
    }
}

/// The scene layer.
pub open spec fn scene_layer(inp: PromptInputs) -> Seq<Seq<char>> {
    match inp.scene {
        Some(sc) => seq![scene_block_text(scene_view(sc.0), string_views(sc.1@))],
        None => seq![],
    }
}

/// The summary layer.
pub open spec fn summary_layer(inp: PromptInputs) -> Seq<Seq<char>> {
    match inp.summary {
        Some(s) => seq![summary_text(s@)],
        None => seq![],
    }
}

/// All layers before the history, in order.
pub open spec fn fixed_contents(inp: PromptInputs, chain: Seq<ChatMessage>, lorebook_cap: nat, memory_cap: nat) -> Seq<Seq<char>> {
    let head = instruction_layer(inp.user_system_prompt) + character_layer(inp) + persona_layer(inp);
    if inp.character_id is Some {
        head + lorebook_layer(inp, chain, lorebook_cap) + memory_layer(
            inp,
            is_group(id_view(inp.character_id), inp.cast@),
            memory_cap,
        ) + emotion_layer(inp, is_group(id_view(inp.character_id), inp.cast@)) + scene_layer(inp)
            + summary_layer(inp)
    } else {
        head + conversation_memory_layer(inp) + summary_layer(inp)
    }
}

/// The retrieved-context layer. With a character the lines are cut to fit
/// the retrieval budget; without one they are added whole or not at all.
/// Only a window that evicted messages gets one.
pub open spec fn rag_layer(with_character: bool, evicted: nat, lines: Seq<String>, cap: nat) -> Seq<Seq<char>> {
    if evicted == 0 || lines.len() == 0 {
        seq![]
    } else if with_character {
        match rag_fit_from(lines, cap, lines.len()) {
            Some(k) => seq![rag_text(lines.take(k as int))],
            None => seq![],
        }
    } else if system_tokens(rag_text(lines)) <= cap {
        seq![rag_text(lines)]
    } else {
        seq![]
    }
}

/// The tokens of the retrieved-context layer (0 when there is none).
pub open spec fn rag_layer_tokens(with_character: bool, evicted: nat, lines: Seq<String>, cap: nat) -> nat {
    let layer = rag_layer(with_character, evicted, lines, cap);
    if layer.len() == 0 { 0 } else { system_tokens(layer[0]) }
}

/// The tokens of the summary message (0 without a summary).
pub open spec fn summary_tokens_of(inp: PromptInputs) -> nat {
    match inp.summary {
        Some(s) => system_tokens(summary_text(s@)),
        None => 0,
    }
}

proof fn lemma_contents_sum(msgs: Seq<ChatMessage>, cs: Seq<Seq<char>>)
    requires
        system_messages_with(msgs, cs),
    ensures
        sum_message_tokens(msgs) == contents_sum(cs),
    decreases msgs.len(),
{
    if msgs.len() > 0 {
        assert(system_messages_with(msgs.drop_last(), cs.drop_last()));
        lemma_contents_sum(msgs.drop_last(), cs.drop_last());
        assert(msgs.last().content@ == cs.last());
    }
}

proof fn lemma_contents_fit(msgs: Seq<ChatMessage>, cs: Seq<Seq<char>>, cap: nat, k: nat)
    requires
        system_messages_with(msgs, cs),
        k <= msgs.len(),
    ensures
        crate::lorebook::fitting_prefix_from(msgs, cap, k) == contents_fit(cs, cap, k),
    decreases msgs.len() - k,
{
    if k < msgs.len() {
        assert(system_messages_with(msgs.take(k as int + 1), cs.take(k as int + 1)));
        lemma_contents_sum(msgs.take(k as int + 1), cs.take(k as int + 1));
        lemma_contents_fit(msgs, cs, cap, k + 1);
    }
}

proof fn lemma_contents_fit_bound(cs: Seq<Seq<char>>, cap: nat, k: nat)
    requires
        k <= cs.len(),
    ensures
        k <= contents_fit(cs, cap, k) <= cs.len(),
    decreases cs.len() - k,
{
    if k < cs.len() && contents_sum(cs.take(k as int + 1)) <= cap {
        lemma_contents_fit_bound(cs, cap, k + 1);
    }
}

fn system_message(content: String) -> (m: ChatMessage)
    ensures
        m.role == MessageRole::System,
        m.content@ == content@,
{
    ChatMessage { role: MessageRole::System, content }
}

/// Appends system messages to the prompt.
fn append_layer(
    out: &mut Vec<ChatMessage>,
    more: Vec<ChatMessage>,
    Ghost(done): Ghost<Seq<Seq<char>>>,
    Ghost(layer): Ghost<Seq<Seq<char>>>,
)
    requires
        system_messages_with(old(out)@, done),
        system_messages_with(more@, layer),
    ensures
        system_messages_with(final(out)@, done + layer),
{
    let ghost start = out@;
    let ghost items = more@;
    let mut more = more;
    out.append(&mut more);
    proof {
        assert forall|i: int| 0 <= i < out@.len() implies (#[trigger] out@[i]).role == MessageRole::System
            && out@[i].content@ == (done + layer)[i] by {
            if i < start.len() {
                assert(out@[i] == start[i]);
            } else {
                assert(out@[i] == items[i - start.len()]);
            }
        }
    }
}

fn no_messages() -> (r: Vec<ChatMessage>)
    ensures
        system_messages_with(r@, seq![]),
{
    Vec::new()
}

fn one_message(content: String) -> (r: Vec<ChatMessage>)
    ensures
        system_messages_with(r@, seq![content@]),
{
    let mut v = Vec::new();
    v.push(ChatMessage { role: MessageRole::System, content });
    v
}

fn instruction_msgs(text: &Option<String>) -> (r: Vec<ChatMessage>)
    ensures
        system_messages_with(r@, instruction_layer(*text)),
{
    match text {
        Some(t) => match instruction_message(t.as_str()) {
            Some(m) => {
                let mut v = Vec::new();
                v.push(m);
                v
            },
            None => no_messages(),
        },
        None => no_messages(),
    }
}

fn is_group_cast(pid: &Option<String>, cast: &[MemberCard]) -> (r: bool)
    ensures
        r == is_group(id_view(*pid), cast@),
{
    let mut i: usize = 0;
    while i < cast.len()
        invariant
            i <= cast@.len(),
            forall|j: int| 0 <= j < i ==> !counts_toward_group(id_view(*pid), (#[trigger] cast@[j]).member, cast@[j].promoted),
        decreases cast.len() - i,
    {
        let m = &cast[i].member;
        let is_primary = match pid {
            Some(p) => str_eq(p.as_str(), m.character_id.as_str()),
            None => false,
        };
        if m.is_active && !is_primary && (str_eq(m.role.as_str(), "primary") || str_eq(m.role.as_str(), "secondary")
            || cast[i].promoted) {
            assert(counts_toward_group(id_view(*pid), cast@[i as int].member, cast@[i as int].promoted));
            return true;
        }
        i = i + 1;
    }
    false
}

fn others_names(pid: &str, cast: &[MemberCard]) -> (r: Vec<String>)
    ensures
        string_views(r@) == others_of(pid@, cast@),
{
    let mut out: Vec<String> = Vec::new();
    let mut k: usize = 0;
    while k < cast.len()
        invariant
            k <= cast@.len(),
            string_views(out@) == others_of(pid@, cast@.take(k as int)),
        decreases cast.len() - k,
    {
        proof {
            assert(cast@.take(k as int + 1).drop_last() =~= cast@.take(k as int));
        }
        let m = &cast[k].member;
        if m.is_active && !str_eq(m.character_id.as_str(), pid) {
            let ghost before = string_views(out@);
            out.push(m.character_name.clone());
            proof {
                assert(string_views(out@) =~= before.push(m.character_name@));
            }
        }
        k = k + 1;
    }
    proof {
        assert(cast@.take(cast@.len() as int) =~= cast@);
    }
    out
}

fn character_msgs(inp: &PromptInputs) -> (r: Vec<ChatMessage>)
    ensures
        system_messages_with(r@, character_layer(*inp)),
{
    if is_group_cast(&inp.character_id, inp.cast.as_slice()) {
        let pid: Option<&str> = match &inp.character_id {
            Some(s) => Some(s.as_str()),
            None => None,
        };
        let primary: Option<&(String, CardFields)> = match &inp.character {
            Some(c) => Some(c),
            None => None,
        };
        group_layers(pid, primary, inp.cast.as_slice())
    } else {
        match (&inp.character_id, &inp.character) {
            (Some(id), Some(c)) => {
                let others = others_names(id.as_str(), inp.cast.as_slice());
                one_message(solo_card(c.0.as_str(), &others, &c.1))
            },
            _ => no_messages(),
        }
    }
}

fn persona_msgs(inp: &PromptInputs) -> (r: Vec<ChatMessage>)
    ensures
        system_messages_with(r@, persona_layer(*inp)),
{
    match &inp.persona {
        Some(p) => one_message(about_user_block(p.name.as_str(), p.description.as_str(), p.personality.as_str())),
        None => no_messages(),
    }
}

fn lorebook_msgs(inp: &PromptInputs, chain: &[ChatMessage], cap: usize) -> (r: Vec<ChatMessage>)
    ensures
        system_messages_with(r@, lorebook_layer(*inp, chain@, cap as nat)),
{
    let all = select_lorebook_messages(inp.lorebook_entries.as_slice(), chain);
    let ghost cs = lorebook_contents(inp.lorebook_entries@, chain@);
    proof {
        assert(system_messages_with(all@, cs));
        lemma_contents_fit(all@, cs, cap as nat, 0);
    }
    let ghost all_v = all@;
    let kept = take_within_budget(all, cap);
    proof {
        let k = contents_fit(cs, cap as nat, 0);
        lemma_contents_fit_bound(cs, cap as nat, 0);
        assert(kept@.len() == k);
        assert forall|i: int| 0 <= i < kept@.len() implies (#[trigger] kept@[i]).role == MessageRole::System
            && kept@[i].content@ == cs.take(k as int)[i] by {
            assert(kept@[i] == all_v[i]);
        }
    }
    kept
}

fn cast_memory_msgs(ms: &Vec<(String, Vec<String>)>) -> (r: Vec<ChatMessage>)
    ensures
        system_messages_with(r@, cast_memory_texts(ms@)),
{
    let mut out: Vec<ChatMessage> = Vec::new();
    let mut k: usize = 0;
    while k < ms.len()
        invariant
            k <= ms@.len(),
            system_messages_with(out@, cast_memory_texts(ms@.take(k as int))),
        decreases ms.len() - k,
    {
        proof {
            assert(ms@.take(k as int + 1).drop_last() =~= ms@.take(k as int));
        }
        match character_memory_block(ms[k].0.as_str(), ms[k].1.as_slice()) {
            Some(b) => {
                let ghost before = out@;
                out.push(ChatMessage { role: MessageRole::System, content: b });
                proof {
                    assert forall|i: int| 0 <= i < out@.len() implies (#[trigger] out@[i]).role == MessageRole::System
                        && out@[i].content@ == cast_memory_texts(ms@.take(k as int + 1))[i] by {
                        if i < before.len() {
                            assert(out@[i] == before[i]);
                        }
                    }
                }
            },
            None => {},
        }
        k = k + 1;
    }
    proof {
        assert(ms@.take(ms@.len() as int) =~= ms@);
    }
    out
}

fn memory_msgs(inp: &PromptInputs, group: bool, cap: usize) -> (r: Vec<ChatMessage>)
    ensures
        system_messages_with(r@, memory_layer(*inp, group, cap as nat)),
{
    proof {
        reveal_strlit("none");
    }
    if str_eq(inp.memory_scope.as_str(), "none") {
        return no_messages();
    }
    if group {
        return cast_memory_msgs(&inp.cast_memories);
    }
    let facts: Vec<String> = if inp.semantic_memories.len() > 0 {
        let mut v: Vec<String> = Vec::new();
        let mut i: usize = 0;
        while i < inp.semantic_memories.len()
            invariant
                i <= inp.semantic_memories@.len(),
                v@ == inp.semantic_memories@.take(i as int),
            decreases inp.semantic_memories.len() - i,
        {
            v.push(inp.semantic_memories[i].clone());
            proof {
                assert(v@ =~= inp.semantic_memories@.take(i as int + 1));
            }
            i = i + 1;
        }
        proof {
            assert(inp.semantic_memories@.take(inp.semantic_memories@.len() as int) =~= inp.semantic_memories@);
        }
        v
    } else {
        recent_facts_oldest_first(inp.recent_memories.as_slice(), RECENT_MEMORY_LIMIT)
    };
    assert(facts@ == single_facts(*inp));
    match fit_memory_block(MEMORY_HEADER, facts.as_slice(), cap) {
        Some(m) => {
            let mut v = Vec::new();
            v.push(m);
            v
        },
        None => no_messages(),
    }
}

fn conversation_memory_msgs(inp: &PromptInputs) -> (r: Vec<ChatMessage>)
    ensures
        system_messages_with(r@, conversation_memory_layer(*inp)),
{
    proof {
        reveal_strlit("none");
    }
    let facts = recent_facts_oldest_first(inp.recent_memories.as_slice(), CONVERSATION_MEMORY_LIMIT);
    if str_eq(inp.memory_scope.as_str(), "none") || facts.len() == 0 {
        no_messages()
    } else {
        one_message(format_memory_block(MEMORY_HEADER, facts.as_slice()))
    }
}

fn emotion_msgs(inp: &PromptInputs, group: bool) -> (r: Vec<ChatMessage>)
    ensures
        system_messages_with(r@, emotion_layer(*inp, group)),
{
    if group {
        let cs = &inp.cast_states;
        if cs.len() == 0 {
            return no_messages();
        }
        let mut lines: Vec<String> = Vec::new();
        let mut i: usize = 0;
        while i < cs.len()
            invariant
                i <= cs@.len(),
                string_views(lines@) == Seq::new(i as nat, |j: int| emotional_line_text(cs@[j].0@, cs@[j].1)),
            decreases cs.len() - i,
        {
            let line = emotional_line(cs[i].0.as_str(), &cs[i].1);
            let ghost before = string_views(lines@);
            let ghost lv = line@;
            lines.push(line);
            proof {
                assert(string_views(lines@) =~= before.push(lv));
                assert(string_views(lines@) =~= Seq::new(i as nat + 1, |j: int| emotional_line_text(cs@[j].0@, cs@[j].1)));
            }
            i = i + 1;
        }
        one_message(emotional_states_block(&lines))
    } else {
        match &inp.emotional_state {
            Some(s) => one_message(emotional_state_block(s)),
            None => no_messages(),
        }
    }
}

fn scene_msgs(inp: &PromptInputs) -> (r: Vec<ChatMessage>)
    ensures
        system_messages_with(r@, scene_layer(*inp)),
{
    match &inp.scene {
        Some(sc) => one_message(format_scene_block(&sc.0, &sc.1)),
        None => no_messages(),
    }
}

fn summary_msgs(inp: &PromptInputs) -> (r: Vec<ChatMessage>)
    ensures
        system_messages_with(r@, summary_layer(*inp)),
{
    match &inp.summary {
        Some(s) => {
            let mut v = Vec::new();
            v.push(summary_message(s.as_str()));
            v
        },
        None => no_messages(),
    }
}

/// Whether `p` and `s` are the prompt and statistics assembled from `inp`,
/// the conversation `chain`, the retrieved `lines`, `total_usable` tokens
/// and the layer caps of `limits`: the fixed layers, the history the
/// window keeps under the verbatim-messages share, the retrieved context,
/// and the post-history instructions, with the matching counts.
pub open spec fn assembled(
    inp: PromptInputs,
    chain: Seq<ChatMessage>,
    lines: Seq<String>,
    total_usable: nat,
    limits: crate::budget::ContextBudget,
    p: Seq<ChatMessage>,
    s: ContextStats,
) -> bool {
    let fixed = fixed_contents(inp, chain, limits.max_lorebook_tokens as nat, limits.max_memory_tokens as nat);
    let phi = instruction_layer(inp.post_history_instructions);
    let a = allocation_of(total_usable, contents_tokens(fixed + phi));
    let kept = window_kept(chain, a.messages_budget as nat);
    let evicted = (chain.len() - kept) as nat;
    let rag = rag_layer(inp.character_id is Some, evicted, lines, a.rag_budget as nat);
    let nf: int = fixed.len() as int;
    let nk: int = kept as int;
    let nr: int = rag.len() as int;
    &&& p.len() == nf + nk + nr + phi.len()
    &&& system_messages_with(p.take(nf), fixed)
    &&& p.subrange(nf, nf + nk) == chain.subrange(evicted as int, chain.len() as int)
    &&& system_messages_with(p.subrange(nf + nk, nf + nk + nr), rag)
    &&& system_messages_with(p.subrange(nf + nk + nr, p.len() as int), phi)
    &&& s.total_budget == limits.max_context_tokens
    &&& s.fixed_tokens == contents_tokens(fixed + phi)
    &&& s.history_tokens == suffix_tokens(chain, kept)
    &&& s.summary_tokens == summary_tokens_of(inp)
    &&& s.total_messages == chain.len()
    &&& s.included_messages == kept
    &&& s.evicted_messages == evicted
    &&& s.rag_tokens == rag_layer_tokens(inp.character_id is Some, evicted, lines, a.rag_budget as nat)
}

/// The post-history instructions as a message, when not blank.
fn phi_message(inputs: &PromptInputs) -> (r: Option<ChatMessage>)
    ensures
        instruction_layer(inputs.post_history_instructions).len() == 0 ==> r is None,
        instruction_layer(inputs.post_history_instructions).len() > 0 ==> (r matches Some(m) && m.role
            == MessageRole::System && m.content@ == instruction_layer(inputs.post_history_instructions)[0]),
{
    match &inputs.post_history_instructions {
        Some(t) => instruction_message(t.as_str()),
        None => None,
    }
}

/// Adds the retrieved-context layer (see `rag_layer`).
fn add_rag(
    prompt: &mut Vec<ChatMessage>,
    with_character: bool,
    evicted: usize,
    lines: &[String],
    cap: usize,
) -> (used: usize)
    ensures
        final(prompt)@.len() == old(prompt)@.len() + rag_layer(with_character, evicted as nat, lines@, cap as nat).len(),
        final(prompt)@.take(old(prompt)@.len() as int) == old(prompt)@,
        system_messages_with(
            final(prompt)@.subrange(old(prompt)@.len() as int, final(prompt)@.len() as int),
            rag_layer(with_character, evicted as nat, lines@, cap as nat),
        ),
        used == rag_layer_tokens(with_character, evicted as nat, lines@, cap as nat),
{
    let ghost start = prompt@;
    if evicted == 0 || lines.len() == 0 {
        assert(prompt@.take(start.len() as int) =~= start);
        assert(prompt@.subrange(start.len() as int, prompt@.len() as int) =~= Seq::<ChatMessage>::empty());
        return 0;
    }
    if with_character {
        let used = add_rag_layer(prompt, lines, cap);
        proof {
            match rag_fit_from(lines@, cap as nat, lines@.len()) {
                Some(k) => {
                    assert(prompt@.take(start.len() as int) =~= prompt@.drop_last());
                    let tail = prompt@.subrange(start.len() as int, prompt@.len() as int);
                    assert(tail.len() == 1 && tail[0] == prompt@.last());
                },
                None => {
                    assert(prompt@.take(start.len() as int) =~= start);
                    assert(prompt@.subrange(start.len() as int, prompt@.len() as int) =~= Seq::<ChatMessage>::empty());
                },
            }
        }
        used
    } else {
        let mut content = owned("[Relevant Past Context — retrieved from earlier conversation history]\n");
        let body = join_strings(lines, "\n\n");
        content.append(body.as_str());
        let msg = ChatMessage { role: MessageRole::System, content };
        let t = count_message_tokens(&msg);
        if t <= cap {
            prompt.push(msg);
            proof {
                assert(prompt@.take(start.len() as int) =~= start);
                let tail = prompt@.subrange(start.len() as int, prompt@.len() as int);
                assert(tail.len() == 1 && tail[0] == prompt@.last());
            }
            t
        } else {
            assert(prompt@.take(start.len() as int) =~= start);
            assert(prompt@.subrange(start.len() as int, prompt@.len() as int) =~= Seq::<ChatMessage>::empty());
            0
        }
    }
}

fn fixed_msgs(inputs: &PromptInputs, chain: &[ChatMessage], limits: &crate::budget::ContextBudget) -> (r: Vec<ChatMessage>)
    ensures
        system_messages_with(
            r@,
            fixed_contents(*inputs, chain@, limits.max_lorebook_tokens as nat, limits.max_memory_tokens as nat),
        ),
{
    let mut prompt = instruction_msgs(&inputs.user_system_prompt);
    let ghost f0 = instruction_layer(inputs.user_system_prompt);
    append_layer(&mut prompt, character_msgs(inputs), Ghost(f0), Ghost(character_layer(*inputs)));
    let ghost f1 = f0 + character_layer(*inputs);
    append_layer(&mut prompt, persona_msgs(inputs), Ghost(f1), Ghost(persona_layer(*inputs)));
    let ghost head = f1 + persona_layer(*inputs);
    if inputs.character_id.is_some() {
        let group = is_group_cast(&inputs.character_id, inputs.cast.as_slice());
        let ghost lc = limits.max_lorebook_tokens as nat;
        let ghost mc = limits.max_memory_tokens as nat;
        append_layer(
            &mut prompt,
            lorebook_msgs(inputs, chain, limits.max_lorebook_tokens),
            Ghost(head),
            Ghost(lorebook_layer(*inputs, chain@, lc)),
        );
        let ghost g1 = head + lorebook_layer(*inputs, chain@, lc);
        append_layer(
            &mut prompt,
            memory_msgs(inputs, group, limits.max_memory_tokens),
            Ghost(g1),
            Ghost(memory_layer(*inputs, group, mc)),
        );
        let ghost g2 = g1 + memory_layer(*inputs, group, mc);
        append_layer(&mut prompt, emotion_msgs(inputs, group), Ghost(g2), Ghost(emotion_layer(*inputs, group)));
        let ghost g3 = g2 + emotion_layer(*inputs, group);
        append_layer(&mut prompt, scene_msgs(inputs), Ghost(g3), Ghost(scene_layer(*inputs)));
        let ghost g4 = g3 + scene_layer(*inputs);
        append_layer(&mut prompt, summary_msgs(inputs), Ghost(g4), Ghost(summary_layer(*inputs)));
    } else {
        append_layer(&mut prompt, conversation_memory_msgs(inputs), Ghost(head), Ghost(conversation_memory_layer(*inputs)));
        let ghost g1 = head + conversation_memory_layer(*inputs);
        append_layer(&mut prompt, summary_msgs(inputs), Ghost(g1), Ghost(summary_layer(*inputs)));
    }
    prompt
}

/// Builds the full prompt for a conversation and the statistics of its
/// context window (see `assembled`). `rag_lines` are the retrieved past
/// messages, one line each; `total_usable` is the token budget left once
/// the response is reserved and the safety margin applied. `None` only
/// where the fixed layers' token count does not fit a `usize`.
#[verifier::rlimit(60)]
pub fn assemble_prompt(
    inputs: &PromptInputs,
    chain: &[ChatMessage],
    rag_lines: &[String],
    total_usable: usize,
    limits: &crate::budget::ContextBudget,
) -> (r: Option<(Vec<ChatMessage>, ContextStats)>)
    ensures
        ({
            let fixed = fixed_contents(
                *inputs,
                chain@,
                limits.max_lorebook_tokens as nat,
                limits.max_memory_tokens as nat,
            );
            let t = contents_tokens(fixed + instruction_layer(inputs.post_history_instructions));
            &&& t > usize::MAX ==> r is None
            &&& t <= usize::MAX ==> (r matches Some((p, s)) && assembled(
                *inputs,
                chain@,
                rag_lines@,
                total_usable as nat,
                *limits,
                p@,
                s,
            ))
        }),
{
    let mut prompt = fixed_msgs(inputs, chain, limits);
    let ghost fixed = fixed_contents(*inputs, chain@, limits.max_lorebook_tokens as nat, limits.max_memory_tokens as nat);
    let ghost phi_l = instruction_layer(inputs.post_history_instructions);
    let summary_tokens: usize = match &inputs.summary {
        Some(s) => count_message_tokens(&summary_message(s.as_str())),
        None => 0,
    };
    let phi = phi_message(inputs);
    proof {
        let fb = crate::budget::fixed_for_budget(prompt@, phi);
        assert(system_messages_with(fb, fixed + phi_l)) by {
            assert forall|i: int| 0 <= i < fb.len() implies (#[trigger] fb[i]).role == MessageRole::System
                && fb[i].content@ == (fixed + phi_l)[i] by {
                if i < prompt@.len() {
                    assert(fb[i] == prompt@[i]);
                }
            }
        }
        lemma_contents_sum(fb, fixed + phi_l);
    }
    let planned = plan_history(&prompt, &phi, chain, total_usable);
    let (a, w) = match planned {
        None => {
            return None;
        },
        Some(x) => x,
    };
    let ghost nf: int = prompt@.len() as int;
    let ghost kept: int = w.included@.len() as int;
    let ghost chain_part = w.included@;
    let included_messages = w.included.len();
    let evicted_messages = w.evicted_count;
    let history_tokens = w.included_tokens;
    let mut included = w.included;
    let ghost fixed_part = prompt@;
    prompt.append(&mut included);
    let ghost before_rag = prompt@;
    let rag_tokens = add_rag(&mut prompt, inputs.character_id.is_some(), evicted_messages, rag_lines, a.rag_budget);
    let ghost rag = rag_layer(inputs.character_id is Some, evicted_messages as nat, rag_lines@, a.rag_budget as nat);
    let ghost before_phi = prompt@;
    match phi {
        Some(m) => prompt.push(m),
        None => {},
    }
    let stats = ContextStats {
        total_budget: limits.max_context_tokens,
        fixed_tokens: a.fixed_layers_tokens,
        history_tokens,
        summary_tokens,
        total_messages: chain.len(),
        included_messages,
        evicted_messages,
        rag_tokens,
    };
    proof {
        let p = prompt@;
        let nr: int = rag.len() as int;
        assert(before_rag == fixed_part + chain_part);
        assert(before_phi.take(before_rag.len() as int) == before_rag);
        assert(p.take(before_phi.len() as int) =~= before_phi);
        assert(p.take(nf) =~= fixed_part) by {
            assert(p.take(nf) =~= before_rag.take(nf));
        }
        assert(p.subrange(nf, nf + kept) =~= chain_part) by {
            assert(p.subrange(nf, nf + kept) =~= before_rag.subrange(nf, nf + kept));
        }
        assert(p.subrange(nf + kept, nf + kept + nr) =~= before_phi.subrange(nf + kept, nf + kept + nr));
        let tail = p.subrange(nf + kept + nr, p.len() as int);
        assert forall|i: int| 0 <= i < tail.len() implies (#[trigger] tail[i]).role == MessageRole::System
            && tail[i].content@ == phi_l[i] by {}
    }
    Some((prompt, stats))
}

/// A conversation with a rolling summary gets it as a system message
/// "[Story So Far — summary of earlier conversation]" followed by the
/// summary, placed right before the kept history, with or without a
/// character.
pub proof fn law_summary_precedes_history(
    inp: PromptInputs,
    chain: Seq<ChatMessage>,
    lines: Seq<String>,
    total_usable: nat,
    limits: crate::budget::ContextBudget,
    p: Seq<ChatMessage>,
    s: ContextStats,
)
    requires
        assembled(inp, chain, lines, total_usable, limits, p, s),
        inp.summary is Some,
    ensures
        exists|j: int|
            0 <= j && j + 1 + s.included_messages <= p.len() && (#[trigger] p[j]).role == MessageRole::System
                && p[j].content@ == "[Story So Far — summary of earlier conversation]\n"@ + inp.summary->0@
                && p.subrange(j + 1, j + 1 + s.included_messages) == chain.subrange(
                s.evicted_messages as int,
                chain.len() as int,
            ),
{
    let fixed = fixed_contents(inp, chain, limits.max_lorebook_tokens as nat, limits.max_memory_tokens as nat);
    let nf = fixed.len() as int;
    assert(fixed.len() > 0 && fixed.last() == summary_text(inp.summary->0@));
    let j = nf - 1;
    assert(p.take(nf)[j] == p[j]);
    assert(p[j].content@ == fixed[j]);
    assert(p.subrange(j + 1, j + 1 + s.included_messages) == p.subrange(nf, nf + s.included_messages));
}

/// Every prompt opens, in this order, with the trimmed user system prompt
/// (when not blank), the character layers (the solo card, or the group
/// cards and directive), and the user's persona block (when a persona is
/// active), all as system messages; these come before any history.
pub proof fn law_prompt_opens_with_identity_layers(
    inp: PromptInputs,
    chain: Seq<ChatMessage>,
    lines: Seq<String>,
    total_usable: nat,
    limits: crate::budget::ContextBudget,
    p: Seq<ChatMessage>,
    s: ContextStats,
)
    requires
        assembled(inp, chain, lines, total_usable, limits, p, s),
    ensures
        ({
            let h = instruction_layer(inp.user_system_prompt) + character_layer(inp) + persona_layer(inp);
            &&& h.len() + s.included_messages <= p.len()
            &&& system_messages_with(p.take(h.len() as int), h)
        }),
        inp.persona matches Some(per) ==> ({
            let j = instruction_layer(inp.user_system_prompt).len() + character_layer(inp).len();
            &&& p[j as int].role == MessageRole::System
            &&& p[j as int].content@ == about_user_text(per.name@, per.description@, per.personality@)
        }),
{
    let fixed = fixed_contents(inp, chain, limits.max_lorebook_tokens as nat, limits.max_memory_tokens as nat);
    let h = instruction_layer(inp.user_system_prompt) + character_layer(inp) + persona_layer(inp);
    let nh = h.len() as int;
    assert(fixed.take(nh) =~= h);
    assert forall|i: int| 0 <= i < nh implies (#[trigger] p.take(nh)[i]).role == MessageRole::System
        && p.take(nh)[i].content@ == h[i] by {
        assert(p.take(nh)[i] == p.take(fixed.len() as int)[i]);
        assert(fixed[i] == h[i]);
    }
    if inp.persona is Some {
        let j = instruction_layer(inp.user_system_prompt).len() + character_layer(inp).len();
        assert(p.take(nh)[j as int] == p[j as int]);
        assert(h[j as int] == persona_layer(inp)[0]);
    }
}

/// The shape of every assembled prompt: the trimmed user system prompt,
/// when given, is the first message; the trimmed post-history
/// instructions, when given, are the last; the history kept is one
/// contiguous, in-order run of the chain ending with its newest message;
/// included plus evicted messages make up the whole chain; the total budget
/// is the context length; and no retrieved context means no retrieval tokens.
pub proof fn law_prompt_layout(
    inp: PromptInputs,
    chain: Seq<ChatMessage>,
    lines: Seq<String>,
    total_usable: nat,
    limits: crate::budget::ContextBudget,
    p: Seq<ChatMessage>,
    s: ContextStats,
)
    requires
        assembled(inp, chain, lines, total_usable, limits, p, s),
    ensures
        instruction_layer(inp.user_system_prompt).len() > 0 ==> p[0].role == MessageRole::System && p[0].content@
            == trim_ws(inp.user_system_prompt->0@),
        instruction_layer(inp.post_history_instructions).len() > 0 ==> p.last().role == MessageRole::System
            && p.last().content@ == trim_ws(inp.post_history_instructions->0@),
        s.included_messages + s.evicted_messages == s.total_messages,
        s.total_messages == chain.len(),
        s.total_budget == limits.max_context_tokens,
        ({
            let nf = fixed_contents(inp, chain, limits.max_lorebook_tokens as nat, limits.max_memory_tokens as nat).len();
            p.subrange(nf as int, nf + s.included_messages) == chain.subrange(
                s.evicted_messages as int,
                chain.len() as int,
            )
        }),
        s.evicted_messages + s.included_messages == chain.len() && s.included_messages > 0 ==> chain.last()
            == p[fixed_contents(inp, chain, limits.max_lorebook_tokens as nat, limits.max_memory_tokens as nat).len()
            + s.included_messages - 1],
        rag_layer(
            inp.character_id is Some,
            s.evicted_messages as nat,
            lines,
            allocation_of(
                total_usable,
                contents_tokens(
                    fixed_contents(inp, chain, limits.max_lorebook_tokens as nat, limits.max_memory_tokens as nat)
                        + instruction_layer(inp.post_history_instructions),
                ),
            ).rag_budget as nat,
        ).len() == 0 ==> s.rag_tokens == 0,
{
    let fixed = fixed_contents(inp, chain, limits.max_lorebook_tokens as nat, limits.max_memory_tokens as nat);
    let nf = fixed.len() as int;
    let nk = s.included_messages as int;
    let a = allocation_of(total_usable, contents_tokens(fixed + instruction_layer(inp.post_history_instructions)));
    crate::window::lemma_window_kept_bound(chain, a.messages_budget as nat);
    if instruction_layer(inp.user_system_prompt).len() > 0 {
        let head = instruction_layer(inp.user_system_prompt) + character_layer(inp) + persona_layer(inp);
        assert(head[0] == instruction_layer(inp.user_system_prompt)[0]);
        assert(fixed[0] == head[0]);
        assert(p.take(nf)[0] == p[0]);
    }
    if instruction_layer(inp.post_history_instructions).len() > 0 {
        let nr = rag_layer(inp.character_id is Some, s.evicted_messages as nat, lines, a.rag_budget as nat).len() as int;
        let tail = p.subrange(nf + nk + nr, p.len() as int);
        assert(tail[0] == p.last());
    }
    if s.included_messages > 0 {
        let part = p.subrange(nf, nf + nk);
        assert(part[nk - 1] == p[nf + nk - 1]);
        assert(chain.subrange(s.evicted_messages as int, chain.len() as int)[nk - 1] == chain.last());
    }
}

} // verus!

//! The user prompts of the background model calls: NPC detection, profile
//! generation and refinement, lorebook generation, scene extraction and the
//! rolling summary. Each prompt is a function of its inputs alone.

use vstd::prelude::*;

use crate::error::{truncate_at_char_boundary, truncate_tail_at_char_boundary, truncated_head, truncated_tail};
use crate::models::{ChatMessage, MessageRole};
use crate::records::{ascii_lower, to_ascii_lower};
use crate::text::{chars_of, join_strings, join_with, owned, str_trim, string_views, trim_ws};

verus! {

/// A name the NPC detector flags, with its tag (`recurring` or `pivotal`).
#[derive(Debug, Clone)]
pub struct CandidateTag {
    pub name: String,
    pub tag: String,
}

/// What a profile refresh may change: only these three fields.
#[derive(Debug, Clone)]
pub struct RefinedProfile {
    pub description: String,
    pub personality: String,
    pub scenario: String,
}

/// A lorebook entry as the model generates it, before it is stored.
#[derive(Debug, Clone)]
pub struct GeneratedLorebookEntry {
    pub name: String,
    pub keys: Vec<String>,
    pub content: String,
    pub always_active: bool,
    pub priority: i32,
}

/// A generated entry's `priority` when the model leaves it out.
pub fn default_lorebook_priority() -> (n: i32)
    ensures
        n == 10,
{
    10
}

/// `lines` joined by newlines, or `empty` when there are none.
pub open spec fn listed_or(lines: Seq<Seq<char>>, empty: Seq<char>) -> Seq<char> {
    if lines.len() == 0 { empty } else { join_with(lines, "\n"@) }
}

/// One cast entry as the prompts list it: `- name: description`.
pub open spec fn cast_entry(p: (String, String)) -> Seq<char> {
    "- "@ + p.0@ + ": "@ + p.1@
}

/// The cast entries of a list of `(name, description)` pairs.
pub open spec fn cast_entries(cast: Seq<(String, String)>) -> Seq<Seq<char>> {
    Seq::new(cast.len(), |i: int| cast_entry(cast[i]))
}

/// Each item prefixed by `- `.
pub open spec fn dashed(items: Seq<String>) -> Seq<Seq<char>> {
    Seq::new(items.len(), |i: int| "- "@ + items[i]@)
}

/// A profile field as the prompts show it: `(none)` when blank.
pub open spec fn or_none(s: Seq<char>) -> Seq<char> {
    if trim_ws(s).len() == 0 { "(none)"@ } else { s }
}

/// `str::eq_ignore_ascii_case`, character by character: same length, and
/// equal characters once ASCII letters are lowercased.
pub open spec fn eq_ignore_ascii(a: Seq<char>, b: Seq<char>) -> bool {
    &&& a.len() == b.len()
    &&& forall|i: int| 0 <= i < a.len() ==> ascii_lower(#[trigger] a[i]) == ascii_lower(b[i])
}

fn cast_lines(cast: &[(String, String)]) -> (r: Vec<String>)
    ensures
        string_views(r@) == cast_entries(cast@),
{
    let mut out: Vec<String> = Vec::new();
    let mut k: usize = 0;
    while k < cast.len()
        invariant
            k <= cast@.len(),
            string_views(out@) == cast_entries(cast@).take(k as int),
        decreases cast.len() - k,
    {
        let mut line = owned("- ");
        line.append(cast[k].0.as_str());
        line.append(": ");
        line.append(cast[k].1.as_str());
        assert(line@ == cast_entry(cast@[k as int]));
        let ghost before = string_views(out@);
        out.push(line);
        proof {
            assert(string_views(out@) =~= before.push(line@));
            assert(cast_entries(cast@).take(k as int + 1) =~= cast_entries(cast@).take(k as int).push(cast_entry(cast@[k as int])));
        }
        k = k + 1;
    }
    proof {
        assert(cast_entries(cast@).take(cast@.len() as int) =~= cast_entries(cast@));
    }
    out
}

fn dashed_lines(items: &[String]) -> (r: Vec<String>)
    ensures
        string_views(r@) == dashed(items@),
{
    let mut out: Vec<String> = Vec::new();
    let mut k: usize = 0;
    while k < items.len()
        invariant
            k <= items@.len(),
            string_views(out@) == dashed(items@).take(k as int),
        decreases items.len() - k,
    {
        let mut line = owned("- ");
        line.append(items[k].as_str());
        assert(line@ == "- "@ + items@[k as int]@);
        let ghost before = string_views(out@);
        out.push(line);
        proof {
            assert(string_views(out@) =~= before.push(line@));
            assert(dashed(items@).take(k as int + 1) =~= dashed(items@).take(k as int).push("- "@ + items@[k as int]@));
        }
        k = k + 1;
    }
    proof {
        assert(dashed(items@).take(items@.len() as int) =~= dashed(items@));
    }
    out
}

fn list_or(lines: &Vec<String>, empty: &str) -> (r: String)
    ensures
        r@ == listed_or(string_views(lines@), empty@),
{
    if lines.len() == 0 {
        owned(empty)
    } else {
        join_strings(lines.as_slice(), "\n")
    }
}

/// The cast list of the profile prompts, `empty` when the cast is empty.
pub fn format_cast_list(cast: &[(String, String)], empty: &str) -> (r: String)
    ensures
        r@ == listed_or(cast_entries(cast@), empty@),
{
    let lines = cast_lines(cast);
    list_or(&lines, empty)
}

/// A dashed list of `items`, `empty` when there are none.
pub fn format_dashed_list(items: &[String], empty: &str) -> (r: String)
    ensures
        r@ == listed_or(dashed(items@), empty@),
{
    let lines = dashed_lines(items);
    list_or(&lines, empty)
}

/// A profile field, or `(none)` when it is blank.
pub fn field_or_none(s: &str) -> (r: &str)
    ensures
        r@ == or_none(s@),
{
    let t = str_trim(s);
    if t.unicode_len() == 0 {
        "(none)"
    } else {
        s
    }
}

/// `str::eq_ignore_ascii_case`.
pub fn eq_ignore_ascii_case(a: &str, b: &str) -> (r: bool)
    ensures
        r == eq_ignore_ascii(a@, b@),
{
    let va = chars_of(a);
    let vb = chars_of(b);
    if va.len() != vb.len() {
        return false;
    }
    let mut i: usize = 0;
    while i < va.len()
        invariant
            va@ == a@,
            vb@ == b@,
            va@.len() == vb@.len(),
            i <= va@.len(),
            forall|j: int| 0 <= j < i ==> ascii_lower(#[trigger] a@[j]) == ascii_lower(b@[j]),
        decreases va.len() - i,
    {
        if to_ascii_lower(va[i]) != to_ascii_lower(vb[i]) {
            return false;
        }
        i = i + 1;
    }
    true
}

/// The cast without the entries named like `name` (ignoring ASCII case).
pub open spec fn cast_without(cast: Seq<(String, String)>, name: Seq<char>) -> Seq<(String, String)>
    decreases cast.len(),
{
    if cast.len() == 0 {
        seq![]
    } else if eq_ignore_ascii(cast.last().0@, name) {
        cast_without(cast.drop_last(), name)
    } else {
        cast_without(cast.drop_last(), name).push(cast.last())
    }
}

/// The existing cast handed to the profile generator for a candidate:
/// every entry but the candidate's own placeholder.
pub fn exclude_candidate(cast: &[(String, String)], name: &str) -> (r: Vec<(String, String)>)
    ensures
        r@ == cast_without(cast@, name@),
{
    let mut out: Vec<(String, String)> = Vec::new();
    let mut k: usize = 0;
    while k < cast.len()
        invariant
            k <= cast@.len(),
            out@ == cast_without(cast@.take(k as int), name@),
        decreases cast.len() - k,
    {
        proof {
            assert(cast@.take(k as int + 1).drop_last() =~= cast@.take(k as int));
        }
        if !eq_ignore_ascii_case(cast[k].0.as_str(), name) {
            out.push((cast[k].0.clone(), cast[k].1.clone()));
        }
        k = k + 1;
    }
    proof {
        assert(cast@.take(cast@.len() as int) =~= cast@);
    }
    out
}


/// The user prompt of the NPC detector: the known cast (never to be
/// re-reported) and the first 3000 bytes of the narrative.
pub open spec fn detector_prompt_text(narrative: Seq<char>, known: Seq<String>) -> Seq<char> {
    "KNOWN CAST (never re-report these):\n"@ + (if known.len() == 0 {
        "(none yet)"@
    } else {
        join_with(string_views(known), ", "@)
    }) + "\n\nRECENT NARRATIVE:\n"@ + truncated_head(narrative, 3000)
}

/// Builds the NPC detector's user prompt.
pub fn detector_user_prompt(narrative: &str, known_names: &[String]) -> (r: String)
    ensures
        r@ == detector_prompt_text(narrative@, known_names@),
{
    let known_list = if known_names.len() == 0 {
        owned("(none yet)")
    } else {
        join_strings(known_names, ", ")
    };
    let truncated = truncate_at_char_boundary(narrative, 3000);
    let mut r = owned("KNOWN CAST (never re-report these):\n");
    r.append(known_list.as_str());
    r.append("\n\nRECENT NARRATIVE:\n");
    r.append(truncated);
    r
}

/// The scene text of the profile prompt: `(unknown)` when there is none.
pub open spec fn scene_or_unknown(scene: Option<&str>) -> Seq<char> {
    match scene {
        Some(s) => s@,
        None => "(unknown)"@,
    }
}

/// The user prompt of the profile generator for a new candidate.
pub open spec fn profile_prompt_text(
    name: Seq<char>,
    narrative: Seq<char>,
    scene: Option<&str>,
    cast: Seq<(String, String)>,
) -> Seq<char> {
    "CHARACTER TO PROFILE: "@ + name
        + "\n\nEXISTING CAST (stay consistent — don't contradict or duplicate):\n"@
        + listed_or(cast_entries(cast), "(no other characters yet)"@) + "\n\nCURRENT SCENE:\n"@
        + scene_or_unknown(scene) + "\n\nRECENT NARRATIVE:\n"@ + truncated_head(narrative, 4000)
}

/// Builds the profile generator's user prompt.
pub fn profile_user_prompt(
    candidate_name: &str,
    narrative_context: &str,
    scene_context: Option<&str>,
    existing_cast: &[(String, String)],
) -> (r: String)
    ensures
        r@ == profile_prompt_text(candidate_name@, narrative_context@, scene_context, existing_cast@),
{
    let cast_list = format_cast_list(existing_cast, "(no other characters yet)");
    let truncated = truncate_at_char_boundary(narrative_context, 4000);
    let scene = match scene_context {
        Some(s) => s,
        None => "(unknown)",
    };
    let mut r = owned("CHARACTER TO PROFILE: ");
    r.append(candidate_name);
    r.append("\n\nEXISTING CAST (stay consistent — don't contradict or duplicate):\n");
    r.append(cast_list.as_str());
    r.append("\n\nCURRENT SCENE:\n");
    r.append(scene);
    r.append("\n\nRECENT NARRATIVE:\n");
    r.append(truncated);
    r
}

/// The system prompt of a refresh: the user's own text when it is given
/// and not blank, the built-in one otherwise.
pub open spec fn chosen_system_prompt(custom: Option<&str>, default: Seq<char>) -> Seq<char> {
    match custom {
        Some(s) => if trim_ws(s@).len() > 0 { s@ } else { default },
        None => default,
    }
}

/// Picks the system prompt of a profile refresh.
pub fn select_system_prompt<'a>(custom: Option<&'a str>, default: &'a str) -> (r: &'a str)
    ensures
        r@ == chosen_system_prompt(custom, default@),
{
    match custom {
        Some(s) => {
            if str_trim(s).unicode_len() > 0 {
                s
            } else {
                default
            }
        },
        None => default,
    }
}

/// The user prompt of a profile refresh.
pub open spec fn refine_prompt_text(
    name: Seq<char>,
    description: Seq<char>,
    personality: Seq<char>,
    scenario: Seq<char>,
    facts: Seq<String>,
    dialogue: Seq<char>,
    cast: Seq<(String, String)>,
) -> Seq<char> {
    "CHARACTER: "@ + name + "\n\nCURRENT DESCRIPTION:\n"@ + or_none(description)
        + "\n\nCURRENT PERSONALITY:\n"@ + or_none(personality) + "\n\nCURRENT SCENARIO:\n"@
        + or_none(scenario) + "\n\nKNOWN STORY FACTS (confirmed — don't contradict):\n"@
        + listed_or(dashed(facts), "(none confirmed yet)"@) + "\n\nEXISTING CAST (stay consistent):\n"@
        + listed_or(cast_entries(cast), "(no other characters)"@)
        + "\n\nRECENT STORY DIALOGUE (voice/tone anchor):\n"@ + truncated_tail(dialogue, 6000)
}

/// Builds the user prompt of a profile refresh; the dialogue keeps its
/// last 6000 bytes.
pub fn refine_user_prompt(
    character_name: &str,
    current_description: &str,
    current_personality: &str,
    current_scenario: &str,
    known_facts: &[String],
    recent_dialogue: &str,
    existing_cast: &[(String, String)],
) -> (r: String)
    ensures
        r@ == refine_prompt_text(
            character_name@,
            current_description@,
            current_personality@,
            current_scenario@,
            known_facts@,
            recent_dialogue@,
            existing_cast@,
        ),
{
    let cast_list = format_cast_list(existing_cast, "(no other characters)");
    let facts = format_dashed_list(known_facts, "(none confirmed yet)");
    let truncated = truncate_tail_at_char_boundary(recent_dialogue, 6000);
    let mut r = owned("CHARACTER: ");
    r.append(character_name);
    r.append("\n\nCURRENT DESCRIPTION:\n");
    r.append(field_or_none(current_description));
    r.append("\n\nCURRENT PERSONALITY:\n");
    r.append(field_or_none(current_personality));
    r.append("\n\nCURRENT SCENARIO:\n");
    r.append(field_or_none(current_scenario));
    r.append("\n\nKNOWN STORY FACTS (confirmed — don't contradict):\n");
    r.append(facts.as_str());
    r.append("\n\nEXISTING CAST (stay consistent):\n");
    r.append(cast_list.as_str());
    r.append("\n\nRECENT STORY DIALOGUE (voice/tone anchor):\n");
    r.append(truncated);
    r
}

/// The user prompt of lorebook generation for a character.
pub open spec fn lorebook_prompt_text(
    name: Seq<char>,
    description: Seq<char>,
    personality: Seq<char>,
    scenario: Seq<char>,
    facts: Seq<String>,
    dialogue: Seq<char>,
    existing: Seq<String>,
) -> Seq<char> {
    "CHARACTER: "@ + name + "\n\nDESCRIPTION:\n"@ + or_none(description) + "\n\nPERSONALITY:\n"@
        + or_none(personality) + "\n\nSCENARIO:\n"@ + or_none(scenario) + "\n\nKNOWN STORY FACTS:\n"@
        + listed_or(dashed(facts), "(none confirmed yet)"@)
        + "\n\nEXISTING LOREBOOK ENTRIES (don't duplicate):\n"@ + listed_or(dashed(existing), "(none yet)"@)
        + "\n\nRECENT STORY DIALOGUE:\n"@ + truncated_tail(dialogue, 6000)
}

/// Builds the user prompt of lorebook generation.
pub fn lorebook_user_prompt(
    character_name: &str,
    description: &str,
    personality: &str,
    scenario: &str,
    known_facts: &[String],
    recent_dialogue: &str,
    existing_entry_names: &[String],
) -> (r: String)
    ensures
        r@ == lorebook_prompt_text(
            character_name@,
            description@,
            personality@,
            scenario@,
            known_facts@,
            recent_dialogue@,
            existing_entry_names@,
        ),
{
    let facts = format_dashed_list(known_facts, "(none confirmed yet)");
    let existing = format_dashed_list(existing_entry_names, "(none yet)");
    let truncated = truncate_tail_at_char_boundary(recent_dialogue, 6000);
    let mut r = owned("CHARACTER: ");
    r.append(character_name);
    r.append("\n\nDESCRIPTION:\n");
    r.append(field_or_none(description));
    r.append("\n\nPERSONALITY:\n");
    r.append(field_or_none(personality));
    r.append("\n\nSCENARIO:\n");
    r.append(field_or_none(scenario));
    r.append("\n\nKNOWN STORY FACTS:\n");
    r.append(facts.as_str());
    r.append("\n\nEXISTING LOREBOOK ENTRIES (don't duplicate):\n");
    r.append(existing.as_str());
    r.append("\n\nRECENT STORY DIALOGUE:\n");
    r.append(truncated);
    r
}

/// The scene state assumed when none has been stored yet.
pub open spec fn default_scene_json() -> Seq<char> {
    "{\"location_name\":\"Unknown\",\"location_description\":\"\",\"time_period\":\"unspecified\",\"weather\":\"clear\",\"characters_present\":[],\"ambient_details\":\"\",\"scene_mood\":\"neutral\"}"@
}

/// The user prompt of scene extraction: the current state (or the default
/// one) and the first 2000 bytes of the latest response.
pub open spec fn scene_prompt_text(response: Seq<char>, current: Option<&str>) -> Seq<char> {
    "Current scene state:\n"@ + (match current {
        Some(s) => s@,
        None => default_scene_json(),
    }) + "\n\nLatest narrative response:\n"@ + truncated_head(response, 2000)
}

/// Builds the scene extractor's user prompt.
pub fn scene_user_prompt(ai_response: &str, current_state_json: Option<&str>) -> (r: String)
    ensures
        r@ == scene_prompt_text(ai_response@, current_state_json),
{
    let current = match current_state_json {
        Some(s) => s,
        None => "{\"location_name\":\"Unknown\",\"location_description\":\"\",\"time_period\":\"unspecified\",\"weather\":\"clear\",\"characters_present\":[],\"ambient_details\":\"\",\"scene_mood\":\"neutral\"}",
    };
    let mut r = owned("Current scene state:\n");
    r.append(current);
    r.append("\n\nLatest narrative response:\n");
    r.append(truncate_at_char_boundary(ai_response, 2000));
    r
}

/// One evicted message as the summary prompt shows it; system messages
/// are left out.
pub open spec fn summary_line(m: ChatMessage) -> Seq<char> {
    match m.role {
        MessageRole::User => "**User:** "@ + m.content@ + "\n\n"@,
        MessageRole::Assistant => "**Character:** "@ + m.content@ + "\n\n"@,
        MessageRole::System => seq![],
    }
}

/// The summary lines of a run of messages, in order.
pub open spec fn summary_lines(msgs: Seq<ChatMessage>) -> Seq<char>
    decreases msgs.len(),
{
    if msgs.len() == 0 {
        seq![]
    } else {
        summary_lines(msgs.drop_last()) + summary_line(msgs.last())
    }
}

/// The opening of the summary prompt: the previous summary, if any.
pub open spec fn previous_summary_part(prev: Option<&str>) -> Seq<char> {
    match prev {
        Some(p) => "## Previous Summary\n\n"@ + p@ + "\n\n---\n\n"@,
        None => seq![],
    }
}

/// The user prompt of the rolling summary.
pub open spec fn summary_prompt_text(msgs: Seq<ChatMessage>, prev: Option<&str>) -> Seq<char> {
    previous_summary_part(prev) + "## New Messages to Incorporate\n\n"@ + summary_lines(msgs)
        + "\n---\n\nWrite the updated summary incorporating both the previous summary and the new messages:"@
}

/// Builds the rolling summary's user prompt, or `None` when nothing was
/// evicted and there is nothing to summarise.
pub fn summary_user_prompt(evicted_messages: &[ChatMessage], existing_summary: Option<&str>) -> (r: Option<String>)
    ensures
        evicted_messages@.len() == 0 <==> r is None,
        r matches Some(p) ==> p@ == summary_prompt_text(evicted_messages@, existing_summary),
{
    if evicted_messages.len() == 0 {
        return None;
    }
    let mut r = match existing_summary {
        Some(prev) => {
            let mut s = owned("## Previous Summary\n\n");
            s.append(prev);
            s.append("\n\n---\n\n");
            s
        },
        None => String::new(),
    };
    r.append("## New Messages to Incorporate\n\n");
    let ghost head = r@;
    let mut k: usize = 0;
    while k < evicted_messages.len()
        invariant
            k <= evicted_messages@.len(),
            head == previous_summary_part(existing_summary) + "## New Messages to Incorporate\n\n"@,
            r@ == head + summary_lines(evicted_messages@.take(k as int)),
        decreases evicted_messages.len() - k,
    {
        let msg = &evicted_messages[k];
        let ghost before = r@;
        proof {
            assert(evicted_messages@.take(k as int + 1).drop_last() =~= evicted_messages@.take(k as int));
        }
        match msg.role {
            MessageRole::User => {
                r.append("**User:** ");
                r.append(msg.content.as_str());
                r.append("\n\n");
            },
            MessageRole::Assistant => {
                r.append("**Character:** ");
                r.append(msg.content.as_str());
                r.append("\n\n");
            },
            MessageRole::System => {},
        }
        proof {
            assert(r@ =~= before + summary_line(evicted_messages@[k as int]));
            assert(r@ =~= head + summary_lines(evicted_messages@.take(k as int + 1)));
        }
        k = k + 1;
    }
    r.append("\n---\n\nWrite the updated summary incorporating both the previous summary and the new messages:");
    proof {
        assert(evicted_messages@.take(evicted_messages@.len() as int) =~= evicted_messages@);
    }
    Some(r)
}

} // verus!

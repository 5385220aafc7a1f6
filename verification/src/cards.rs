//! The text blocks of the prompt: character cards, scene directives and
//! state blocks. Field values arrive with `{{user}}` already substituted.

use vstd::prelude::*;
use vstd::string::*;

use crate::models::{ChatMessage, MessageRole};
use crate::prompt::CastMember;
use crate::text::{decimal, join_strings, join_with, owned, push_decimal, str_eq, str_trim, string_push, string_views, trim_ws};

verus! {

/// Signed decimal rendering of an integer.
pub open spec fn signed_decimal(n: int) -> Seq<char> {
    if n < 0 { "-"@ + decimal((-n) as nat) } else { decimal(n as nat) }
}

/// The decimal rendering of `n`, with a leading `-` when negative.
fn i32_to_string(n: i32) -> (s: String)
    ensures
        s@ == signed_decimal(n as int),
{
    let mut s = String::new();
    if n < 0 {
        string_push(&mut s, '-');
        let m: i64 = -(n as i64);
        push_decimal(&mut s, m as u64);
        assert(s@ =~= "-"@ + decimal((-n) as nat)) by {
            reveal_strlit("-");
        }
    } else {
        push_decimal(&mut s, n as u64);
        assert(s@ =~= decimal(n as nat));
    }
    s
}

/// The directive that opens the prompt in group mode, naming everyone present.
pub open spec fn group_directive_text(names: Seq<char>) -> Seq<char> {
    "[Group Scene Directive]\nYou are narrating a group roleplay scene. Multiple characters are present: "@ + names + ".\nWhen responding, write for ALL characters who are relevant to the current moment.\n\nCRITICAL — Response format: You MUST prefix EVERY character's section with their full name in square brackets followed by a colon. This is mandatory and must never be omitted.\n\nExample format:\n[Aria Silverleaf]: *Aria's actions and dialogue here*\n\n[Finn Shadowcloak]: *Finn's actions and dialogue here*\n\nRules:\n- EVERY section of your response MUST start with [FullCharacterName]: — never write character dialogue or actions without this prefix tag\n- When one character speaks TO or about another character present in the scene, the addressed character MUST respond in the same generation. Do not wait for {{user}} input between character exchanges\n- Write natural back-and-forth dialogue between characters when the scene calls for it\n- Normally only respond as characters listed above, never as {{user}}. The one exception: if the current scene lists another character present who ISN'T in the list above, and they're directly addressed, commanded, or the moment truly calls for their own reaction, you may voice them too using the same [FullCharacterName]: format — never invent a name that isn't listed as present in the scene\n- Each character must maintain their distinct voice, personality, and speech patterns\n- Characters with higher talkativeness should respond more frequently and at greater length\n- If a character has nothing meaningful to add, they may be omitted — but characters who are directly addressed, challenged, or asked a question must always respond\n- Never generate {{user}}'s dialogue or actions"@
}

/// The group-scene directive for the given cast names.
pub fn group_scene_directive(cast_names: &Vec<String>) -> (r: String)
    ensures
        r@ == group_directive_text(join_with(string_views(cast_names@), ", "@)),
{
    let names = join_strings(cast_names.as_slice(), ", ");
    let mut r = String::new();
    r.append("[Group Scene Directive]\nYou are narrating a group roleplay scene. Multiple characters are present: ");
    r.append(names.as_str());
    r.append(".\nWhen responding, write for ALL characters who are relevant to the current moment.\n\nCRITICAL — Response format: You MUST prefix EVERY character's section with their full name in square brackets followed by a colon. This is mandatory and must never be omitted.\n\nExample format:\n[Aria Silverleaf]: *Aria's actions and dialogue here*\n\n[Finn Shadowcloak]: *Finn's actions and dialogue here*\n\nRules:\n- EVERY section of your response MUST start with [FullCharacterName]: — never write character dialogue or actions without this prefix tag\n- When one character speaks TO or about another character present in the scene, the addressed character MUST respond in the same generation. Do not wait for {{user}} input between character exchanges\n- Write natural back-and-forth dialogue between characters when the scene calls for it\n- Normally only respond as characters listed above, never as {{user}}. The one exception: if the current scene lists another character present who ISN'T in the list above, and they're directly addressed, commanded, or the moment truly calls for their own reaction, you may voice them too using the same [FullCharacterName]: format — never invent a name that isn't listed as present in the scene\n- Each character must maintain their distinct voice, personality, and speech patterns\n- Characters with higher talkativeness should respond more frequently and at greater length\n- If a character has nothing meaningful to add, they may be omitted — but characters who are directly addressed, challenged, or asked a question must always respond\n- Never generate {{user}}'s dialogue or actions");
    r
}

/// The clause listing the other cast members already in the story.
pub open spec fn cast_clause(others: Seq<Seq<char>>) -> Seq<char> {
    if others.len() == 0 { seq![] } else { " Already part of this story's cast: "@ + join_with(others, ", "@) + "."@ }
}

/// The baseline roleplay contract of solo mode for character `name`.
pub open spec fn roleplay_directive_text(name: Seq<char>, clause: Seq<char>) -> Seq<char> {
    "[Roleplay Directive]\nYou are "@ + name + ". Fully embody this character and respond only as "@ + name + " — never describe, narrate, or speak for the user, and never write from an outside narrator's perspective. Write immersive narrative prose: actions and body language in *asterisks*, spoken dialogue in \"quotes\". Stay grounded in "@ + name + "'s own personality, voice, knowledge, and worldview at all times. Never break character, add out-of-character commentary, disclaimers, or meta-analysis — you ARE "@ + name + " living this scene, not an assistant describing it. Do not summarize, use bullet points, or format like an AI assistant. Drive the scene forward naturally: react, initiate, and let the story progress rather than passively restating what the user just said.\n\n[Other Characters Present] "@ + name + " is not the only person in this scene."@ + clause + " RULE: if another character — someone already established in this story, or someone the current scene clearly introduces — is directly addressed by name, spoken to, commanded, or asked a direct question, you MUST voice their response in this SAME reply — never stop and wait for {{user}}'s next message before they answer. Prefix their section with their full name in brackets, exactly like this:\n\n[FullCharacterName]: *their action* \"their dialogue\"\n\nFor anyone present who ISN'T directly addressed or relevant to this exact moment, stay silent about them — "@ + name + "'s own voice is still the default and should make up most of your response. Never invent a name with no basis anywhere in this story; never use this to speak for {{user}}; if truly no one else was addressed, write only as "@ + name + " and use no bracket markers at all."@
}

/// The roleplay directive for character `name`, with `others` the names of
/// the other cast members already registered in the conversation.
pub fn roleplay_directive(name: &str, others: &Vec<String>) -> (r: String)
    ensures
        r@ == roleplay_directive_text(name@, cast_clause(string_views(others@))),
{
    let clause = if others.len() == 0 {
        String::new()
    } else {
        let mut c = owned(" Already part of this story's cast: ");
        let joined = join_strings(others.as_slice(), ", ");
        c.append(joined.as_str());
        c.append(".");
        c
    };
    let mut r = String::new();
    r.append("[Roleplay Directive]\nYou are ");
    r.append(name);
    r.append(". Fully embody this character and respond only as ");
    r.append(name);
    r.append(" — never describe, narrate, or speak for the user, and never write from an outside narrator's perspective. Write immersive narrative prose: actions and body language in *asterisks*, spoken dialogue in \"quotes\". Stay grounded in ");
    r.append(name);
    r.append("'s own personality, voice, knowledge, and worldview at all times. Never break character, add out-of-character commentary, disclaimers, or meta-analysis — you ARE ");
    r.append(name);
    r.append(" living this scene, not an assistant describing it. Do not summarize, use bullet points, or format like an AI assistant. Drive the scene forward naturally: react, initiate, and let the story progress rather than passively restating what the user just said.\n\n[Other Characters Present] ");
    r.append(name);
    r.append(" is not the only person in this scene.");
    r.append(clause.as_str());
    r.append(" RULE: if another character — someone already established in this story, or someone the current scene clearly introduces — is directly addressed by name, spoken to, commanded, or asked a direct question, you MUST voice their response in this SAME reply — never stop and wait for {{user}}'s next message before they answer. Prefix their section with their full name in brackets, exactly like this:\n\n[FullCharacterName]: *their action* \"their dialogue\"\n\nFor anyone present who ISN'T directly addressed or relevant to this exact moment, stay silent about them — ");
    r.append(name);
    r.append("'s own voice is still the default and should make up most of your response. Never invent a name with no basis anywhere in this story; never use this to speak for {{user}}; if truly no one else was addressed, write only as ");
    r.append(name);
    r.append(" and use no bracket markers at all.");
    r
}

/// The text fields of a character card, each present only when the card
/// has it as a string, with `{{user}}` already substituted.
#[derive(Debug, Clone)]
pub struct CardFields {
    pub system_prompt: Option<String>,
    pub description: Option<String>,
    pub personality: Option<String>,
    pub scenario: Option<String>,
}

/// `[prefix + value]` for a present, non-empty field; nothing otherwise.
pub open spec fn field_part(field: Option<String>, prefix: Seq<char>) -> Seq<Seq<char>> {
    match field {
        Some(v) => if v@.len() > 0 { seq![prefix + v@] } else { seq![] },
        None => seq![],
    }
}

/// Appends `prefix + value` to `parts` for a present, non-empty field.
fn push_field(parts: &mut Vec<String>, field: &Option<String>, prefix: &str)
    ensures
        string_views(final(parts)@) == string_views(old(parts)@) + field_part(*field, prefix@),
{
    let ghost before = string_views(parts@);
    match field {
        Some(v) => {
            if !v.as_str().is_empty() {
                let mut t = owned(prefix);
                t.append(v.as_str());
                parts.push(t);
                assert(string_views(parts@) =~= before + field_part(*field, prefix@));
            } else {
                assert(string_views(parts@) =~= before + field_part(*field, prefix@));
            }
        },
        None => {
            assert(string_views(parts@) =~= before + field_part(*field, prefix@));
        },
    }
}

/// The full card of a primary character in group mode, one part per line.
pub open spec fn primary_card_text(name: Seq<char>, card: CardFields) -> Seq<char> {
    join_with(
        seq!["[Primary Character — "@ + name + "]"@] + field_part(card.system_prompt, seq![])
            + field_part(card.description, "Description: "@) + field_part(card.personality, "Personality: "@)
            + field_part(card.scenario, "Scenario: "@),
        "\n"@,
    )
}

/// The full card of the primary character in group mode.
pub fn primary_card(name: &str, card: &CardFields) -> (r: String)
    ensures
        r@ == primary_card_text(name@, *card),
{
    let mut parts: Vec<String> = Vec::new();
    let mut head = owned("[Primary Character — ");
    head.append(name);
    head.append("]");
    parts.push(head);
    assert(string_views(parts@) =~= seq!["[Primary Character — "@ + name@ + "]"@]);
    proof {
        reveal_strlit("");
        assert(""@ =~= Seq::<char>::empty());
    }
    push_field(&mut parts, &card.system_prompt, "");
    push_field(&mut parts, &card.description, "Description: ");
    push_field(&mut parts, &card.personality, "Personality: ");
    push_field(&mut parts, &card.scenario, "Scenario: ");
    join_strings(parts.as_slice(), "\n")
}

/// The condensed card of a secondary character in group mode.
pub open spec fn secondary_card_text(name: Seq<char>, card: CardFields, talkativeness: i32) -> Seq<char> {
    join_with(
        seq!["[Character — "@ + name + "]"@] + field_part(card.description, "Description: "@) + field_part(
            card.personality,
            "Personality: "@,
        ) + seq!["(Talkativeness: "@ + signed_decimal(talkativeness as int) + "/100)"@],
        "\n"@,
    )
}

/// The condensed card of a secondary character: description, personality
/// and how talkative they are.
pub fn secondary_card(name: &str, card: &CardFields, talkativeness: i32) -> (r: String)
    ensures
        r@ == secondary_card_text(name@, *card, talkativeness),
{
    let mut parts: Vec<String> = Vec::new();
    let mut head = owned("[Character — ");
    head.append(name);
    head.append("]");
    parts.push(head);
    assert(string_views(parts@) =~= seq!["[Character — "@ + name@ + "]"@]);
    push_field(&mut parts, &card.description, "Description: ");
    push_field(&mut parts, &card.personality, "Personality: ");
    let mut tail = owned("(Talkativeness: ");
    let t = i32_to_string(talkativeness);
    tail.append(t.as_str());
    tail.append("/100)");
    let ghost before = string_views(parts@);
    parts.push(tail);
    assert(string_views(parts@) =~= before + seq!["(Talkativeness: "@ + signed_decimal(talkativeness as int) + "/100)"@]);
    join_strings(parts.as_slice(), "\n")
}

/// The minimal card of an NPC in group mode.
pub open spec fn npc_card_text(name: Seq<char>, card: CardFields) -> Seq<char> {
    join_with(
        seq!["[NPC — "@ + name + "]"@] + field_part(card.description, seq![]) + seq![
            "(Minor character — respond briefly when directly involved)"@,
        ],
        "\n"@,
    )
}

/// The minimal card of an NPC: its description and a note to keep it brief.
pub fn npc_card(name: &str, card: &CardFields) -> (r: String)
    ensures
        r@ == npc_card_text(name@, *card),
{
    let mut parts: Vec<String> = Vec::new();
    let mut head = owned("[NPC — ");
    head.append(name);
    head.append("]");
    parts.push(head);
    assert(string_views(parts@) =~= seq!["[NPC — "@ + name@ + "]"@]);
    proof {
        reveal_strlit("");
        assert(""@ =~= Seq::<char>::empty());
    }
    push_field(&mut parts, &card.description, "");
    let ghost before = string_views(parts@);
    parts.push(owned("(Minor character — respond briefly when directly involved)"));
    assert(string_views(parts@) =~= before + seq!["(Minor character — respond briefly when directly involved)"@]);
    join_strings(parts.as_slice(), "\n")
}

/// The system message of solo mode: the roleplay directive, then the
/// card's system prompt, description, personality and scenario, separated
/// by blank lines.
pub open spec fn solo_card_text(name: Seq<char>, others: Seq<Seq<char>>, card: CardFields) -> Seq<char> {
    join_with(
        seq![roleplay_directive_text(name, cast_clause(others))] + field_part(card.system_prompt, seq![])
            + field_part(card.description, "Character Description:\n"@) + field_part(
            card.personality,
            "Personality:\n"@,
        ) + field_part(card.scenario, "Scenario:\n"@),
        "\n\n"@,
    )
}

/// The solo-mode character message for `name`, with `others` the other
/// registered cast members.
pub fn solo_card(name: &str, others: &Vec<String>, card: &CardFields) -> (r: String)
    ensures
        r@ == solo_card_text(name@, string_views(others@), *card),
{
    let mut parts: Vec<String> = Vec::new();
    parts.push(roleplay_directive(name, others));
    assert(string_views(parts@) =~= seq![roleplay_directive_text(name@, cast_clause(string_views(others@)))]);
    proof {
        reveal_strlit("");
        assert(""@ =~= Seq::<char>::empty());
    }
    push_field(&mut parts, &card.system_prompt, "");
    push_field(&mut parts, &card.description, "Character Description:\n");
    push_field(&mut parts, &card.personality, "Personality:\n");
    push_field(&mut parts, &card.scenario, "Scenario:\n");
    join_strings(parts.as_slice(), "\n\n")
}

/// A cast member of a group scene together with its character's card
/// fields (with `{{user}}` already substituted); `card` is `None` when the
/// character could not be loaded.
#[derive(Debug, Clone)]
pub struct MemberCard {
    pub member: CastMember,
    pub card: Option<CardFields>,
    /// Whether the member's character was promoted to the gallery.
    pub promoted: bool,
}

/// The card a cast member gets by role: the full card for "primary", the
/// condensed one for "secondary", the minimal NPC card otherwise.
pub open spec fn member_card_text(m: MemberCard) -> Seq<char> {
    let name = m.member.character_name@;
    let card = m.card->0;
    if m.member.role@ == "primary"@ {
        primary_card_text(name, card)
    } else if m.member.role@ == "secondary"@ {
        secondary_card_text(name, card, m.member.talkativeness)
    } else {
        npc_card_text(name, card)
    }
}

/// The cards of the active members whose character loaded, in cast order.
pub open spec fn member_cards(ms: Seq<MemberCard>) -> Seq<Seq<char>>
    decreases ms.len(),
{
    if ms.len() == 0 {
        seq![]
    } else if ms.last().member.is_active && ms.last().card is Some {
        member_cards(ms.drop_last()).push(member_card_text(ms.last()))
    } else {
        member_cards(ms.drop_last())
    }
}

/// The names of the active members, in cast order.
pub open spec fn active_names(ms: Seq<MemberCard>) -> Seq<Seq<char>>
    decreases ms.len(),
{
    if ms.len() == 0 {
        seq![]
    } else if ms.last().member.is_active {
        active_names(ms.drop_last()).push(ms.last().member.character_name@)
    } else {
        active_names(ms.drop_last())
    }
}

/// Whether the conversation's primary character has an active cast row.
pub open spec fn primary_has_row(primary_id: Seq<char>, ms: Seq<MemberCard>) -> bool {
    exists|i: int| 0 <= i < ms.len() && ms[i].member.is_active && (#[trigger] ms[i]).member.character_id@ == primary_id
}

/// Whether the primary character needs a card of its own: it has no
/// active cast row but was loaded.
pub open spec fn primary_card_needed(primary_id: Option<Seq<char>>, primary: Option<(String, CardFields)>, ms: Seq<MemberCard>) -> bool {
    primary_id is Some && !primary_has_row(primary_id->0, ms) && primary is Some
}

/// The system messages of group mode: the primary's own card when it has
/// no cast row, every active member's card, then the group directive
/// naming everyone present (the primary first when it has no row).
pub open spec fn group_layer_texts(
    primary_id: Option<Seq<char>>,
    primary: Option<(String, CardFields)>,
    ms: Seq<MemberCard>,
) -> Seq<Seq<char>> {
    let needed = primary_card_needed(primary_id, primary, ms);
    let lead: Seq<Seq<char>> = if needed { seq![primary_card_text((primary->0).0@, (primary->0).1)] } else { seq![] };
    let names = if needed { seq![(primary->0).0@] + active_names(ms) } else { active_names(ms) };
    lead + member_cards(ms) + seq![group_directive_text(join_with(names, ", "@))]
}

/// Whether `msgs` are system messages with exactly these contents.
pub open spec fn system_messages_with(msgs: Seq<ChatMessage>, contents: Seq<Seq<char>>) -> bool {
    &&& msgs.len() == contents.len()
    &&& forall|i: int| 0 <= i < msgs.len() ==> (#[trigger] msgs[i]).role == MessageRole::System && msgs[i].content@ == contents[i]
}

fn member_card(m: &MemberCard) -> (r: Option<String>)
    ensures
        m.card is Some ==> (r matches Some(t) && t@ == member_card_text(*m)),
        m.card is None ==> r is None,
{
    match &m.card {
        Some(card) => {
            let name = m.member.character_name.as_str();
            if str_eq(m.member.role.as_str(), "primary") {
                Some(primary_card(name, card))
            } else if str_eq(m.member.role.as_str(), "secondary") {
                Some(secondary_card(name, card, m.member.talkativeness))
            } else {
                Some(npc_card(name, card))
            }
        },
        None => None,
    }
}

/// The character layers of a group-mode prompt (see `group_layer_texts`).
/// `primary` is the conversation's primary character, when it loaded.
pub fn group_layers(primary_id: Option<&str>, primary: Option<&(String, CardFields)>, members: &[MemberCard]) -> (r: Vec<ChatMessage>)
    ensures
        system_messages_with(
            r@,
            group_layer_texts(
                match primary_id {
                    Some(p) => Some(p@),
                    None => None,
                },
                match primary {
                    Some(p) => Some(*p),
                    None => None,
                },
                members@,
            ),
        ),
{
    let ghost pid_view = match primary_id {
        Some(p) => Some(p@),
        None => None::<Seq<char>>,
    };
    let ghost prim = match primary {
        Some(p) => Some(*p),
        None => None::<(String, CardFields)>,
    };
    let mut has_row = false;
    let mut i: usize = 0;
    match primary_id {
        Some(pid) => {
            while i < members.len() && !has_row
                invariant
                    i <= members@.len(),
                    !has_row ==> forall|j: int|
                        0 <= j < i ==> !(members@[j].member.is_active && (#[trigger] members@[j]).member.character_id@ == pid@),
                    has_row ==> primary_has_row(pid@, members@),
                decreases members.len() - i, if has_row { 0int } else { 1int },
            {
                if members[i].member.is_active && str_eq(members[i].member.character_id.as_str(), pid) {
                    has_row = true;
                } else {
                    i = i + 1;
                }
            }
        },
        None => {},
    }
    let needed = primary_id.is_some() && !has_row && primary.is_some();
    assert(needed == primary_card_needed(pid_view, prim, members@));
    let mut out: Vec<ChatMessage> = Vec::new();
    let mut names: Vec<String> = Vec::new();
    if needed {
        match primary {
            Some(p) => {
                out.push(ChatMessage { role: MessageRole::System, content: primary_card(p.0.as_str(), &p.1) });
                names.push(p.0.clone());
            },
            None => {},
        }
    }
    let ghost lead: Seq<Seq<char>> = if needed { seq![primary_card_text((prim->0).0@, (prim->0).1)] } else { seq![] };
    let ghost name_lead: Seq<Seq<char>> = if needed { seq![(prim->0).0@] } else { seq![] };
    let mut k: usize = 0;
    while k < members.len()
        invariant
            k <= members@.len(),
            system_messages_with(out@, lead + member_cards(members@.take(k as int))),
            string_views(names@) == name_lead + active_names(members@.take(k as int)),
        decreases members.len() - k,
    {
        let m = &members[k];
        proof {
            assert(members@.take(k as int + 1).drop_last() =~= members@.take(k as int));
            assert(members@.take(k as int + 1).last() == *m);
        }
        if m.member.is_active {
            let ghost names_before = string_views(names@);
            names.push(m.member.character_name.clone());
            proof {
                assert(string_views(names@) =~= names_before.push(m.member.character_name@));
                assert(name_lead + active_names(members@.take(k as int + 1)) =~= (name_lead + active_names(
                    members@.take(k as int),
                )).push(m.member.character_name@));
            }
            match member_card(m) {
                Some(text) => {
                    let ghost before = out@;
                    out.push(ChatMessage { role: MessageRole::System, content: text });
                    proof {
                        assert(lead + member_cards(members@.take(k as int + 1)) =~= (lead + member_cards(
                            members@.take(k as int),
                        )).push(member_card_text(*m)));
                        assert forall|j: int| 0 <= j < out@.len() implies (#[trigger] out@[j]).role == MessageRole::System
                            && out@[j].content@ == (lead + member_cards(members@.take(k as int + 1)))[j] by {
                            if j < before.len() {
                                assert(out@[j] == before[j]);
                            }
                        }
                    }
                },
                None => {
                    proof {
                        assert(lead + member_cards(members@.take(k as int + 1)) =~= lead + member_cards(
                            members@.take(k as int),
                        ));
                    }
                },
            }
        } else {
            proof {
                assert(lead + member_cards(members@.take(k as int + 1)) =~= lead + member_cards(members@.take(k as int)));
                assert(name_lead + active_names(members@.take(k as int + 1)) =~= name_lead + active_names(
                    members@.take(k as int),
                ));
            }
        }
        k = k + 1;
    }
    proof {
        assert(members@.take(members@.len() as int) =~= members@);
    }
    let directive = group_scene_directive(&names);
    let ghost before = out@;
    out.push(ChatMessage { role: MessageRole::System, content: directive });
    proof {
        let names_spec = if needed { seq![(prim->0).0@] + active_names(members@) } else { active_names(members@) };
        assert(string_views(names@) =~= names_spec);
        assert forall|j: int| 0 <= j < out@.len() implies (#[trigger] out@[j]).role == MessageRole::System
            && out@[j].content@ == group_layer_texts(pid_view, prim, members@)[j] by {
            if j < before.len() {
                assert(out@[j] == before[j]);
            }
        }
    }
    out
}

/// The "About the User" block for the active persona.
pub open spec fn about_user_text(name: Seq<char>, description: Seq<char>, personality: Seq<char>) -> Seq<char> {
    "[About the User]\nYou are speaking with "@ + name + "."@ + (if description.len() > 0 { " "@ + description } else { seq![] })
        + (if personality.len() > 0 { " "@ + personality } else { seq![] })
}

/// Tells the model who it is roleplaying with when a persona is selected.
pub fn about_user_block(name: &str, description: &str, personality: &str) -> (r: String)
    ensures
        r@ == about_user_text(name@, description@, personality@),
{
    let mut about = owned("[About the User]\nYou are speaking with ");
    about.append(name);
    about.append(".");
    if !description.is_empty() {
        about.append(" ");
        about.append(description);
    }
    if !personality.is_empty() {
        about.append(" ");
        about.append(personality);
    }
    about
}

/// A character's emotional state in a conversation.
#[derive(Debug, Clone)]
pub struct EmotionalState {
    pub mood: i32,
    pub trust: i32,
    pub arousal: i32,
    pub dominant_emotion: String,
    pub state_summary: String,
}

/// The emotional-state block of solo mode.
pub open spec fn emotional_state_text(s: EmotionalState) -> Seq<char> {
    "[Current Emotional State]\nDominant emotion: "@ + s.dominant_emotion@ + "\nMood: "@ + signed_decimal(s.mood as int)
        + "/100  Trust: "@ + signed_decimal(s.trust as int) + "/100  Intensity: "@ + signed_decimal(s.arousal as int)
        + "/100\nInternal state: "@ + s.state_summary@
        + "\n(Let this emotional state colour your response naturally — do not announce or describe it explicitly.)"@
}

/// Renders the character's emotional state for the prompt.
pub fn emotional_state_block(s: &EmotionalState) -> (r: String)
    ensures
        r@ == emotional_state_text(*s),
{
    let mut r = owned("[Current Emotional State]\nDominant emotion: ");
    r.append(s.dominant_emotion.as_str());
    r.append("\nMood: ");
    let m = i32_to_string(s.mood);
    r.append(m.as_str());
    r.append("/100  Trust: ");
    let t = i32_to_string(s.trust);
    r.append(t.as_str());
    r.append("/100  Intensity: ");
    let a = i32_to_string(s.arousal);
    r.append(a.as_str());
    r.append("/100\nInternal state: ");
    r.append(s.state_summary.as_str());
    r.append("\n(Let this emotional state colour your response naturally — do not announce or describe it explicitly.)");
    r
}

/// One character's line in the group emotional-states block.
pub open spec fn emotional_line_text(name: Seq<char>, s: EmotionalState) -> Seq<char> {
    "  "@ + name + " — "@ + s.dominant_emotion@ + " (mood:"@ + signed_decimal(s.mood as int) + "/100 trust:"@
        + signed_decimal(s.trust as int) + "/100 intensity:"@ + signed_decimal(s.arousal as int) + "/100) — "@
        + s.state_summary@
}

/// One character's line in the group emotional-states block.
pub fn emotional_line(name: &str, s: &EmotionalState) -> (r: String)
    ensures
        r@ == emotional_line_text(name@, *s),
{
    let mut r = owned("  ");
    r.append(name);
    r.append(" — ");
    r.append(s.dominant_emotion.as_str());
    r.append(" (mood:");
    let m = i32_to_string(s.mood);
    r.append(m.as_str());
    r.append("/100 trust:");
    let t = i32_to_string(s.trust);
    r.append(t.as_str());
    r.append("/100 intensity:");
    let a = i32_to_string(s.arousal);
    r.append(a.as_str());
    r.append("/100) — ");
    r.append(s.state_summary.as_str());
    r
}

/// The group emotional-states block around the characters' lines.
pub open spec fn emotional_states_text(lines: Seq<Seq<char>>) -> Seq<char> {
    "[Current Emotional States]\n"@ + join_with(lines, "\n"@)
        + "\n(Let these emotional states colour each character's response naturally.)"@
}

/// Wraps the characters' emotional-state lines for group mode.
pub fn emotional_states_block(lines: &Vec<String>) -> (r: String)
    ensures
        r@ == emotional_states_text(string_views(lines@)),
{
    let mut r = owned("[Current Emotional States]\n");
    let joined = join_strings(lines.as_slice(), "\n");
    r.append(joined.as_str());
    r.append("\n(Let these emotional states colour each character's response naturally.)");
    r
}

/// The rolling-summary message content.
pub open spec fn summary_text(summary: Seq<char>) -> Seq<char> {
    "[Story So Far — summary of earlier conversation]\n"@ + summary
}

/// The rolling summary as a system message.
pub fn summary_message(summary: &str) -> (m: ChatMessage)
    ensures
        m.role == MessageRole::System,
        m.content@ == summary_text(summary@),
{
    let mut c = owned("[Story So Far — summary of earlier conversation]\n");
    c.append(summary);
    ChatMessage { role: MessageRole::System, content: c }
}

/// A user-configured instruction (the global system prompt, or the
/// post-history instructions) as a system message: trimmed, and left out
/// when nothing but whitespace.
pub fn instruction_message(text: &str) -> (r: Option<ChatMessage>)
    ensures
        trim_ws(text@).len() == 0 ==> r is None,
        trim_ws(text@).len() > 0 ==> (r matches Some(m) && m.role == MessageRole::System && m.content@ == trim_ws(text@)),
{
    let t = str_trim(text);
    if t.is_empty() {
        None
    } else {
        Some(ChatMessage { role: MessageRole::System, content: owned(t) })
    }
}

} // verus!

//! One detection pass over a finished reply, as a state machine: the caller
//! performs each action (a store read or write, a model call) and feeds the
//! reply back as the next event.
//!
//! A pass first counts the message toward the cadence; when it is not due
//! it stops there, before any model call. Otherwise it loads the known
//! cast, asks the detector for significant names, and handles each name in
//! turn: a name of an established cast member only refreshes a placeholder
//! profile; any other name is looked up and its sighting counted (a brand
//! new one also gets a placeholder in the cast). Last, the candidates that
//! crossed the two-pass debounce get full profiles.

use vstd::prelude::*;

use crate::llm_prompts::{detector_prompt_text, detector_user_prompt};
use crate::npc::{
    already_seen, bump_and_check_due, candidate_action, candidate_is_debounced, candidate_key,
    candidate_key_of, classify_candidate, is_debounced, next_pass_count, pass_count_after, CandidateAction,
    CastRow, DetectionState, NPC_DETECTION_CADENCE,
};
use crate::text::string_views;

verus! {

/// Where a detection pass stands.
#[derive(Debug, Clone, Copy, PartialEq, Eq, Structural)]
pub enum DetectionPhase {
    /// Waiting for the stored cadence counter.
    Counting,
    /// Waiting for the known cast.
    LoadingCast,
    /// Waiting for the detector's names.
    Detecting,
    /// Handling the detected names one by one.
    Classifying,
    /// Waiting for the stored record of the name being handled.
    LookingUp,
    /// Waiting for the candidates of the conversation.
    CollectingDebounced,
    /// Nothing left to do.
    Finished,
}

/// The state of one detection pass.
#[derive(Debug, Clone)]
pub struct DetectionRun {
    pub phase: DetectionPhase,
    /// The finished reply's message id.
    pub message_id: String,
    /// The finished reply's text.
    pub narrative: String,
    /// Whether the scene extractor flagged a notable character event.
    pub forced: bool,
    /// `(name, id)` of everyone already in the cast.
    pub known: Vec<(String, String)>,
    /// The conversation's primary character.
    pub primary_id: Option<String>,
    /// The cast rows and their roles.
    pub cast: Vec<CastRow>,
    /// The detected `(name, tag)` pairs.
    pub candidates: Vec<(String, String)>,
    /// The next detected name to handle.
    pub next: usize,
}

/// A reply from the store or the model.
#[derive(Debug, Clone)]
pub enum DetectionEvent {
    /// The conversation's stored cadence counter.
    Counter(DetectionState),
    /// The known cast: the names the detector must not re-report, the
    /// `(name, id)` pairs of the cast, the primary character and the rows.
    Cast {
        known_names: Vec<String>,
        known: Vec<(String, String)>,
        primary_id: Option<String>,
        cast: Vec<CastRow>,
    },
    /// The detector's `(name, tag)` pairs.
    Candidates(Vec<(String, String)>),
    /// The previous action was carried out.
    Continue,
    /// The stored record of the name being handled: its pass count, if the
    /// name was seen before, and whether it already has a character.
    Record { pass_count: Option<i32>, has_character: bool },
    /// The conversation's candidates: display name, pass count and status.
    Debounced(Vec<(String, i32, String)>),
}

/// What the caller does next.
#[derive(Debug, Clone)]
pub enum DetectionAction {
    /// Store the counter; then load the cast when `continue_pass`, else stop.
    SaveCounter { state: DetectionState, continue_pass: bool },
    /// Ask the detector, with this user prompt.
    Detect { prompt: String },
    /// Refresh the still-placeholder profile of this established character.
    RefreshPlaceholder { character_id: String },
    /// Read the stored record of the candidate with this key.
    LookUp { key: String },
    /// Store a sighting; register a placeholder character when asked.
    StoreSighting { key: String, name: String, tag: String, pass_count: i32, register_placeholder: bool },
    /// Read the conversation's candidates.
    LoadCandidates,
    /// Generate full profiles for these candidates.
    GenerateProfiles { names: Vec<String> },
    /// The pass is over.
    Stop,
    /// The event does not fit the phase; nothing happens.
    Ignore,
}

/// What an action asks for, with its text as characters.
pub enum DetectionActionView {
    SaveCounter { messages_since_scan: i32, last_scanned: Option<Seq<char>>, continue_pass: bool },
    Detect { prompt: Seq<char> },
    RefreshPlaceholder { character_id: Seq<char> },
    LookUp { key: Seq<char> },
    StoreSighting { key: Seq<char>, name: Seq<char>, tag: Seq<char>, pass_count: int, register_placeholder: bool },
    LoadCandidates,
    GenerateProfiles { names: Seq<Seq<char>> },
    Stop,
    Ignore,
}

impl View for DetectionAction {
    type V = DetectionActionView;

    open spec fn view(&self) -> DetectionActionView {
        match self {
            DetectionAction::SaveCounter { state, continue_pass } => DetectionActionView::SaveCounter {
                messages_since_scan: state.messages_since_scan,
                last_scanned: pid_view(state.last_scanned_message_id),
                continue_pass: *continue_pass,
            },
            DetectionAction::Detect { prompt } => DetectionActionView::Detect { prompt: prompt@ },
            DetectionAction::RefreshPlaceholder { character_id } => DetectionActionView::RefreshPlaceholder {
                character_id: character_id@,
            },
            DetectionAction::LookUp { key } => DetectionActionView::LookUp { key: key@ },
            DetectionAction::StoreSighting { key, name, tag, pass_count, register_placeholder } =>
                DetectionActionView::StoreSighting {
                key: key@,
                name: name@,
                tag: tag@,
                pass_count: *pass_count as int,
                register_placeholder: *register_placeholder,
            },
            DetectionAction::LoadCandidates => DetectionActionView::LoadCandidates,
            DetectionAction::GenerateProfiles { names } => DetectionActionView::GenerateProfiles {
                names: string_views(names@),
            },
            DetectionAction::Stop => DetectionActionView::Stop,
            DetectionAction::Ignore => DetectionActionView::Ignore,
        }
    }
}

/// A new pass for a finished reply.
pub fn start_detection(message_id: String, narrative: String, forced: bool) -> (r: DetectionRun)
    ensures
        r.phase == DetectionPhase::Counting,
        r.message_id == message_id,
        r.narrative == narrative,
        r.forced == forced,
        r.candidates@.len() == 0,
        r.next == 0,
{
    DetectionRun {
        phase: DetectionPhase::Counting,
        message_id,
        narrative,
        forced,
        known: Vec::new(),
        primary_id: None,
        cast: Vec::new(),
        candidates: Vec::new(),
        next: 0,
    }
}

/// The primary id as characters.
pub open spec fn pid_view(p: Option<String>) -> Option<Seq<char>> {
    match p {
        Some(s) => Some(s@),
        None => None,
    }
}

/// How the name being handled is treated: `Some(id)` with the pending
/// flag when it resolves to a known character, `None` for a new name.
pub open spec fn current_action(s: DetectionRun) -> (Option<Seq<char>>, bool) {
    candidate_action(s.candidates@[s.next as int].0@, s.known@, pid_view(s.primary_id), s.cast@)
}

/// The names of the candidates that crossed the debounce, in order.
pub open spec fn debounced_names(cs: Seq<(String, i32, String)>) -> Seq<Seq<char>>
    decreases cs.len(),
{
    if cs.len() == 0 {
        seq![]
    } else if is_debounced(cs.last().1, cs.last().2@) {
        debounced_names(cs.drop_last()).push(cs.last().0@)
    } else {
        debounced_names(cs.drop_last())
    }
}

/// The pass's context is unchanged by a step.
spec fn same_context(a: DetectionRun, b: DetectionRun) -> bool {
    &&& a.message_id == b.message_id
    &&& a.narrative == b.narrative
    &&& a.forced == b.forced
    &&& a.known == b.known
    &&& a.primary_id == b.primary_id
    &&& a.cast == b.cast
    &&& a.candidates == b.candidates
}

/// Moving on to the next detected name (or, past the last one, to the
/// debounced candidates): what `s2` and `act` must be.
spec fn advance_holds(s: DetectionRun, s2: DetectionRun, act: DetectionAction) -> bool {
    &&& same_context(s, s2)
    &&& if s.next >= s.candidates@.len() {
        &&& s2.phase == DetectionPhase::CollectingDebounced
        &&& s2.next == s.next
        &&& act is LoadCandidates
    } else {
        match current_action(s) {
            (Some(id), false) => {
                &&& s2.phase == DetectionPhase::Classifying
                &&& s2.next == s.next + 1
                &&& act matches DetectionAction::RefreshPlaceholder { character_id } && character_id@ == id
            },
            _ => {
                &&& s2.phase == DetectionPhase::LookingUp
                &&& s2.next == s.next
                &&& act matches DetectionAction::LookUp { key } && key@ == candidate_key_of(s.candidates@[s.next as int].0@)
            },
        }
    }
}

/// The transition of a detection pass on one event.
spec fn detection_transition_holds(s: DetectionRun, e: DetectionEvent, r: (DetectionRun, DetectionAction)) -> bool {
    let (s2, act) = r;
    match (s.phase, e) {
        (DetectionPhase::Counting, DetectionEvent::Counter(st)) => {
            &&& same_context(s, s2)
            &&& s2.next == s.next
            &&& if already_seen(st, s.message_id@) {
                s2.phase == DetectionPhase::Finished && act is Stop
            } else {
                let since = st.messages_since_scan + 1;
                let due = s.forced || since >= NPC_DETECTION_CADENCE;
                &&& act matches DetectionAction::SaveCounter { state, continue_pass } && continue_pass == due
                    && state.messages_since_scan == (if due { 0 } else { since }) && state.last_scanned_message_id
                    is Some && state.last_scanned_message_id->0@ == s.message_id@
                &&& s2.phase == (if due { DetectionPhase::LoadingCast } else { DetectionPhase::Finished })
            }
        },
        (DetectionPhase::LoadingCast, DetectionEvent::Cast { known_names, known, primary_id, cast }) => {
            &&& s2.phase == DetectionPhase::Detecting
            &&& s2.message_id == s.message_id && s2.narrative == s.narrative && s2.forced == s.forced
            &&& s2.known == known && s2.primary_id == primary_id && s2.cast == cast
            &&& s2.candidates == s.candidates && s2.next == s.next
            &&& act matches DetectionAction::Detect { prompt } && prompt@ == detector_prompt_text(
                s.narrative@,
                known_names@,
            )
        },
        (DetectionPhase::Detecting, DetectionEvent::Candidates(cs)) => {
            let s1 = DetectionRun { candidates: cs, next: 0, phase: DetectionPhase::Classifying, ..s };
            advance_holds(s1, s2, act)
        },
        (DetectionPhase::Classifying, DetectionEvent::Continue) => advance_holds(s, s2, act),
        (DetectionPhase::LookingUp, DetectionEvent::Record { pass_count, has_character }) => {
            let c = s.candidates@[s.next as int];
            &&& same_context(s, s2)
            &&& s2.phase == DetectionPhase::Classifying
            &&& s2.next == s.next + 1
            &&& act matches DetectionAction::StoreSighting { key, name, tag, pass_count: n, register_placeholder }
                && key@ == candidate_key_of(c.0@) && name@ == c.0@ && tag@ == c.1@ && n == pass_count_after(
                pass_count,
                c.1@,
            ) && register_placeholder == (current_action(s).0 is None && !has_character)
        },
        (DetectionPhase::CollectingDebounced, DetectionEvent::Debounced(cs)) => {
            &&& same_context(s, s2)
            &&& s2.next == s.next
            &&& s2.phase == DetectionPhase::Finished
            &&& if debounced_names(cs@).len() == 0 {
                act is Stop
            } else {
                act matches DetectionAction::GenerateProfiles { names } && string_views(names@) == debounced_names(cs@)
            }
        },
        _ => r.0 == s && act is Ignore,
    }
}

/// Moving on to the next detected name, or past the last one to the
/// debounced candidates: the next state and action.
pub open spec fn advance_to(s: DetectionRun) -> (DetectionRun, DetectionActionView) {
    if s.next >= s.candidates@.len() {
        (DetectionRun { phase: DetectionPhase::CollectingDebounced, ..s }, DetectionActionView::LoadCandidates)
    } else {
        match current_action(s) {
            (Some(id), false) => (
                DetectionRun { phase: DetectionPhase::Classifying, next: (s.next + 1) as usize, ..s },
                DetectionActionView::RefreshPlaceholder { character_id: id },
            ),
            _ => (
                DetectionRun { phase: DetectionPhase::LookingUp, ..s },
                DetectionActionView::LookUp { key: candidate_key_of(s.candidates@[s.next as int].0@) },
            ),
        }
    }
}

/// The transition of a detection pass on one event: the next state and
/// the action the caller performs.
pub open spec fn detection_transition(s: DetectionRun, e: DetectionEvent) -> (DetectionRun, DetectionActionView) {
    match (s.phase, e) {
        (DetectionPhase::Counting, DetectionEvent::Counter(st)) => {
            if already_seen(st, s.message_id@) {
                (DetectionRun { phase: DetectionPhase::Finished, ..s }, DetectionActionView::Stop)
            } else {
                let since = st.messages_since_scan + 1;
                let due = s.forced || since >= NPC_DETECTION_CADENCE;
                (
                    DetectionRun {
                        phase: if due { DetectionPhase::LoadingCast } else { DetectionPhase::Finished },
                        ..s
                    },
                    DetectionActionView::SaveCounter {
                        messages_since_scan: (if due { 0 } else { since }) as i32,
                        last_scanned: Some(s.message_id@),
                        continue_pass: due,
                    },
                )
            }
        },
        (DetectionPhase::LoadingCast, DetectionEvent::Cast { known_names, known, primary_id, cast }) => (
            DetectionRun { phase: DetectionPhase::Detecting, known, primary_id, cast, ..s },
            DetectionActionView::Detect { prompt: detector_prompt_text(s.narrative@, known_names@) },
        ),
        (DetectionPhase::Detecting, DetectionEvent::Candidates(cs)) => advance_to(
            DetectionRun { candidates: cs, next: 0, phase: DetectionPhase::Classifying, ..s },
        ),
        (DetectionPhase::Classifying, DetectionEvent::Continue) => advance_to(s),
        (DetectionPhase::LookingUp, DetectionEvent::Record { pass_count, has_character }) => {
            let c = s.candidates@[s.next as int];
            (
                DetectionRun { phase: DetectionPhase::Classifying, next: (s.next + 1) as usize, ..s },
                DetectionActionView::StoreSighting {
                    key: candidate_key_of(c.0@),
                    name: c.0@,
                    tag: c.1@,
                    pass_count: pass_count_after(pass_count, c.1@),
                    register_placeholder: current_action(s).0 is None && !has_character,
                },
            )
        },
        (DetectionPhase::CollectingDebounced, DetectionEvent::Debounced(cs)) => (
            DetectionRun { phase: DetectionPhase::Finished, ..s },
            if debounced_names(cs@).len() == 0 {
                DetectionActionView::Stop
            } else {
                DetectionActionView::GenerateProfiles { names: debounced_names(cs@) }
            },
        ),
        _ => (s, DetectionActionView::Ignore),
    }
}

/// What the transition asks of the events it accepts: a looked-up name
/// is one of the detected names, and a stored counter or pass count can
/// still be incremented.
pub open spec fn step_well_formed(s: DetectionRun, e: DetectionEvent) -> bool {
    &&& (s.phase == DetectionPhase::LookingUp ==> s.next < s.candidates@.len())
    &&& (e matches DetectionEvent::Counter(st) ==> st.messages_since_scan < i32::MAX)
    &&& (e matches DetectionEvent::Record { pass_count, .. } ==> pass_count != Some(i32::MAX))
    &&& s.next <= s.candidates@.len()
}

fn advance(s: DetectionRun) -> (r: (DetectionRun, DetectionAction))
    requires
        s.next <= s.candidates@.len(),
    ensures
        advance_holds(s, r.0, r.1),
        r.0.next <= r.0.candidates@.len(),
        r.0.phase == DetectionPhase::LookingUp ==> r.0.next < r.0.candidates@.len(),
{
    let mut s = s;
    if s.next >= s.candidates.len() {
        s.phase = DetectionPhase::CollectingDebounced;
        return (s, DetectionAction::LoadCandidates);
    }
    let i = s.next;
    let pid: Option<&str> = match &s.primary_id {
        Some(p) => Some(p.as_str()),
        None => None,
    };
    let kind = classify_candidate(s.candidates[i].0.as_str(), s.known.as_slice(), pid, s.cast.as_slice());
    match kind {
        CandidateAction::Established(id) => {
            s.next = i + 1;
            s.phase = DetectionPhase::Classifying;
            (s, DetectionAction::RefreshPlaceholder { character_id: id })
        },
        _ => {
            let key = candidate_key(s.candidates[i].0.as_str());
            s.phase = DetectionPhase::LookingUp;
            (s, DetectionAction::LookUp { key })
        },
    }
}

fn step_counter(s: DetectionRun, st: DetectionState) -> (r: (DetectionRun, DetectionAction))
    requires
        s.phase == DetectionPhase::Counting,
        st.messages_since_scan < i32::MAX,
        s.next <= s.candidates@.len(),
    ensures
        detection_transition_holds(s, DetectionEvent::Counter(st), r),
        r.0.next <= r.0.candidates@.len(),
        r.0.phase != DetectionPhase::LookingUp,
{
    let mut s2 = s;
    let tick = bump_and_check_due(&st, s2.message_id.as_str(), s2.forced, NPC_DETECTION_CADENCE);
    match tick.next_state {
        None => {
            s2.phase = DetectionPhase::Finished;
            (s2, DetectionAction::Stop)
        },
        Some(next_state) => {
            s2.phase = if tick.due { DetectionPhase::LoadingCast } else { DetectionPhase::Finished };
            (s2, DetectionAction::SaveCounter { state: next_state, continue_pass: tick.due })
        },
    }
}

fn step_cast(
    s: DetectionRun,
    known_names: Vec<String>,
    known: Vec<(String, String)>,
    primary_id: Option<String>,
    cast: Vec<CastRow>,
) -> (r: (DetectionRun, DetectionAction))
    requires
        s.phase == DetectionPhase::LoadingCast,
        s.next <= s.candidates@.len(),
    ensures
        detection_transition_holds(s, DetectionEvent::Cast { known_names, known, primary_id, cast }, r),
        r.0.next <= r.0.candidates@.len(),
        r.0.phase != DetectionPhase::LookingUp,
{
    let mut s2 = s;
    let prompt = detector_user_prompt(s2.narrative.as_str(), known_names.as_slice());
    s2.known = known;
    s2.primary_id = primary_id;
    s2.cast = cast;
    s2.phase = DetectionPhase::Detecting;
    (s2, DetectionAction::Detect { prompt })
}

fn step_record(s: DetectionRun, pass_count: Option<i32>, has_character: bool) -> (r: (DetectionRun, DetectionAction))
    requires
        s.phase == DetectionPhase::LookingUp,
        s.next < s.candidates@.len(),
        pass_count != Some(i32::MAX),
    ensures
        detection_transition_holds(s, DetectionEvent::Record { pass_count, has_character }, r),
        r.0.next <= r.0.candidates@.len(),
        r.0.phase != DetectionPhase::LookingUp,
{
    let mut s2 = s;
    let i = s2.next;
    let n = s2.candidates.len();
    assert(i < n);
    let pid: Option<&str> = match &s2.primary_id {
        Some(p) => Some(p.as_str()),
        None => None,
    };
    let kind = classify_candidate(s2.candidates[i].0.as_str(), s2.known.as_slice(), pid, s2.cast.as_slice());
    let is_new = match kind {
        CandidateAction::Track => true,
        _ => false,
    };
    let count = next_pass_count(pass_count, s2.candidates[i].1.as_str());
    let key = candidate_key(s2.candidates[i].0.as_str());
    let name = s2.candidates[i].0.clone();
    let tag = s2.candidates[i].1.clone();
    s2.next = i + 1;
    s2.phase = DetectionPhase::Classifying;
    (s2, DetectionAction::StoreSighting { key, name, tag, pass_count: count, register_placeholder: is_new && !has_character })
}

fn step_debounced(s: DetectionRun, cs: Vec<(String, i32, String)>) -> (r: (DetectionRun, DetectionAction))
    requires
        s.phase == DetectionPhase::CollectingDebounced,
        s.next <= s.candidates@.len(),
    ensures
        detection_transition_holds(s, DetectionEvent::Debounced(cs), r),
        r.0.next <= r.0.candidates@.len(),
        r.0.phase != DetectionPhase::LookingUp,
{
    let mut names: Vec<String> = Vec::new();
    let mut k: usize = 0;
    while k < cs.len()
        invariant
            k <= cs@.len(),
            string_views(names@) == debounced_names(cs@.take(k as int)),
        decreases cs.len() - k,
    {
        proof {
            assert(cs@.take(k as int + 1).drop_last() =~= cs@.take(k as int));
        }
        if candidate_is_debounced(cs[k].1, cs[k].2.as_str()) {
            let ghost before = string_views(names@);
            names.push(cs[k].0.clone());
            proof {
                assert(string_views(names@) =~= before.push(cs@[k as int].0@));
            }
        }
        k = k + 1;
    }
    proof {
        assert(cs@.take(cs@.len() as int) =~= cs@);
    }
    let mut s2 = s;
    s2.phase = DetectionPhase::Finished;
    if names.len() == 0 {
        (s2, DetectionAction::Stop)
    } else {
        (s2, DetectionAction::GenerateProfiles { names })
    }
}

/// One step of a detection pass: the next state and action are those of
/// `detection_transition`.
pub fn detection_step(state: DetectionRun, event: DetectionEvent) -> (r: (DetectionRun, DetectionAction))
    requires
        step_well_formed(state, event),
    ensures
        r.0 == detection_transition(state, event).0,
        r.1@ == detection_transition(state, event).1,
        r.0.next <= r.0.candidates@.len(),
        r.0.phase == DetectionPhase::LookingUp ==> r.0.next < r.0.candidates@.len(),
{
    let r = detection_step_holds(state, event);
    proof {
        lemma_transition_determined(state, event, r);
    }
    r
}

proof fn lemma_advance_determined(s: DetectionRun, s2: DetectionRun, act: DetectionAction)
    requires
        advance_holds(s, s2, act),
    ensures
        s2 == advance_to(s).0,
        act@ == advance_to(s).1,
{
}

proof fn lemma_transition_determined(s: DetectionRun, e: DetectionEvent, r: (DetectionRun, DetectionAction))
    requires
        detection_transition_holds(s, e, r),
    ensures
        r.0 == detection_transition(s, e).0,
        r.1@ == detection_transition(s, e).1,
{
    match (s.phase, e) {
        (DetectionPhase::Detecting, DetectionEvent::Candidates(cs)) => {
            lemma_advance_determined(
                DetectionRun { candidates: cs, next: 0, phase: DetectionPhase::Classifying, ..s },
                r.0,
                r.1,
            );
        },
        (DetectionPhase::Classifying, DetectionEvent::Continue) => {
            lemma_advance_determined(s, r.0, r.1);
        },
        _ => {},
    }
}

#[verifier::rlimit(40)]
fn detection_step_holds(state: DetectionRun, event: DetectionEvent) -> (r: (DetectionRun, DetectionAction))
    requires
        step_well_formed(state, event),
    ensures
        detection_transition_holds(state, event, r),
        r.0.next <= r.0.candidates@.len(),
        r.0.phase == DetectionPhase::LookingUp ==> r.0.next < r.0.candidates@.len(),
{
    let phase = state.phase;
    match event {
        DetectionEvent::Counter(st) => {
            if phase == DetectionPhase::Counting {
                return step_counter(state, st);
            }
            (state, DetectionAction::Ignore)
        },
        DetectionEvent::Cast { known_names, known, primary_id, cast } => {
            if phase == DetectionPhase::LoadingCast {
                return step_cast(state, known_names, known, primary_id, cast);
            }
            (state, DetectionAction::Ignore)
        },
        DetectionEvent::Candidates(cs) => {
            if phase == DetectionPhase::Detecting {
                let mut s = state;
                s.candidates = cs;
                s.next = 0;
                s.phase = DetectionPhase::Classifying;
                return advance(s);
            }
            (state, DetectionAction::Ignore)
        },
        DetectionEvent::Continue => {
            if phase == DetectionPhase::Classifying {
                return advance(state);
            }
            (state, DetectionAction::Ignore)
        },
        DetectionEvent::Record { pass_count, has_character } => {
            if phase == DetectionPhase::LookingUp {
                return step_record(state, pass_count, has_character);
            }
            (state, DetectionAction::Ignore)
        },
        DetectionEvent::Debounced(cs) => {
            if phase == DetectionPhase::CollectingDebounced {
                return step_debounced(state, cs);
            }
            (state, DetectionAction::Ignore)
        },
    }
}

/// A counter event that is not due ends the pass with the counter saved
/// and no model call.
pub proof fn law_not_due_stops_before_detection(s: DetectionRun, st: DetectionState)
    requires
        s.phase == DetectionPhase::Counting,
        !s.forced,
        st.messages_since_scan + 1 < NPC_DETECTION_CADENCE,
    ensures
        detection_transition(s, DetectionEvent::Counter(st)).0.phase == DetectionPhase::Finished,
        !(detection_transition(s, DetectionEvent::Counter(st)).1 is Detect),
{
}

/// A finished pass ignores every further event: nothing more is asked of
/// the store or the model.
pub proof fn law_finished_pass_ignores_events(s: DetectionRun, e: DetectionEvent)
    requires
        s.phase == DetectionPhase::Finished,
    ensures
        detection_transition(s, e) == (s, DetectionActionView::Ignore),
{
}

/// Every stored sighting of a recurring or pivotal name counts one pass
/// more than the stored record, and a name seen in two passes crosses
/// the debounce once pending.
pub proof fn law_sightings_are_counted(s: DetectionRun, pass_count: Option<i32>, has_character: bool)
    requires
        s.phase == DetectionPhase::LookingUp,
        s.next < s.candidates@.len(),
        s.candidates@[s.next as int].1@ == "recurring"@ || s.candidates@[s.next as int].1@ == "pivotal"@,
    ensures
        detection_transition(s, DetectionEvent::Record { pass_count, has_character }).1 matches
            DetectionActionView::StoreSighting { pass_count: n, .. } && n == (match pass_count {
            Some(c) => c + 1,
            None => 1,
        }),
        pass_count == Some(1i32) ==> (detection_transition(s, DetectionEvent::Record { pass_count, has_character }).1 matches
            DetectionActionView::StoreSighting { pass_count: n, .. } && is_debounced(n as i32, "pending"@)),
{
}

/// A name that resolves to an established cast member is never counted
/// as a sighting: the pass only refreshes its placeholder profile and
/// moves on to the next name.
pub proof fn law_established_names_are_not_counted(s: DetectionRun)
    requires
        s.phase == DetectionPhase::Classifying,
        s.next < s.candidates@.len(),
        current_action(s).0 is Some,
        !current_action(s).1,
    ensures
        detection_transition(s, DetectionEvent::Continue).1 == (DetectionActionView::RefreshPlaceholder {
            character_id: current_action(s).0->0,
        }),
        detection_transition(s, DetectionEvent::Continue).0.next == s.next + 1,
{
    assert(s.candidates@.len() == s.candidates.len());
}

} // verus!

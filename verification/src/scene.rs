//! Scene state: merging the extractor's partial updates into the current
//! scene, and rendering the scene for the prompt.

use vstd::prelude::*;
use vstd::string::*;

use crate::text::{join_with, owned, string_views};

verus! {

/// Where the story currently takes place.
#[derive(Debug, Clone)]
pub struct SceneSnapshot {
    pub location_name: String,
    pub location_description: String,
    pub time_period: String,
    pub weather: String,
    pub characters_present: Vec<String>,
    pub ambient_details: String,
    pub scene_mood: String,
}

/// A partial scene update from the extractor: `None` keeps a field as it is.
#[derive(Debug, Clone)]
pub struct SceneStateUpdate {
    pub location_name: Option<String>,
    pub location_description: Option<String>,
    pub time_period: Option<String>,
    pub weather: Option<String>,
    pub characters_present: Option<Vec<String>>,
    pub ambient_details: Option<String>,
    pub scene_mood: Option<String>,
    pub scene_changed: bool,
}

/// The characters of a scene's fields, in declaration order.
pub type SceneView = (Seq<char>, Seq<char>, Seq<char>, Seq<char>, Seq<Seq<char>>, Seq<char>, Seq<char>);

/// The view of a scene.
pub open spec fn scene_view(s: SceneSnapshot) -> SceneView {
    (
        s.location_name@,
        s.location_description@,
        s.time_period@,
        s.weather@,
        string_views(s.characters_present@),
        s.ambient_details@,
        s.scene_mood@,
    )
}

/// The scene before anything was extracted.
pub open spec fn initial_scene_view() -> SceneView {
    ("Unknown"@, seq![], "unspecified"@, "clear"@, seq![], seq![], "neutral"@)
}

/// A field after an update: the new value when given, else the old one.
pub open spec fn pick(new: Option<String>, old: Seq<char>) -> Seq<char> {
    match new {
        Some(v) => v@,
        None => old,
    }
}

/// A scene after an update.
pub open spec fn merged_view(cur: SceneView, u: SceneStateUpdate) -> SceneView {
    (
        pick(u.location_name, cur.0),
        pick(u.location_description, cur.1),
        pick(u.time_period, cur.2),
        pick(u.weather, cur.3),
        match u.characters_present {
            Some(v) => string_views(v@),
            None => cur.4,
        },
        pick(u.ambient_details, cur.5),
        pick(u.scene_mood, cur.6),
    )
}

/// The scene a conversation starts from: an unknown location, unspecified
/// time, clear weather, nobody listed, neutral mood.
pub fn initial_scene() -> (s: SceneSnapshot)
    ensures
        scene_view(s) == initial_scene_view(),
{
    let s = SceneSnapshot {
        location_name: owned("Unknown"),
        location_description: String::new(),
        time_period: owned("unspecified"),
        weather: owned("clear"),
        characters_present: Vec::new(),
        ambient_details: String::new(),
        scene_mood: owned("neutral"),
    };
    assert(string_views(s.characters_present@) =~= Seq::<Seq<char>>::empty());
    s
}

fn copy_names(v: &Vec<String>) -> (r: Vec<String>)
    ensures
        string_views(r@) == string_views(v@),
{
    let mut out: Vec<String> = Vec::new();
    let mut i: usize = 0;
    while i < v.len()
        invariant
            i <= v@.len(),
            out@.len() == i,
            string_views(out@) == string_views(v@).take(i as int),
        decreases v.len() - i,
    {
        let c = v[i].clone();
        let ghost before = out@;
        out.push(c);
        assert(out@[i as int]@ == v@[i as int]@);
        assert forall|j: int| 0 <= j < i + 1 implies #[trigger] string_views(out@)[j] == string_views(v@).take(i as int + 1)[j] by {
            if j < i {
                assert(string_views(before)[j] == string_views(v@).take(i as int)[j]);
            }
        }
        assert(string_views(out@) =~= string_views(v@).take(i as int + 1));
        i = i + 1;
    }
    assert(string_views(v@).take(v@.len() as int) =~= string_views(v@));
    out
}

fn pick_field(new: &Option<String>, old: &String) -> (r: String)
    ensures
        r@ == pick(*new, old@),
{
    match new {
        Some(v) => v.clone(),
        None => old.clone(),
    }
}

/// Merges an update into the current scene (or the initial scene when the
/// conversation has none yet): each field the update gives replaces the
/// current one, every other field stays.
pub fn merge_scene(current: Option<&SceneSnapshot>, update: &SceneStateUpdate) -> (r: SceneSnapshot)
    ensures
        scene_view(r) == merged_view(
            match current {
                Some(c) => scene_view(*c),
                None => initial_scene_view(),
            },
            *update,
        ),
{
    let base = match current {
        Some(c) => SceneSnapshot {
            location_name: c.location_name.clone(),
            location_description: c.location_description.clone(),
            time_period: c.time_period.clone(),
            weather: c.weather.clone(),
            characters_present: copy_names(&c.characters_present),
            ambient_details: c.ambient_details.clone(),
            scene_mood: c.scene_mood.clone(),
        },
        None => initial_scene(),
    };
    SceneSnapshot {
        location_name: pick_field(&update.location_name, &base.location_name),
        location_description: pick_field(&update.location_description, &base.location_description),
        time_period: pick_field(&update.time_period, &base.time_period),
        weather: pick_field(&update.weather, &base.weather),
        characters_present: match &update.characters_present {
            Some(v) => copy_names(v),
            None => copy_names(&base.characters_present),
        },
        ambient_details: pick_field(&update.ambient_details, &base.ambient_details),
        scene_mood: pick_field(&update.scene_mood, &base.scene_mood),
    }
}

/// Every field an update gives replaces the current one, and every field
/// it leaves out keeps its current value.
pub proof fn law_given_fields_replace_current(cur: SceneView, u: SceneStateUpdate)
    ensures
        u.location_name matches Some(v) ==> merged_view(cur, u).0 == v@,
        u.location_description matches Some(v) ==> merged_view(cur, u).1 == v@,
        u.time_period matches Some(v) ==> merged_view(cur, u).2 == v@,
        u.weather matches Some(v) ==> merged_view(cur, u).3 == v@,
        u.characters_present matches Some(v) ==> merged_view(cur, u).4 == Seq::new(v@.len(), |i: int| v@[i]@),
        u.ambient_details matches Some(v) ==> merged_view(cur, u).5 == v@,
        u.scene_mood matches Some(v) ==> merged_view(cur, u).6 == v@,
        u.location_name is None ==> merged_view(cur, u).0 == cur.0,
        u.location_description is None ==> merged_view(cur, u).1 == cur.1,
        u.time_period is None ==> merged_view(cur, u).2 == cur.2,
        u.weather is None ==> merged_view(cur, u).3 == cur.3,
        u.characters_present is None ==> merged_view(cur, u).4 == cur.4,
        u.ambient_details is None ==> merged_view(cur, u).5 == cur.5,
        u.scene_mood is None ==> merged_view(cur, u).6 == cur.6,
{
}

/// A conversation without a scene starts from the initial one: an update
/// giving a field sets it there, and the fields it leaves out read as the
/// initial scene's ("Unknown", "unspecified", "clear", "neutral", empty).
pub proof fn law_first_update_starts_from_initial_scene(u: SceneStateUpdate)
    ensures
        u.time_period matches Some(v) ==> merged_view(initial_scene_view(), u).2 == v@,
        u.time_period is None ==> merged_view(initial_scene_view(), u).2 == "unspecified"@,
        u.location_name is None ==> merged_view(initial_scene_view(), u).0 == "Unknown"@,
        u.weather is None ==> merged_view(initial_scene_view(), u).3 == "clear"@,
        u.scene_mood is None ==> merged_view(initial_scene_view(), u).6 == "neutral"@,
{
    law_given_fields_replace_current(initial_scene_view(), u);
}

/// An update that gives no field leaves the scene as it is.
pub proof fn law_empty_update_keeps_scene(cur: SceneView, u: SceneStateUpdate)
    requires
        u.location_name is None,
        u.location_description is None,
        u.time_period is None,
        u.weather is None,
        u.characters_present is None,
        u.ambient_details is None,
        u.scene_mood is None,
    ensures
        merged_view(cur, u) == cur,
{
}

/// Applying the same update twice is the same as applying it once.
pub proof fn law_scene_update_idempotent(cur: SceneView, u: SceneStateUpdate)
    ensures
        merged_view(merged_view(cur, u), u) == merged_view(cur, u),
{
}

/// The `Present:` line of the scene block: the (already substituted)
/// names joined by ", ", or "unspecified".
pub open spec fn present_line(names: Seq<Seq<char>>) -> Seq<char> {
    if names.len() == 0 { "unspecified"@ } else { join_with(names, ", "@) }
}

/// The scene block injected into the prompt.
pub open spec fn scene_block_text(s: SceneView, names: Seq<Seq<char>>) -> Seq<char> {
    "[Current Scene]\nLocation: "@ + s.0 + " — "@ + s.1 + "\nTime: "@ + s.2 + " | Weather: "@ + s.3
        + "\nPresent: "@ + present_line(names) + "\nAtmosphere: "@ + s.5
        + "\n(Maintain scene consistency. Describe transitions naturally when the story moves to a new location or time.)"@
}

/// Renders the current scene for the prompt; `present` holds the names of
/// the characters present with `{{user}}` already substituted.
pub fn format_scene_block(scene: &SceneSnapshot, present: &Vec<String>) -> (r: String)
    ensures
        r@ == scene_block_text(scene_view(*scene), string_views(present@)),
{
    let mut names = String::new();
    if present.len() == 0 {
        names.append("unspecified");
    } else {
        let mut k: usize = 0;
        while k < present.len()
            invariant
                k <= present@.len(),
                names@ == join_with(string_views(present@).take(k as int), ", "@),
            decreases present.len() - k,
        {
            proof {
                assert(string_views(present@).take(k as int + 1).drop_last() =~= string_views(present@).take(k as int));
                if k == 0 {
                    assert(string_views(present@).take(1) =~= seq![present@[0]@]);
                }
            }
            if k > 0 {
                names.append(", ");
            }
            names.append(present[k].as_str());
            k = k + 1;
        }
        assert(string_views(present@).take(present@.len() as int) =~= string_views(present@));
    }
    let mut r = owned("[Current Scene]\nLocation: ");
    r.append(scene.location_name.as_str());
    r.append(" — ");
    r.append(scene.location_description.as_str());
    r.append("\nTime: ");
    r.append(scene.time_period.as_str());
    r.append(" | Weather: ");
    r.append(scene.weather.as_str());
    r.append("\nPresent: ");
    r.append(names.as_str());
    r.append("\nAtmosphere: ");
    r.append(scene.ambient_details.as_str());
    r.append("\n(Maintain scene consistency. Describe transitions naturally when the story moves to a new location or time.)");
    r
}

} // verus!

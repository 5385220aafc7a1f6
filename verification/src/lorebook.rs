//! Lorebook injection: which entries enter the prompt, in what order, and
//! how many fit the lorebook's token cap.

use vstd::prelude::*;
use vstd::string::*;

use crate::models::{ChatMessage, MessageRole};
use crate::prompt::{keyword_matches_at_word_boundary, keyword_on_boundary};
use crate::text::{join_with, lowercase, str_eq, str_to_lowercase};
use crate::tokenizer::{count_message_tokens, message_tokens, sum_message_tokens};

verus! {

/// A keyword-triggered snippet of world or character lore.
#[derive(Debug, Clone)]
pub struct LorebookEntry {
    /// Record key of the entry.
    pub id: String,
    /// The character the entry belongs to; `None` for a global entry.
    pub character_id: Option<String>,
    /// Trigger keywords — the entry is injected when one appears in recent chat.
    pub keys: Vec<String>,
    /// The text injected into the prompt.
    pub content: String,
    pub enabled: bool,
    /// Injected on every turn regardless of keywords.
    pub always_active: bool,
    /// Higher priority entries are injected first.
    pub priority: i32,
    /// Tie-breaker among equal priorities: lower goes first.
    pub insertion_order: i32,
    pub name: Option<String>,
}

/// Whether entry `a` goes before entry `b`: higher priority first, then
/// lower insertion order.
pub open spec fn goes_before(a: LorebookEntry, b: LorebookEntry) -> bool {
    a.priority > b.priority || (a.priority == b.priority && a.insertion_order < b.insertion_order)
}

/// Where a stable sort puts `x` among `sorted` (scanning from `i`): before
/// the first entry that `x` goes before.
pub open spec fn entry_insert_pos(sorted: Seq<LorebookEntry>, x: LorebookEntry, i: int) -> int
    decreases sorted.len() - i,
{
    if i < 0 || i >= sorted.len() {
        sorted.len() as int
    } else if goes_before(x, sorted[i]) {
        i
    } else {
        entry_insert_pos(sorted, x, i + 1)
    }
}

/// `s` sorted by priority (descending) then insertion order (ascending),
/// keeping ties in their input order.
pub open spec fn sorted_entries(s: Seq<LorebookEntry>) -> Seq<LorebookEntry>
    decreases s.len(),
{
    if s.len() == 0 {
        seq![]
    } else {
        let sorted = sorted_entries(s.drop_last());
        sorted.insert(entry_insert_pos(sorted, s.last(), 0), s.last())
    }
}

proof fn lemma_sorted_entries_len(s: Seq<LorebookEntry>)
    ensures
        sorted_entries(s).len() == s.len(),
    decreases s.len(),
{
    if s.len() > 0 {
        lemma_sorted_entries_len(s.drop_last());
        let sorted = sorted_entries(s.drop_last());
        lemma_entry_insert_pos_bounds(sorted, s.last(), 0);
    }
}

proof fn lemma_entry_insert_pos_bounds(sorted: Seq<LorebookEntry>, x: LorebookEntry, i: int)
    requires
        0 <= i,
    ensures
        0 <= entry_insert_pos(sorted, x, i) <= sorted.len(),
    decreases sorted.len() - i,
{
    if i < sorted.len() && !goes_before(x, sorted[i]) {
        lemma_entry_insert_pos_bounds(sorted, x, i + 1);
    }
}

/// `s` lists no entry after one it goes before.
pub open spec fn in_priority_order(s: Seq<LorebookEntry>) -> bool {
    forall|i: int, j: int| 0 <= i < j < s.len() ==> !goes_before(#[trigger] s[j], #[trigger] s[i])
}

proof fn lemma_entry_insert_pos_facts(sorted: Seq<LorebookEntry>, x: LorebookEntry, i: int)
    requires
        0 <= i <= sorted.len(),
    ensures
        i <= entry_insert_pos(sorted, x, i) <= sorted.len(),
        forall|k: int| i <= k < entry_insert_pos(sorted, x, i) ==> !goes_before(x, #[trigger] sorted[k]),
        entry_insert_pos(sorted, x, i) < sorted.len() ==> goes_before(x, sorted[entry_insert_pos(sorted, x, i)]),
    decreases sorted.len() - i,
{
    if i < sorted.len() && !goes_before(x, sorted[i]) {
        lemma_entry_insert_pos_facts(sorted, x, i + 1);
    }
}

/// Sorting lorebook entries yields them in priority order, highest
/// priority first and, among equal priorities, lowest insertion order
/// first, and neither loses nor adds an entry.
pub proof fn law_sorted_entries_are_ordered(s: Seq<LorebookEntry>)
    ensures
        in_priority_order(sorted_entries(s)),
        sorted_entries(s).to_multiset() == s.to_multiset(),
    decreases s.len(),
{
    broadcast use vstd::seq_lib::to_multiset_insert, vstd::seq_lib::to_multiset_build;

    if s.len() == 0 {
        assert(sorted_entries(s) =~= s);
    } else {
        let t = sorted_entries(s.drop_last());
        let x = s.last();
        law_sorted_entries_are_ordered(s.drop_last());
        lemma_entry_insert_pos_facts(t, x, 0);
        let p = entry_insert_pos(t, x, 0);
        let u = t.insert(p, x);
        assert(sorted_entries(s) == u);
        assert forall|i: int, j: int| 0 <= i < j < u.len() implies !goes_before(#[trigger] u[j], #[trigger] u[i]) by {
            if j < p {
                assert(u[i] == t[i] && u[j] == t[j]);
            } else if j == p {
                assert(u[i] == t[i]);
            } else if i < p {
                assert(u[i] == t[i] && u[j] == t[j - 1]);
            } else if i == p {
                assert(u[j] == t[j - 1]);
                assert(!goes_before(t[j - 1], t[p]) || j - 1 == p);
            } else {
                assert(u[i] == t[i - 1] && u[j] == t[j - 1]);
            }
        }
        assert(s =~= s.drop_last().push(x));
    }
}

/// A field-for-field copy of an entry.
fn copy_entry(e: &LorebookEntry) -> (r: LorebookEntry)
    ensures
        r.id@ == e.id@,
        r.content@ == e.content@,
        r.keys@.len() == e.keys@.len(),
        forall|i: int| 0 <= i < r.keys@.len() ==> #[trigger] r.keys@[i]@ == e.keys@[i]@,
        r.enabled == e.enabled,
        r.always_active == e.always_active,
        r.priority == e.priority,
        r.insertion_order == e.insertion_order,
        r.character_id == e.character_id,
        r.name == e.name,
{
    let mut keys: Vec<String> = Vec::new();
    let mut i: usize = 0;
    while i < e.keys.len()
        invariant
            i <= e.keys@.len(),
            keys@.len() == i,
            forall|j: int| 0 <= j < i ==> #[trigger] keys@[j]@ == e.keys@[j]@,
        decreases e.keys.len() - i,
    {
        keys.push(e.keys[i].clone());
        i = i + 1;
    }
    LorebookEntry {
        id: e.id.clone(),
        character_id: match &e.character_id {
            Some(c) => Some(c.clone()),
            None => None,
        },
        keys,
        content: e.content.clone(),
        enabled: e.enabled,
        always_active: e.always_active,
        priority: e.priority,
        insertion_order: e.insertion_order,
        name: match &e.name {
            Some(n) => Some(n.clone()),
            None => None,
        },
    }
}

/// The characters of an optional text.
pub open spec fn opt_view(o: Option<String>) -> Option<Seq<char>> {
    match o {
        Some(s) => Some(s@),
        None => None,
    }
}

/// The characters of an entry's fields, in declaration order.
pub type EntryView = (Seq<char>, Option<Seq<char>>, Seq<Seq<char>>, Seq<char>, bool, bool, i32, i32, Option<Seq<char>>);

/// The view of an entry.
pub open spec fn entry_view(e: LorebookEntry) -> EntryView {
    (
        e.id@,
        opt_view(e.character_id),
        Seq::new(e.keys@.len(), |i: int| e.keys@[i]@),
        e.content@,
        e.enabled,
        e.always_active,
        e.priority,
        e.insertion_order,
        opt_view(e.name),
    )
}

/// The views of a list of entries.
pub open spec fn entry_views(s: Seq<LorebookEntry>) -> Seq<EntryView> {
    Seq::new(s.len(), |i: int| entry_view(s[i]))
}

/// Sorts entries by priority (descending) then insertion order
/// (ascending), stably, so the token-budget cutoff fills in true priority
/// order across a whole cast's merged entries.
pub fn sort_entries(entries: &[LorebookEntry]) -> (r: Vec<LorebookEntry>)
    ensures
        entry_views(r@) == entry_views(sorted_entries(entries@)),
        r@.len() == entries@.len(),
{
    let mut sorted: Vec<LorebookEntry> = Vec::new();
    let ghost mut model: Seq<LorebookEntry> = seq![];
    let mut k: usize = 0;
    while k < entries.len()
        invariant
            k <= entries@.len(),
            model == sorted_entries(entries@.take(k as int)),
            entry_views(sorted@) == entry_views(model),
            sorted@.len() == model.len(),
        decreases entries.len() - k,
    {
        let x = copy_entry(&entries[k]);
        let mut pos: usize = 0;
        while pos < sorted.len() && !(x.priority > sorted[pos].priority || (x.priority == sorted[pos].priority
            && x.insertion_order < sorted[pos].insertion_order))
            invariant
                k < entries@.len(),
                pos <= sorted@.len(),
                sorted@.len() == model.len(),
                entry_views(sorted@) == entry_views(model),
                entry_view(x) == entry_view(entries@[k as int]),
                entry_insert_pos(model, entries@[k as int], pos as int) == entry_insert_pos(model, entries@[k as int], 0),
            decreases sorted.len() - pos,
        {
            proof {
                assert(entry_views(sorted@)[pos as int] == entry_views(model)[pos as int]);
            }
            pos = pos + 1;
        }
        proof {
            if pos < sorted@.len() {
                assert(entry_views(sorted@)[pos as int] == entry_views(model)[pos as int]);
            }
            assert(entry_insert_pos(model, entries@[k as int], pos as int) == pos);
            assert(entries@.take(k as int + 1).drop_last() =~= entries@.take(k as int));
            assert(entries@.take(k as int + 1).last() == entries@[k as int]);
        }
        let ghost prev_sorted = sorted@;
        sorted.insert(pos, x);
        proof {
            model = model.insert(pos as int, entries@[k as int]);
            assert(entry_views(sorted@) =~= entry_views(model)) by {
                assert forall|i: int| 0 <= i < sorted@.len() implies #[trigger] entry_views(sorted@)[i] == entry_views(model)[i] by {
                    if i < pos {
                        assert(entry_views(prev_sorted)[i] == entry_views(model.remove(pos as int))[i]);
                    } else if i > pos {
                        assert(entry_views(prev_sorted)[i - 1] == entry_views(model.remove(pos as int))[i - 1]);
                    }
                }
            }
        }
        k = k + 1;
    }
    proof {
        assert(entries@.take(entries@.len() as int) =~= entries@);
        lemma_sorted_entries_len(entries@);
    }
    sorted
}

/// Whether some entry of `kept` has the id `id`.
pub open spec fn has_id(kept: Seq<LorebookEntry>, id: Seq<char>) -> bool {
    exists|i: int| 0 <= i < kept.len() && (#[trigger] kept[i]).id@ == id
}

/// The entries of `s` in order, keeping only the first entry of each id.
pub open spec fn first_of_each_id(s: Seq<LorebookEntry>) -> Seq<LorebookEntry>
    decreases s.len(),
{
    if s.len() == 0 {
        seq![]
    } else {
        let kept = first_of_each_id(s.drop_last());
        if has_id(kept, s.last().id@) { kept } else { kept.push(s.last()) }
    }
}

/// Keeping the first entry of each id leaves no id twice, drops no id,
/// and keeps only entries of the input.
pub proof fn law_first_of_each_id_is_distinct(s: Seq<LorebookEntry>)
    ensures
        forall|i: int, j: int|
            0 <= i < j < first_of_each_id(s).len() ==> (#[trigger] first_of_each_id(s)[i]).id@
                != (#[trigger] first_of_each_id(s)[j]).id@,
        forall|i: int| 0 <= i < s.len() ==> has_id(first_of_each_id(s), (#[trigger] s[i]).id@),
        forall|i: int| 0 <= i < first_of_each_id(s).len() ==> s.contains(#[trigger] first_of_each_id(s)[i]),
    decreases s.len(),
{
    if s.len() > 0 {
        let t = s.drop_last();
        let kept = first_of_each_id(t);
        law_first_of_each_id_is_distinct(t);
        let x = s.last();
        if has_id(kept, x.id@) {
            assert forall|i: int| 0 <= i < s.len() implies has_id(first_of_each_id(s), (#[trigger] s[i]).id@) by {
                if i < t.len() {
                    assert(s[i] == t[i]);
                }
            }
            assert forall|i: int| 0 <= i < first_of_each_id(s).len() implies s.contains(
                #[trigger] first_of_each_id(s)[i],
            ) by {
                let w = choose|w: int| 0 <= w < t.len() && t[w] == kept[i];
                assert(s[w] == t[w]);
            }
        } else {
            let u = kept.push(x);
            assert(first_of_each_id(s) == u);
            assert forall|i: int, j: int| 0 <= i < j < u.len() implies (#[trigger] u[i]).id@ != (#[trigger] u[j]).id@ by {
                if j == kept.len() {
                    assert(u[i] == kept[i]);
                    if u[i].id@ == x.id@ {
                        assert(has_id(kept, x.id@));
                    }
                } else {
                    assert(u[i] == kept[i] && u[j] == kept[j]);
                }
            }
            assert forall|i: int| 0 <= i < s.len() implies has_id(u, (#[trigger] s[i]).id@) by {
                if i < t.len() {
                    assert(s[i] == t[i]);
                    assert(has_id(kept, t[i].id@));
                    let w = choose|w: int| 0 <= w < kept.len() && (#[trigger] kept[w]).id@ == t[i].id@;
                    assert(u[w] == kept[w]);
                } else {
                    assert(u[kept.len() as int] == x);
                }
            }
            assert forall|i: int| 0 <= i < u.len() implies s.contains(#[trigger] u[i]) by {
                if i < kept.len() {
                    assert(u[i] == kept[i]);
                    let w = choose|w: int| 0 <= w < t.len() && t[w] == kept[i];
                    assert(s[w] == t[w]);
                } else {
                    assert(s[s.len() - 1] == x);
                }
            }
        }
    }
}

/// All entries of the per-character lists, one list after the other.
pub open spec fn flatten_lists(lists: Seq<Vec<LorebookEntry>>) -> Seq<LorebookEntry>
    decreases lists.len(),
{
    if lists.len() == 0 {
        seq![]
    } else {
        flatten_lists(lists.drop_last()) + lists.last()@
    }
}

/// Merges the lorebook lists fetched for each cast member, keeping the
/// first entry of each id — a global entry is returned for every
/// character queried and must be injected only once.
pub fn merge_unique_entries(lists: &Vec<Vec<LorebookEntry>>) -> (r: Vec<LorebookEntry>)
    ensures
        entry_views(r@) == entry_views(first_of_each_id(flatten_lists(lists@))),
        r@.len() == first_of_each_id(flatten_lists(lists@)).len(),
{
    let mut out: Vec<LorebookEntry> = Vec::new();
    let ghost mut model: Seq<LorebookEntry> = seq![];
    let ghost mut seen: Seq<LorebookEntry> = seq![];
    let mut li: usize = 0;
    while li < lists.len()
        invariant
            li <= lists@.len(),
            seen == flatten_lists(lists@.take(li as int)),
            model == first_of_each_id(seen),
            entry_views(out@) == entry_views(model),
            out@.len() == model.len(),
        decreases lists.len() - li,
    {
        let list = &lists[li];
        let mut k: usize = 0;
        proof {
            assert(lists@.take(li as int + 1).drop_last() =~= lists@.take(li as int));
        }
        while k < list.len()
            invariant
                li < lists@.len(),
                list == lists@[li as int],
                k <= list@.len(),
                seen == flatten_lists(lists@.take(li as int)) + list@.take(k as int),
                model == first_of_each_id(seen),
                entry_views(out@) == entry_views(model),
                out@.len() == model.len(),
            decreases list.len() - k,
        {
            let e = &list[k];
            let mut j: usize = 0;
            let mut found = false;
            while j < out.len() && !found
                invariant
                    j <= out@.len(),
                    out@.len() == model.len(),
                    entry_views(out@) == entry_views(model),
                    found ==> has_id(model, e.id@),
                    !found ==> forall|q: int| 0 <= q < j ==> (#[trigger] model[q]).id@ != e.id@,
                decreases out.len() - j, if found { 0int } else { 1int },
            {
                proof {
                    assert(entry_views(out@)[j as int] == entry_views(model)[j as int]);
                }
                if str_eq(out[j].id.as_str(), e.id.as_str()) {
                    found = true;
                } else {
                    j = j + 1;
                }
            }
            let ghost next_seen = seen.push(list@[k as int]);
            proof {
                assert(next_seen.drop_last() =~= seen);
                assert(list@.take(k as int + 1) =~= list@.take(k as int).push(list@[k as int]));
                assert(next_seen =~= flatten_lists(lists@.take(li as int)) + list@.take(k as int + 1));
            }
            if !found {
                let c = copy_entry(e);
                proof {
                    assert(Seq::new(c.keys@.len(), |i: int| c.keys@[i]@) =~= Seq::new(e.keys@.len(), |i: int| e.keys@[i]@));
                    assert(entry_view(c) == entry_view(*e));
                }
                let ghost prev_out = out@;
                out.push(c);
                proof {
                    model = model.push(list@[k as int]);
                    assert forall|i: int| 0 <= i < out@.len() implies #[trigger] entry_views(out@)[i] == entry_views(model)[i] by {
                        if i < prev_out.len() {
                            assert(entry_views(prev_out)[i] == entry_views(model.drop_last())[i]);
                        }
                    }
                    assert(entry_views(out@) =~= entry_views(model));
                }
            }
            proof {
                seen = next_seen;
            }
            k = k + 1;
        }
        proof {
            assert(list@.take(list@.len() as int) =~= list@);
            assert(flatten_lists(lists@.take(li as int + 1)) =~= flatten_lists(lists@.take(li as int)) + list@);
        }
        li = li + 1;
    }
    proof {
        assert(lists@.take(lists@.len() as int) =~= lists@);
    }
    out
}

/// How many of the most recent messages are scanned for keywords.
pub const KEYWORD_SCAN_DEPTH: usize = 20;

/// The lowercased contents of the last (up to) 20 messages, joined by spaces.
pub open spec fn recent_corpus(chain: Seq<ChatMessage>) -> Seq<char> {
    let n = chain.len();
    let d = if n < KEYWORD_SCAN_DEPTH { n } else { KEYWORD_SCAN_DEPTH as nat };
    join_with(Seq::new(d, |i: int| lowercase(chain[n - d + i].content@)), " "@)
}

/// Builds the keyword search corpus from the most recent messages.
pub fn build_keyword_corpus(chain: &[ChatMessage]) -> (r: String)
    ensures
        r@ == recent_corpus(chain@),
{
    let n = chain.len();
    let d = if n < KEYWORD_SCAN_DEPTH { n } else { KEYWORD_SCAN_DEPTH };
    let start = n - d;
    let ghost parts = Seq::new(d as nat, |i: int| lowercase(chain@[n - d + i].content@));
    let mut out = String::new();
    let mut i: usize = 0;
    while i < d
        invariant
            i <= d <= n == chain@.len(),
            start == n - d,
            parts == Seq::new(d as nat, |i: int| lowercase(chain@[n - d + i].content@)),
            out@ == join_with(parts.take(i as int), " "@),
        decreases d - i,
    {
        proof {
            assert(parts.take(i as int + 1).drop_last() =~= parts.take(i as int));
            if i == 0 {
                assert(parts.take(1) =~= seq![parts[0]]);
            }
        }
        if i > 0 {
            out.append(" ");
        }
        let lower = str_to_lowercase(chain[start + i].content.as_str());
        out.append(lower.as_str());
        i = i + 1;
    }
    proof {
        assert(parts.take(d as int) =~= parts);
    }
    out
}

/// Whether one of the entry's keys (lowercased, non-empty) appears in
/// `corpus` on a word boundary.
pub open spec fn entry_triggered(e: LorebookEntry, corpus: Seq<char>) -> bool {
    exists|i: int|
        0 <= i < e.keys@.len() && lowercase((#[trigger] e.keys@[i])@).len() > 0 && keyword_on_boundary(
            corpus,
            lowercase(e.keys@[i]@),
        )
}

/// The contents of the enabled always-active entries, in order.
pub open spec fn always_active_contents(s: Seq<LorebookEntry>) -> Seq<Seq<char>>
    decreases s.len(),
{
    if s.len() == 0 {
        seq![]
    } else {
        let prev = always_active_contents(s.drop_last());
        let e = s.last();
        if e.enabled && e.always_active { prev.push(e.content@) } else { prev }
    }
}

/// The contents of the enabled keyword entries whose keys appear in `corpus`, in order.
pub open spec fn triggered_contents(s: Seq<LorebookEntry>, corpus: Seq<char>) -> Seq<Seq<char>>
    decreases s.len(),
{
    if s.len() == 0 {
        seq![]
    } else {
        let prev = triggered_contents(s.drop_last(), corpus);
        let e = s.last();
        if e.enabled && !e.always_active && e.keys@.len() > 0 && entry_triggered(e, corpus) {
            prev.push(e.content@)
        } else {
            prev
        }
    }
}

/// The lorebook texts a conversation triggers: always-active entries first,
/// then the keyword-triggered ones, each group in entry order.
pub open spec fn lorebook_contents(entries: Seq<LorebookEntry>, chain: Seq<ChatMessage>) -> Seq<Seq<char>> {
    always_active_contents(entries) + triggered_contents(entries, recent_corpus(chain))
}

/// An enabled always-active entry is injected whatever the conversation
/// says: its content is among the lorebook contents for every chain.
pub proof fn law_always_active_entries_are_injected(entries: Seq<LorebookEntry>, chain: Seq<ChatMessage>, i: int)
    requires
        0 <= i < entries.len(),
        entries[i].enabled,
        entries[i].always_active,
    ensures
        lorebook_contents(entries, chain).contains(entries[i].content@),
{
    lemma_in_always_active(entries, i);
    let a = always_active_contents(entries);
    let k = choose|k: int| 0 <= k < a.len() && a[k] == entries[i].content@;
    assert(lorebook_contents(entries, chain)[k] == a[k]);
}

proof fn lemma_always_active_prefix(s: Seq<LorebookEntry>)
    requires
        s.len() > 0,
    ensures
        always_active_contents(s.drop_last()).len() <= always_active_contents(s).len(),
        forall|k: int|
            0 <= k < always_active_contents(s.drop_last()).len() ==> always_active_contents(s)[k]
                == #[trigger] always_active_contents(s.drop_last())[k],
{
}

proof fn lemma_in_always_active(s: Seq<LorebookEntry>, i: int)
    requires
        0 <= i < s.len(),
        s[i].enabled,
        s[i].always_active,
    ensures
        always_active_contents(s).contains(s[i].content@),
    decreases s.len(),
{
    if i == s.len() - 1 {
        assert(always_active_contents(s).last() == s[i].content@);
    } else {
        lemma_in_always_active(s.drop_last(), i);
        lemma_always_active_prefix(s);
        let a = always_active_contents(s.drop_last());
        let k = choose|k: int| 0 <= k < a.len() && a[k] == s[i].content@;
        assert(always_active_contents(s)[k] == a[k]);
    }
}

proof fn lemma_in_triggered(s: Seq<LorebookEntry>, corpus: Seq<char>, i: int, k: int)
    requires
        0 <= i < s.len(),
        s[i].enabled,
        !s[i].always_active,
        0 <= k < s[i].keys@.len(),
        lowercase(s[i].keys@[k]@).len() > 0,
        keyword_on_boundary(corpus, lowercase(s[i].keys@[k]@)),
    ensures
        triggered_contents(s, corpus).contains(s[i].content@),
    decreases s.len(),
{
    if i == s.len() - 1 {
        assert(entry_triggered(s[i], corpus));
        assert(triggered_contents(s, corpus).last() == s[i].content@);
    } else {
        lemma_in_triggered(s.drop_last(), corpus, i, k);
        let a = triggered_contents(s.drop_last(), corpus);
        let j = choose|j: int| 0 <= j < a.len() && a[j] == s[i].content@;
        assert(triggered_contents(s, corpus)[j] == a[j]);
    }
}

/// An enabled keyword entry is injected as soon as any one of its keys,
/// lowercased and non-empty, appears on a word boundary in the recent
/// conversation: the other keys need not appear.
pub proof fn law_one_matching_key_triggers_entry(entries: Seq<LorebookEntry>, chain: Seq<ChatMessage>, i: int, k: int)
    requires
        0 <= i < entries.len(),
        entries[i].enabled,
        !entries[i].always_active,
        0 <= k < entries[i].keys@.len(),
        lowercase(entries[i].keys@[k]@).len() > 0,
        keyword_on_boundary(recent_corpus(chain), lowercase(entries[i].keys@[k]@)),
    ensures
        lorebook_contents(entries, chain).contains(entries[i].content@),
{
    let corpus = recent_corpus(chain);
    lemma_in_triggered(entries, corpus, i, k);
    let a = always_active_contents(entries);
    let t = triggered_contents(entries, corpus);
    let j = choose|j: int| 0 <= j < t.len() && t[j] == entries[i].content@;
    assert(lorebook_contents(entries, chain)[a.len() + j] == t[j]);
}

proof fn lemma_disabled_entry_contributes_nothing(s: Seq<LorebookEntry>, corpus: Seq<char>, i: int)
    requires
        0 <= i < s.len(),
        !s[i].enabled,
    ensures
        always_active_contents(s.remove(i)) == always_active_contents(s),
        triggered_contents(s.remove(i), corpus) == triggered_contents(s, corpus),
    decreases s.len(),
{
    if i == s.len() - 1 {
        assert(s.remove(i) =~= s.drop_last());
    } else {
        lemma_disabled_entry_contributes_nothing(s.drop_last(), corpus, i);
        assert(s.remove(i).drop_last() =~= s.drop_last().remove(i));
        assert(s.remove(i).last() == s.last());
    }
}

/// A disabled entry never reaches the prompt: the selected contents are
/// the same with or without it.
pub proof fn law_disabled_entries_are_ignored(entries: Seq<LorebookEntry>, chain: Seq<ChatMessage>, i: int)
    requires
        0 <= i < entries.len(),
        !entries[i].enabled,
    ensures
        lorebook_contents(entries.remove(i), chain) == lorebook_contents(entries, chain),
{
    lemma_disabled_entry_contributes_nothing(entries, recent_corpus(chain), i);
}

/// System messages holding the given texts.
pub open spec fn is_system_messages(msgs: Seq<ChatMessage>, contents: Seq<Seq<char>>) -> bool {
    msgs.len() == contents.len() && forall|i: int|
        0 <= i < msgs.len() ==> (#[trigger] msgs[i]).role == MessageRole::System && msgs[i].content@
            == contents[i]
}

/// Whether one of `e`'s keys matches the corpus (see `entry_triggered`).
fn is_triggered(e: &LorebookEntry, corpus: &str) -> (r: bool)
    ensures
        r == entry_triggered(*e, corpus@),
{
    let mut i: usize = 0;
    while i < e.keys.len()
        invariant
            i <= e.keys@.len(),
            forall|j: int|
                0 <= j < i ==> !(lowercase((#[trigger] e.keys@[j])@).len() > 0 && keyword_on_boundary(
                    corpus@,
                    lowercase(e.keys@[j]@),
                )),
        decreases e.keys.len() - i,
    {
        let k = str_to_lowercase(e.keys[i].as_str());
        if !k.as_str().is_empty() && keyword_matches_at_word_boundary(corpus, k.as_str()) {
            return true;
        }
        i = i + 1;
    }
    false
}

/// The lorebook messages a conversation triggers, before the token cap:
/// enabled always-active entries, then enabled keyword entries with a key
/// on a word boundary in the last 20 messages (case-insensitive).
pub fn select_lorebook_messages(entries: &[LorebookEntry], chain: &[ChatMessage]) -> (r: Vec<ChatMessage>)
    ensures
        is_system_messages(r@, lorebook_contents(entries@, chain@)),
{
    let mut out: Vec<ChatMessage> = Vec::new();
    let mut k: usize = 0;
    while k < entries.len()
        invariant
            k <= entries@.len(),
            is_system_messages(out@, always_active_contents(entries@.take(k as int))),
        decreases entries.len() - k,
    {
        proof {
            assert(entries@.take(k as int + 1).drop_last() =~= entries@.take(k as int));
        }
        if entries[k].enabled && entries[k].always_active {
            out.push(ChatMessage { role: MessageRole::System, content: entries[k].content.clone() });
        }
        k = k + 1;
    }
    proof {
        assert(entries@.take(entries@.len() as int) =~= entries@);
    }
    let ghost always = always_active_contents(entries@);
    let corpus = build_keyword_corpus(chain);
    let mut k: usize = 0;
    while k < entries.len()
        invariant
            k <= entries@.len(),
            corpus@ == recent_corpus(chain@),
            always == always_active_contents(entries@),
            is_system_messages(out@, always + triggered_contents(entries@.take(k as int), corpus@)),
        decreases entries.len() - k,
    {
        proof {
            assert(entries@.take(k as int + 1).drop_last() =~= entries@.take(k as int));
        }
        let e = &entries[k];
        if e.enabled && !e.always_active && e.keys.len() > 0 && is_triggered(e, corpus.as_str()) {
            out.push(ChatMessage { role: MessageRole::System, content: e.content.clone() });
            proof {
                assert(always + triggered_contents(entries@.take(k as int + 1), corpus@) =~= (always
                    + triggered_contents(entries@.take(k as int), corpus@)).push(e.content@));
            }
        }
        k = k + 1;
    }
    proof {
        assert(entries@.take(entries@.len() as int) =~= entries@);
    }
    out
}

/// How many leading messages fit in `cap` tokens when they are added in
/// order until the first one that does not fit.
pub open spec fn fitting_prefix_from(msgs: Seq<ChatMessage>, cap: nat, k: nat) -> nat
    decreases msgs.len() - k,
{
    if k < msgs.len() && sum_message_tokens(msgs.take(k as int + 1)) <= cap {
        fitting_prefix_from(msgs, cap, k + 1)
    } else {
        k
    }
}

/// Keeps messages in order while their running token total stays within
/// `cap`, stopping at the first one that would exceed it (the lorebook cap
/// is filled in priority order).
pub fn take_within_budget(msgs: Vec<ChatMessage>, cap: usize) -> (r: Vec<ChatMessage>)
    ensures
        r@ == msgs@.take(fitting_prefix_from(msgs@, cap as nat, 0) as int),
        sum_message_tokens(r@) <= cap,
{
    let mut out: Vec<ChatMessage> = Vec::new();
    let mut used: usize = 0;
    let mut k: usize = 0;
    while k < msgs.len()
        invariant
            k <= msgs@.len(),
            out@ == msgs@.take(k as int),
            used == sum_message_tokens(msgs@.take(k as int)),
            used <= cap,
            fitting_prefix_from(msgs@, cap as nat, k as nat) == fitting_prefix_from(msgs@, cap as nat, 0),
        decreases msgs.len() - k,
    {
        let t = count_message_tokens(&msgs[k]);
        proof {
            assert(msgs@.take(k as int + 1).drop_last() =~= msgs@.take(k as int));
        }
        if t > cap - used {
            return out;
        }
        used = used + t;
        out.push(msgs[k].duplicate());
        proof {
            assert(out@ =~= msgs@.take(k as int + 1));
        }
        k = k + 1;
    }
    out
}

} // verus!

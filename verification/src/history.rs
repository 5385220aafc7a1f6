//! Message-tree walks: a conversation's messages form a tree through their
//! parent links, and a branch is the path from the root to one message.

use vstd::prelude::*;

use crate::text::str_eq;

verus! {

/// A message's id and the id of the message it replies to.
#[derive(Debug, Clone)]
pub struct MessageLink {
    pub id: String,
    pub parent_id: Option<String>,
}

/// The position of the message with this id (the last one, should an id
/// repeat), if any.
pub open spec fn position_of(msgs: Seq<MessageLink>, id: Seq<char>) -> Option<int> {
    if exists|i: int| 0 <= i < msgs.len() && (#[trigger] msgs[i]).id@ == id {
        Some(choose|i: int| 0 <= i < msgs.len() && (#[trigger] msgs[i]).id@ == id && forall|j: int| i < j < msgs.len() ==> (#[trigger] msgs[j]).id@ != id)
    } else {
        None
    }
}

proof fn lemma_last_match_exists(msgs: Seq<MessageLink>, id: Seq<char>, i: int)
    requires
        0 <= i < msgs.len(),
        msgs[i].id@ == id,
    ensures
        exists|k: int| 0 <= k < msgs.len() && (#[trigger] msgs[k]).id@ == id && forall|j: int| k < j < msgs.len() ==> (#[trigger] msgs[j]).id@ != id,
    decreases msgs.len() - i,
{
    if exists|j: int| i < j < msgs.len() && (#[trigger] msgs[j]).id@ == id {
        let j = choose|j: int| i < j < msgs.len() && (#[trigger] msgs[j]).id@ == id;
        lemma_last_match_exists(msgs, id, j);
    } else {
        assert(forall|j: int| i < j < msgs.len() ==> (#[trigger] msgs[j]).id@ != id);
    }
}

/// `position_of` finds the last message with the id, and none exists
/// where it finds nothing.
pub proof fn lemma_position_of(msgs: Seq<MessageLink>, id: Seq<char>)
    ensures
        match position_of(msgs, id) {
            Some(i) => 0 <= i < msgs.len() && msgs[i].id@ == id && forall|j: int| i < j < msgs.len() ==> (#[trigger] msgs[j]).id@ != id,
            None => forall|i: int| 0 <= i < msgs.len() ==> (#[trigger] msgs[i]).id@ != id,
        },
{
    if exists|i: int| 0 <= i < msgs.len() && (#[trigger] msgs[i]).id@ == id {
        let i = choose|i: int| 0 <= i < msgs.len() && (#[trigger] msgs[i]).id@ == id;
        lemma_last_match_exists(msgs, id, i);
    }
}

/// The position of the message with this id (see `position_of`).
fn find_message(msgs: &[MessageLink], id: &str) -> (r: Option<usize>)
    ensures
        match r {
            Some(i) => i < msgs@.len() && position_of(msgs@, id@) == Some(i as int),
            None => position_of(msgs@, id@) is None,
        },
{
    let mut i = msgs.len();
    while i > 0
        invariant
            i <= msgs@.len(),
            forall|j: int| i <= j < msgs@.len() ==> (#[trigger] msgs@[j]).id@ != id@,
        decreases i,
    {
        if str_eq(msgs[i - 1].id.as_str(), id) {
            proof {
                let c = choose|c: int| 0 <= c < msgs@.len() && (#[trigger] msgs@[c]).id@ == id@ && forall|j: int| c < j < msgs@.len() ==> (#[trigger] msgs@[j]).id@ != id@;
                assert(msgs@[i - 1].id@ == id@);
                if c < i - 1 {
                    assert(msgs@[i - 1].id@ != id@);
                }
            }
            return Some(i - 1);
        }
        i = i - 1;
    }
    None
}

/// Whether `path` (root first) is the branch the walk up from `start`
/// finds: it ends at `start`'s message, each message's parent is the one
/// before it, no message repeats, and the walk stops at the first message
/// whose parent is missing, unknown, or already on the path.
pub open spec fn is_branch_path(msgs: Seq<MessageLink>, start: Seq<char>, path: Seq<int>) -> bool {
    match position_of(msgs, start) {
        None => path.len() == 0,
        Some(s) => {
            &&& path.len() > 0
            &&& path.last() == s
            &&& forall|i: int| 0 <= i < path.len() ==> 0 <= #[trigger] path[i] < msgs.len()
            &&& forall|i: int, j: int| 0 <= i < j < path.len() ==> path[i] != path[j]
            &&& forall|i: int|
                0 <= i < path.len() - 1 ==> (msgs[#[trigger] path[i + 1]].parent_id matches Some(p)
                    && position_of(msgs, p@) == Some(path[i]))
            &&& match msgs[path[0]].parent_id {
                None => true,
                Some(p) => match position_of(msgs, p@) {
                    None => true,
                    Some(q) => exists|i: int| 0 <= i < path.len() && path[i] == q,
                },
            }
        },
    }
}

/// Whether the positions `c` (a non-empty run of distinct messages) close
/// a loop of parent links: each message's parent is the one before it, and
/// the first one's parent is the last.
pub open spec fn is_parent_cycle(msgs: Seq<MessageLink>, c: Seq<int>) -> bool {
    &&& c.len() > 0
    &&& forall|i: int| 0 <= i < c.len() ==> 0 <= #[trigger] c[i] < msgs.len()
    &&& forall|i: int| 0 <= i < c.len() - 1 ==> (msgs[#[trigger] c[i + 1]].parent_id matches Some(p)
        && position_of(msgs, p@) == Some(c[i]))
    &&& msgs[c[0]].parent_id matches Some(p) && position_of(msgs, p@) == Some(c.last())
}

/// Where no parent links loop, the branch found for a message runs from a
/// root: its first message has no parent, or a parent that is not stored.
#[verifier::rlimit(50)]
pub proof fn law_acyclic_branch_starts_at_a_root(msgs: Seq<MessageLink>, start: Seq<char>, path: Seq<int>)
    requires
        is_branch_path(msgs, start, path),
        path.len() > 0,
        forall|c: Seq<int>| !is_parent_cycle(msgs, c),
    ensures
        match msgs[path[0]].parent_id {
            None => true,
            Some(p) => position_of(msgs, p@) is None,
        },
{
    if let Some(p) = msgs[path[0]].parent_id {
        if let Some(q) = position_of(msgs, p@) {
            assert(exists|i: int| 0 <= i < path.len() && path[i] == q);
            let i = choose|i: int| 0 <= i < path.len() && path[i] == q;
            let c = path.take(i + 1);
            assert(c.last() == q);
            assert(c[0] == path[0]);
            assert forall|j: int| 0 <= j < c.len() - 1 implies (msgs[#[trigger] c[j + 1]].parent_id matches Some(pp)
                && position_of(msgs, pp@) == Some(c[j])) by {
                assert(c[j + 1] == path[j + 1]);
                assert(c[j] == path[j]);
            }
            assert(is_parent_cycle(msgs, c));
            assert(!is_parent_cycle(msgs, c));
        }
    }
}

/// Whether `q` is among `v`.
pub fn contains_index(v: &Vec<usize>, q: usize) -> (r: bool)
    ensures
        r == exists|i: int| 0 <= i < v@.len() && v@[i] == q,
{
    let mut k: usize = 0;
    while k < v.len()
        invariant
            k <= v@.len(),
            forall|j: int| 0 <= j < k ==> v@[j] != q,
        decreases v.len() - k,
    {
        if v[k] == q {
            return true;
        }
        k = k + 1;
    }
    false
}

/// The next message up the branch: the parent of message `cur`, unless it
/// is missing, unknown, or already visited.
fn next_up(msgs: &[MessageLink], cur: usize, visited: &Vec<usize>) -> (r: Option<usize>)
    requires
        cur < msgs@.len(),
    ensures
        match r {
            Some(q) => q < msgs@.len() && (msgs@[cur as int].parent_id matches Some(p) && position_of(msgs@, p@)
                == Some(q as int)) && forall|i: int| 0 <= i < visited@.len() ==> visited@[i] != q,
            None => match msgs@[cur as int].parent_id {
                None => true,
                Some(p) => match position_of(msgs@, p@) {
                    None => true,
                    Some(q) => exists|i: int| 0 <= i < visited@.len() && visited@[i] == q,
                },
            },
        },
{
    match &msgs[cur].parent_id {
        None => None,
        Some(p) => match find_message(msgs, p.as_str()) {
            None => None,
            Some(q) => if contains_index(visited, q) { None } else { Some(q) },
        },
    }
}

/// `rev` reversed, as a root-first branch path.
#[verifier::spinoff_prover]
#[verifier::rlimit(60)]
fn reversed_path(msgs: &[MessageLink], start: &str, rev: &Vec<usize>) -> (r: Vec<usize>)
    requires
        position_of(msgs@, start@) is Some,
        rev@.len() > 0,
        rev@[0] as int == position_of(msgs@, start@)->0,
        forall|i: int| 0 <= i < rev@.len() ==> (#[trigger] rev@[i]) < msgs@.len(),
        forall|i: int, j: int| 0 <= i < j < rev@.len() ==> rev@[i] != rev@[j],
        forall|i: int|
            0 <= i < rev@.len() - 1 ==> (msgs@[#[trigger] rev@[i] as int].parent_id matches Some(p)
                && position_of(msgs@, p@) == Some(rev@[i + 1] as int)),
        match msgs@[rev@.last() as int].parent_id {
            None => true,
            Some(p) => match position_of(msgs@, p@) {
                None => true,
                Some(q) => exists|i: int| 0 <= i < rev@.len() && rev@[i] == q,
            },
        },
    ensures
        is_branch_path(msgs@, start@, Seq::new(r@.len(), |i: int| r@[i] as int)),
{
    let mut path: Vec<usize> = Vec::new();
    let mut k = rev.len();
    while k > 0
        invariant
            k <= rev@.len(),
            path@.len() == rev@.len() - k,
            forall|i: int| 0 <= i < path@.len() ==> path@[i] == rev@[rev@.len() - 1 - i],
        decreases k,
    {
        path.push(rev[k - 1]);
        k = k - 1;
    }
    proof {
        let ps = Seq::new(path@.len(), |i: int| path@[i] as int);
        let n = rev@.len();
        assert forall|i: int| 0 <= i < ps.len() - 1 implies (msgs@[#[trigger] ps[i + 1]].parent_id matches Some(p)
            && position_of(msgs@, p@) == Some(ps[i])) by {
            assert(ps[i + 1] == rev@[n - 2 - i]);
            assert(ps[i] == rev@[n - 1 - i]);
            assert(n - 1 - i == (n - 2 - i) + 1);
        }
        assert forall|i: int, j: int| 0 <= i < j < ps.len() implies ps[i] != ps[j] by {
            assert(ps[i] == rev@[n - 1 - i]);
            assert(ps[j] == rev@[n - 1 - j]);
        }
        assert forall|i: int| 0 <= i < ps.len() implies 0 <= #[trigger] ps[i] < msgs@.len() by {
            assert(ps[i] == rev@[n - 1 - i]);
        }
        assert(ps[0] == rev@[n - 1]);
        assert(ps.last() == rev@[0]);
        match msgs@[ps[0]].parent_id {
            None => {},
            Some(p) => match position_of(msgs@, p@) {
                None => {},
                Some(q) => {
                    let j = choose|j: int| 0 <= j < rev@.len() && rev@[j] == q;
                    assert(ps[n - 1 - j] == q);
                },
            },
        }
    }
    path
}

/// Walks the parent links up from the message `start` and returns the
/// positions of the branch's messages, root first. A cycle in the links
/// stops the walk instead of looping.
#[verifier::spinoff_prover]
#[verifier::rlimit(40)]
pub fn branch_path(msgs: &[MessageLink], start: &str) -> (r: Vec<usize>)
    ensures
        is_branch_path(msgs@, start@, Seq::new(r@.len(), |i: int| r@[i] as int)),
{
    let mut rev: Vec<usize> = Vec::new();
    let mut cur = match find_message(msgs, start) {
        Some(i) => i,
        None => {
            let r: Vec<usize> = Vec::new();
            assert(Seq::new(r@.len(), |i: int| r@[i] as int) =~= Seq::<int>::empty());
            return r;
        },
    };
    loop
        invariant
            cur < msgs@.len(),
            position_of(msgs@, start@) is Some,
            rev@.len() < msgs@.len(),
            rev@.len() == 0 ==> cur as int == position_of(msgs@, start@)->0,
            rev@.len() > 0 ==> rev@[0] as int == position_of(msgs@, start@)->0,
            forall|i: int| 0 <= i < rev@.len() ==> (#[trigger] rev@[i]) < msgs@.len(),
            forall|i: int, j: int| 0 <= i < j < rev@.len() ==> rev@[i] != rev@[j],
            forall|i: int| 0 <= i < rev@.len() ==> rev@[i] != cur,
            forall|i: int|
                0 <= i < rev@.len() - 1 ==> (msgs@[#[trigger] rev@[i] as int].parent_id matches Some(p)
                    && position_of(msgs@, p@) == Some(rev@[i + 1] as int)),
            rev@.len() > 0 ==> (msgs@[rev@.last() as int].parent_id matches Some(p) && position_of(msgs@, p@) == Some(cur as int)),
        decreases msgs@.len() - rev@.len(),
    {
        let ghost before = rev@;
        rev.push(cur);
        proof {
            assert forall|i: int| 0 <= i < rev@.len() - 1 implies (msgs@[#[trigger] rev@[i] as int].parent_id matches Some(p)
                && position_of(msgs@, p@) == Some(rev@[i + 1] as int)) by {
                assert(rev@[i] == before[i]);
                if i + 1 < before.len() {
                    assert(rev@[i + 1] == before[i + 1]);
                }
            }
        }
        match next_up(msgs, cur, &rev) {
            Some(q) => {
                proof {
                    lemma_distinct_bounded(rev@, q, msgs@.len());
                }
                cur = q;
            },
            None => {
                return reversed_path(msgs, start, &rev);
            },
        }
    }
}

proof fn lemma_distinct_bounded(s: Seq<usize>, q: usize, n: nat)
    requires
        forall|i: int| 0 <= i < s.len() ==> (#[trigger] s[i]) < n,
        forall|i: int, j: int| 0 <= i < j < s.len() ==> s[i] != s[j],
        forall|i: int| 0 <= i < s.len() ==> s[i] != q,
        q < n,
    ensures
        s.len() < n,
{
    let t = s.push(q);
    let ti = Seq::new(t.len(), |i: int| t[i] as int);
    assert(ti.no_duplicates()) by {
        assert forall|i: int, j: int| 0 <= i < ti.len() && 0 <= j < ti.len() && i != j implies ti[i] != ti[j] by {
            if i < j {
                if j == s.len() {
                } else {
                }
            } else {
                if i == s.len() {
                } else {
                }
            }
        }
    }
    ti.unique_seq_to_set();
    vstd::set_lib::lemma_int_range(0, n as int);
    assert(ti.to_set().subset_of(vstd::set_lib::set_int_range(0, n as int))) by {
        assert forall|x: int| ti.to_set().contains(x) implies vstd::set_lib::set_int_range(0, n as int).contains(x) by {
            let i = choose|i: int| 0 <= i < ti.len() && ti[i] == x;
            if i < s.len() {
                assert(t[i] == s[i]);
            }
        }
    }
    vstd::set_lib::lemma_len_subset(ti.to_set(), vstd::set_lib::set_int_range(0, n as int));
}

/// The title of a branched conversation: the one given, or the parent's.
pub fn branch_title(title: Option<&str>, parent_title: &str) -> (r: String)
    ensures
        r@ == (match title {
            Some(t) => t@,
            None => parent_title@,
        }),
{
    match title {
        Some(t) => crate::text::owned(t),
        None => crate::text::owned(parent_title),
    }
}

/// A memory of the parent conversation as the branch copies it.
#[derive(Debug, Clone)]
pub struct MemoryCopy {
    pub character_id: Option<String>,
    pub content: String,
    /// Where the memory came from: always "auto" for a copy.
    pub source: String,
    /// The memory it was copied from.
    pub parent_memory_id: String,
    /// A copy starts a new history at version 1.
    pub version: i32,
    /// A copy is never canon.
    pub is_canon: bool,
}

/// The copy of a parent memory made for a branch: same owner and text,
/// pointing back at its source, at version 1, not canon.
pub fn memory_copy(source_id: &str, character_id: &Option<String>, content: &str) -> (r: MemoryCopy)
    ensures
        r.character_id == *character_id,
        r.content@ == content@,
        r.source@ == "auto"@,
        r.parent_memory_id@ == source_id@,
        r.version == 1,
        !r.is_canon,
{
    MemoryCopy {
        character_id: match character_id {
            Some(c) => Some(c.clone()),
            None => None,
        },
        content: crate::text::owned(content),
        source: crate::text::owned("auto"),
        parent_memory_id: crate::text::owned(source_id),
        version: 1,
        is_canon: false,
    }
}

} // verus!

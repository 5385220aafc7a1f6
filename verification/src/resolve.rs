//! Resolving a spoken character name to a known cast member.

use vstd::prelude::*;

use crate::text::{
    first_word, lowercase, split_words, str_eq, str_to_lowercase, words,
};

verus! {

/// Whether known name `n` matches the spoken `name` under rule `rule`:
/// 0 exact, 1 case-insensitive, 2 first name (case-insensitive), 3 a shared
/// whole word of the lowercased names.
pub open spec fn name_rule_matches(rule: nat, n: Seq<char>, name: Seq<char>) -> bool {
    if rule == 0 {
        n == name
    } else if rule == 1 {
        lowercase(n) == lowercase(name)
    } else if rule == 2 {
        first_word(n) matches Some(f) && lowercase(f) == lowercase(name)
    } else {
        exists|i: int, j: int|
            0 <= i < words(lowercase(n)).len() && 0 <= j < words(lowercase(name)).len()
                && #[trigger] words(lowercase(n))[i] == #[trigger] words(lowercase(name))[j]
    }
}

/// The first entry of `known` whose name matches under `rule`, if any.
pub open spec fn first_rule_match(known: Seq<(String, String)>, name: Seq<char>, rule: nat) -> Option<int> {
    if exists|k: int| 0 <= k < known.len() && name_rule_matches(rule, #[trigger] known[k].0@, name) {
        Some(
            choose|k: int|
                0 <= k < known.len() && name_rule_matches(rule, #[trigger] known[k].0@, name) && forall|
                    j: int,
                | 0 <= j < k ==> !name_rule_matches(rule, #[trigger] known[j].0@, name),
        )
    } else {
        None
    }
}

proof fn lemma_first_rule_match_exists(known: Seq<(String, String)>, name: Seq<char>, rule: nat, i: int)
    requires
        0 <= i < known.len(),
        name_rule_matches(rule, known[i].0@, name),
    ensures
        exists|k: int|
            0 <= k < known.len() && name_rule_matches(rule, #[trigger] known[k].0@, name) && forall|j: int|
                0 <= j < k ==> !name_rule_matches(rule, #[trigger] known[j].0@, name),
    decreases i,
{
    if exists|j: int| 0 <= j < i && name_rule_matches(rule, #[trigger] known[j].0@, name) {
        let j = choose|j: int| 0 <= j < i && name_rule_matches(rule, #[trigger] known[j].0@, name);
        lemma_first_rule_match_exists(known, name, rule, j);
    } else {
        assert(known[i].0@ == known[i].0@);
    }
}

/// `first_rule_match` finds the first entry the rule matches, and none
/// matches where it finds nothing.
pub proof fn lemma_first_rule_match_is_first(known: Seq<(String, String)>, name: Seq<char>, rule: nat)
    ensures
        match first_rule_match(known, name, rule) {
            Some(k) => 0 <= k < known.len() && name_rule_matches(rule, known[k].0@, name) && forall|j: int|
                0 <= j < k ==> !name_rule_matches(rule, #[trigger] known[j].0@, name),
            None => forall|k: int| 0 <= k < known.len() ==> !name_rule_matches(rule, #[trigger] known[k].0@, name),
        },
{
    if exists|k: int| 0 <= k < known.len() && name_rule_matches(rule, #[trigger] known[k].0@, name) {
        let k = choose|k: int| 0 <= k < known.len() && name_rule_matches(rule, #[trigger] known[k].0@, name);
        lemma_first_rule_match_exists(known, name, rule, k);
    }
}

/// The id a spoken name resolves to: the first entry matching exactly,
/// else case-insensitively, else by first name, else by a shared word.
pub open spec fn resolved_id(known: Seq<(String, String)>, name: Seq<char>) -> Option<Seq<char>> {
    if first_rule_match(known, name, 0) is Some {
        Some(known[first_rule_match(known, name, 0)->0].1@)
    } else if first_rule_match(known, name, 1) is Some {
        Some(known[first_rule_match(known, name, 1)->0].1@)
    } else if first_rule_match(known, name, 2) is Some {
        Some(known[first_rule_match(known, name, 2)->0].1@)
    } else if first_rule_match(known, name, 3) is Some {
        Some(known[first_rule_match(known, name, 3)->0].1@)
    } else {
        None
    }
}

proof fn lemma_first_rule_match(known: Seq<(String, String)>, name: Seq<char>, rule: nat, k: int)
    requires
        0 <= k <= known.len(),
        forall|j: int| 0 <= j < k ==> !name_rule_matches(rule, #[trigger] known[j].0@, name),
    ensures
        k < known.len() && name_rule_matches(rule, known[k].0@, name) ==> first_rule_match(
            known,
            name,
            rule,
        ) == Some(k),
        k == known.len() ==> first_rule_match(known, name, rule) is None,
{
    if k < known.len() && name_rule_matches(rule, known[k].0@, name) {
        let c = choose|c: int|
            0 <= c < known.len() && name_rule_matches(rule, #[trigger] known[c].0@, name) && forall|
                j: int,
            | 0 <= j < c ==> !name_rule_matches(rule, #[trigger] known[j].0@, name);
        assert(name_rule_matches(rule, known[k].0@, name) && forall|j: int|
            0 <= j < k ==> !name_rule_matches(rule, #[trigger] known[j].0@, name));
        if c < k {
        } else if c > k {
            assert(!name_rule_matches(rule, known[k].0@, name));
        }
    }
}

/// Whether two lists of words share a word.
fn share_a_word(a: &Vec<String>, b: &Vec<String>) -> (r: bool)
    ensures
        r == exists|i: int, j: int|
            0 <= i < a@.len() && 0 <= j < b@.len() && #[trigger] a@[i]@ == #[trigger] b@[j]@,
{
    let mut i: usize = 0;
    while i < a.len()
        invariant
            i <= a@.len(),
            forall|x: int, y: int|
                0 <= x < i && 0 <= y < b@.len() ==> #[trigger] a@[x]@ != #[trigger] b@[y]@,
        decreases a.len() - i,
    {
        let mut j: usize = 0;
        while j < b.len()
            invariant
                i < a@.len(),
                j <= b@.len(),
                forall|x: int, y: int|
                    0 <= x < i && 0 <= y < b@.len() ==> #[trigger] a@[x]@ != #[trigger] b@[y]@,
                forall|y: int| 0 <= y < j ==> a@[i as int]@ != #[trigger] b@[y]@,
            decreases b.len() - j,
        {
            if str_eq(a[i].as_str(), b[j].as_str()) {
                return true;
            }
            j = j + 1;
        }
        i = i + 1;
    }
    false
}

/// Whether known name `n` matches `name` under `rule` (see `name_rule_matches`).
fn rule_matches(rule: u8, n: &str, name: &str, name_lower: &str, name_words: &Vec<String>) -> (r: bool)
    requires
        rule <= 3,
        name_lower@ == lowercase(name@),
        name_words@.len() == words(lowercase(name@)).len(),
        forall|k: int| 0 <= k < name_words@.len() ==> #[trigger] name_words@[k]@ == words(lowercase(name@))[k],
    ensures
        r == name_rule_matches(rule as nat, n@, name@),
{
    if rule == 0 {
        str_eq(n, name)
    } else if rule == 1 {
        let nl = str_to_lowercase(n);
        str_eq(nl.as_str(), name_lower)
    } else if rule == 2 {
        let ws = split_words(n);
        if ws.len() == 0 {
            false
        } else {
            let fl = str_to_lowercase(ws[0].as_str());
            str_eq(fl.as_str(), name_lower)
        }
    } else {
        let nl = str_to_lowercase(n);
        let nws = split_words(nl.as_str());
        let r = share_a_word(&nws, name_words);
        proof {
            if r {
                let (i, j) = choose|i: int, j: int|
                    0 <= i < nws@.len() && 0 <= j < name_words@.len() && #[trigger] nws@[i]@
                        == #[trigger] name_words@[j]@;
                assert(words(lowercase(n@))[i] == words(lowercase(name@))[j]);
            } else {
                assert forall|i: int, j: int|
                    0 <= i < words(lowercase(n@)).len() && 0 <= j < words(lowercase(name@)).len()
                    implies #[trigger] words(lowercase(n@))[i] != #[trigger] words(lowercase(name@))[j] by {
                    assert(nws@[i]@ != name_words@[j]@);
                }
            }
        }
        r
    }
}

/// Resolves a parsed character name to its id from `(name, id)` pairs.
/// Tries, in order: exact match, case-insensitive match, first-name match
/// (e.g. "Roran" for "Roran Ironfist"), and a shared whole word (e.g.
/// "Shadowcloak" for "Finn Shadowcloak") — never an arbitrary substring, so
/// a new "Ari" does not resolve to "Aria Silverleaf".
pub fn resolve_character_id(name: &str, known_chars: &[(String, String)]) -> (r: Option<String>)
    ensures
        match r {
            Some(id) => resolved_id(known_chars@, name@) == Some(id@),
            None => resolved_id(known_chars@, name@) is None,
        },
{
    let name_lower = str_to_lowercase(name);
    let name_words = split_words(name_lower.as_str());
    let mut rule: u8 = 0;
    while rule <= 3
        invariant
            name_lower@ == lowercase(name@),
            name_words@.len() == words(lowercase(name@)).len(),
            forall|k: int| 0 <= k < name_words@.len() ==> #[trigger] name_words@[k]@ == words(lowercase(name@))[k],
            forall|q: nat| q < rule ==> first_rule_match(known_chars@, name@, q) is None,
        decreases 4 - rule,
    {
        let mut k: usize = 0;
        while k < known_chars.len()
            invariant
                rule <= 3,
                k <= known_chars@.len(),
                name_lower@ == lowercase(name@),
                name_words@.len() == words(lowercase(name@)).len(),
                forall|x: int| 0 <= x < name_words@.len() ==> #[trigger] name_words@[x]@ == words(lowercase(name@))[x],
                forall|q: nat| q < rule ==> first_rule_match(known_chars@, name@, q) is None,
                forall|j: int| 0 <= j < k ==> !name_rule_matches(rule as nat, #[trigger] known_chars@[j].0@, name@),
            decreases known_chars.len() - k,
        {
            if rule_matches(rule, known_chars[k].0.as_str(), name, name_lower.as_str(), &name_words) {
                proof {
                    lemma_first_rule_match(known_chars@, name@, rule as nat, k as int);
                }
                return Some(known_chars[k].1.clone());
            }
            k = k + 1;
        }
        proof {
            lemma_first_rule_match(known_chars@, name@, rule as nat, k as int);
        }
        rule = rule + 1;
    }
    None
}

} // verus!

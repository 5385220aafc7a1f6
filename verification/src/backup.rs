//! Rotation of the dated manual backups: which files in the backup
//! directory are manual exports, and which of them are old enough to go.

use vstd::prelude::*;
use vstd::set_lib::*;

use crate::history::contains_index;
use crate::text::{chars_of, chars_occur_at, starts_with, str_starts_with};

verus! {

/// Number of dated manual-export files kept before the oldest are pruned.
pub const MAX_MANUAL_BACKUPS: usize = 10;

/// A file found in the backup directory: its name and, when the file
/// system reports one, its modification time in nanoseconds since the
/// Unix epoch.
#[derive(Debug, Clone)]
pub struct BackupFile {
    pub name: String,
    pub modified: Option<u128>,
}

/// Whether `s` ends with `suffix`.
pub open spec fn ends_with(s: Seq<char>, suffix: Seq<char>) -> bool {
    suffix.len() <= s.len() && s.subrange(s.len() - suffix.len(), s.len() as int) == suffix
}

/// Whether a file name follows the manual-export pattern
/// `janus_backup_*.surql` (the rolling automatic backup does not).
pub open spec fn is_manual_backup_name(name: Seq<char>) -> bool {
    starts_with(name, "janus_backup_"@) && ends_with(name, ".surql"@)
}

/// Whether a file name follows the manual-export pattern.
pub fn is_manual_backup(name: &str) -> (r: bool)
    ensures
        r == is_manual_backup_name(name@),
{
    if !str_starts_with(name, "janus_backup_") {
        return false;
    }
    let v = chars_of(name);
    let suffix = chars_of(".surql");
    if suffix.len() > v.len() {
        return false;
    }
    chars_occur_at(&v, &suffix, v.len() - suffix.len())
}

/// Whether a file takes part in the rotation: a manual export whose
/// modification time is known.
pub open spec fn is_rotated(f: BackupFile) -> bool {
    is_manual_backup_name(f.name@) && f.modified is Some
}

/// The positions among the first `k` files that take part in the rotation.
pub open spec fn rotated_upto(files: Seq<BackupFile>, k: int) -> Set<int> {
    Set::new(|i: int| 0 <= i < k && is_rotated(files[i]))
}

/// How many files the rotation removes when `count` take part in it.
pub open spec fn excess_backups(count: nat) -> nat {
    if count > MAX_MANUAL_BACKUPS { (count - MAX_MANUAL_BACKUPS) as nat } else { 0 }
}

/// File `i` was modified before file `j`, or at the same time and listed
/// first (the order a stable sort by modification time leaves them in).
pub open spec fn older(files: Seq<BackupFile>, i: int, j: int) -> bool {
    let a = files[i].modified->0;
    let b = files[j].modified->0;
    a < b || (a == b && i < j)
}

proof fn lemma_rotated_upto_finite(files: Seq<BackupFile>, k: int)
    requires
        0 <= k,
    ensures
        rotated_upto(files, k).finite(),
        rotated_upto(files, k).len() <= k,
{
    lemma_int_range(0, k);
    assert(rotated_upto(files, k).subset_of(set_int_range(0, k)));
    lemma_len_subset(rotated_upto(files, k), set_int_range(0, k));
}

proof fn lemma_rotated_step(files: Seq<BackupFile>, k: int)
    requires
        0 <= k < files.len(),
    ensures
        is_rotated(files[k]) ==> rotated_upto(files, k + 1) == rotated_upto(files, k).insert(k),
        !is_rotated(files[k]) ==> rotated_upto(files, k + 1) == rotated_upto(files, k),
{
    if is_rotated(files[k]) {
        assert(rotated_upto(files, k + 1) =~= rotated_upto(files, k).insert(k));
    } else {
        assert(rotated_upto(files, k + 1) =~= rotated_upto(files, k));
    }
}

/// Whether position `j` is among `picked`.
pub open spec fn picked_has(picked: Seq<usize>, j: int) -> bool {
    exists|w: int| 0 <= w < picked.len() && picked[w] == j
}

/// How many files take part in the rotation.
fn count_rotated(files: &[BackupFile]) -> (n: usize)
    ensures
        n == rotated_upto(files@, files@.len() as int).len(),
{
    let mut n: usize = 0;
    let mut k: usize = 0;
    proof {
        assert(rotated_upto(files@, 0) =~= Set::<int>::empty());
    }
    while k < files.len()
        invariant
            k <= files@.len(),
            n <= k,
            n == rotated_upto(files@, k as int).len(),
        decreases files.len() - k,
    {
        proof {
            lemma_rotated_step(files@, k as int);
            lemma_rotated_upto_finite(files@, k as int);
        }
        if is_manual_backup(files[k].name.as_str()) && files[k].modified.is_some() {
            n = n + 1;
        }
        k = k + 1;
    }
    n
}

/// Among the rotated files not yet in `picked`, the oldest, if any.
fn oldest_unpicked(files: &[BackupFile], picked: &Vec<usize>) -> (r: Option<usize>)
    ensures
        match r {
            Some(b) => {
                &&& b < files@.len()
                &&& is_rotated(files@[b as int])
                &&& !picked_has(picked@, b as int)
                &&& forall|j: int|
                    0 <= j < files@.len() && is_rotated(#[trigger] files@[j]) && !picked_has(picked@, j) && j
                        != b ==> older(files@, b as int, j)
            },
            None => forall|j: int|
                0 <= j < files@.len() && is_rotated(#[trigger] files@[j]) ==> picked_has(picked@, j),
        },
{
    let mut best: Option<usize> = None;
    let mut j: usize = 0;
    while j < files.len()
        invariant
            j <= files@.len(),
            match best {
                Some(b) => {
                    &&& b < j
                    &&& is_rotated(files@[b as int])
                    &&& !picked_has(picked@, b as int)
                    &&& forall|i: int|
                        0 <= i < j && is_rotated(#[trigger] files@[i]) && !picked_has(picked@, i) && i != b
                            ==> older(files@, b as int, i)
                },
                None => forall|i: int| 0 <= i < j && is_rotated(#[trigger] files@[i]) ==> picked_has(picked@, i),
            },
        decreases files.len() - j,
    {
        let f = &files[j];
        let taken = contains_index(picked, j);
        if !taken && is_manual_backup(f.name.as_str()) {
            match f.modified {
                Some(m) => {
                    let replace = match best {
                        Some(b) => match files[b].modified {
                            Some(bm) => m < bm,
                            None => true,
                        },
                        None => true,
                    };
                    if replace {
                        best = Some(j);
                    }
                },
                None => {},
            }
        }
        j = j + 1;
    }
    best
}

/// Which backup files to delete so that at most `MAX_MANUAL_BACKUPS`
/// manual exports remain: the oldest ones beyond that number, as positions
/// in `files`. Files that are not manual exports, or whose modification
/// time is unknown, are never chosen.
pub fn backups_to_prune(files: &[BackupFile]) -> (r: Vec<usize>)
    ensures
        r@.no_duplicates(),
        r@.len() == excess_backups(rotated_upto(files@, files@.len() as int).len()),
        forall|k: int| 0 <= k < r@.len() ==> r@[k] < files@.len() && is_rotated(files@[#[trigger] r@[k] as int]),
        forall|k: int, j: int|
            0 <= k < r@.len() && 0 <= j < files@.len() && is_rotated(#[trigger] files@[j]) && !picked_has(r@, j)
                ==> older(files@, #[trigger] r@[k] as int, j),
{
    let count = count_rotated(files);
    let excess: usize = if count > MAX_MANUAL_BACKUPS { count - MAX_MANUAL_BACKUPS } else { 0 };
    let ghost all = rotated_upto(files@, files@.len() as int);
    proof {
        lemma_rotated_upto_finite(files@, files@.len() as int);
    }
    let mut picked: Vec<usize> = Vec::new();
    while picked.len() < excess
        invariant
            excess <= count,
            count == all.len(),
            all == rotated_upto(files@, files@.len() as int),
            all.finite(),
            excess == excess_backups(count as nat),
            picked@.len() <= excess,
            picked@.no_duplicates(),
            forall|k: int|
                0 <= k < picked@.len() ==> picked@[k] < files@.len() && is_rotated(files@[#[trigger] picked@[k] as int]),
            forall|k: int, j: int|
                0 <= k < picked@.len() && 0 <= j < files@.len() && is_rotated(#[trigger] files@[j])
                    && !picked_has(picked@, j) ==> older(files@, #[trigger] picked@[k] as int, j),
        decreases excess - picked@.len(),
    {
        let next = oldest_unpicked(files, &picked);
        match next {
            Some(b) => {
                let ghost before = picked@;
                picked.push(b);
                proof {
                    assert(picked@ == before.push(b));
                    assert forall|j: int| picked_has(before, j) implies #[trigger] picked_has(picked@, j) by {
                        let w = choose|w: int| 0 <= w < before.len() && before[w] == j;
                        assert(picked@[w] == j);
                    }
                    assert(picked_has(picked@, b as int)) by {
                        assert(picked@[before.len() as int] == b);
                    }
                    assert forall|k: int, j: int|
                        0 <= k < picked@.len() && 0 <= j < files@.len() && is_rotated(#[trigger] files@[j])
                            && !picked_has(picked@, j) implies older(files@, #[trigger] picked@[k] as int, j) by {
                        if k < before.len() {
                            assert(picked@[k] == before[k]);
                        }
                    }
                    assert forall|x: int, y: int| 0 <= x < y < picked@.len() implies picked@[x] != picked@[y] by {
                        if y == before.len() {
                            assert(picked@[x] == before[x]);
                            assert(picked_has(before, before[x] as int));
                        }
                    }
                }
            },
            None => {
                proof {
                    let ints = picked@.map_values(|x: usize| x as int);
                    let ps = ints.to_set();
                    assert forall|j: int| all.contains(j) implies ps.contains(j) by {
                        assert(is_rotated(files@[j]));
                        assert(picked_has(picked@, j));
                        let w = choose|w: int| 0 <= w < picked@.len() && picked@[w] == j;
                        assert(ints[w] == j);
                    }
                    assert(all.subset_of(ps));
                    assert forall|x: int, y: int| 0 <= x < y < ints.len() implies ints[x] != ints[y] by {
                        assert(picked@[x] != picked@[y]);
                    }
                    assert(ints.no_duplicates());
                    ints.unique_seq_to_set();
                    lemma_len_subset(all, ps);
                }
            },
        }
    }
    picked
}

/// The rolling automatic backup never follows the manual-export pattern,
/// so the rotation never removes it.
pub proof fn law_auto_backup_is_never_rotated(f: BackupFile)
    requires
        f.name@ == "janus_auto_backup.surql"@,
    ensures
        !is_rotated(f),
{
    reveal_strlit("janus_auto_backup.surql");
    reveal_strlit("janus_backup_");
    assert(f.name@[6] == 'a');
    assert("janus_backup_"@[6] == 'b');
    assert(f.name@.subrange(0, 13)[6] != "janus_backup_"@[6]);
}

} // verus!

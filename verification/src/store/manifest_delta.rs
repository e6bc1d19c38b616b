//! The changes between two manifests, by path, and their replay onto
//! another manifest: how a publication that lost a race rebases its
//! desired entries onto the view's newer manifest.

use vstd::prelude::*;

use crate::json::sha256_of;
use crate::sorted::{keys, strictly_sorted, SortedKey};
use crate::store::manifest_build::{entries_bytes, entry_bytes, manifest_bytes, VersionLookup};
use crate::store::manifest::{ManifestEntry, ManifestEntryStatus};
use crate::text::{hex_text, lemma_text_lt_order, owned, str_eq, str_less, text_lt};

verus! {

/// Two entries say the same of their path: every field but the time of
/// indexing agrees.
pub open spec fn same_entry(a: ManifestEntry, b: ManifestEntry) -> bool {
    &&& a.path@ == b.path@
    &&& a.language@ == b.language@
    &&& a.version_id == b.version_id
    &&& a.status == b.status
    &&& a.observed_content_hash@ == b.observed_content_hash@
    &&& opt_view(a.error_class) == opt_view(b.error_class)
    &&& opt_view(a.error_json) == opt_view(b.error_json)
}

/// The text an optional string holds.
pub open spec fn opt_view(o: Option<String>) -> Option<Seq<char>> {
    match o {
        Some(s) => Some(s@),
        None => None,
    }
}

/// Some entry of `v` holds path `p`.
pub open spec fn holds_path(v: Seq<ManifestEntry>, p: Seq<char>) -> bool {
    exists|i: int| 0 <= i < v.len() && (#[trigger] v[i]).path@ == p
}

/// Some entry of `v` below index `n` holds path `p`.
pub open spec fn held_below(v: Seq<ManifestEntry>, p: Seq<char>, n: int) -> bool {
    exists|b: int| 0 <= b < n && b < v.len() && (#[trigger] v[b]).path@ == p
}

/// The entry of `v` at path `p`, if any (for runs without repeated paths).
pub open spec fn entry_at(v: Seq<ManifestEntry>, p: Seq<char>) -> Option<ManifestEntry> {
    if holds_path(v, p) {
        Some(v[choose|i: int| 0 <= i < v.len() && (#[trigger] v[i]).path@ == p])
    } else {
        None
    }
}

/// What the delta does at a path: nothing, a removal, or the entry to put
/// there.
pub open spec fn change_at(changes: Seq<(String, Option<ManifestEntry>)>, p: Seq<char>) -> Option<
    Option<ManifestEntry>,
> {
    if exists|i: int| 0 <= i < changes.len() && (#[trigger] changes[i]).0@ == p {
        Some(changes[choose|i: int| 0 <= i < changes.len() && (#[trigger] changes[i]).0@ == p].1)
    } else {
        None
    }
}

/// The change that turns `base` into `desired` at path `p`: a different
/// entry is put, a vanished one removed, a same one left alone.
pub open spec fn expected_change(base: Seq<ManifestEntry>, desired: Seq<ManifestEntry>, p: Seq<char>) -> Option<
    Option<ManifestEntry>,
> {
    match (entry_at(base, p), entry_at(desired, p)) {
        (Some(b), Some(d)) => if same_entry(b, d) {
            None
        } else {
            Some(Some(d))
        },
        (Some(_), None) => Some(None),
        (None, Some(d)) => Some(Some(d)),
        (None, None) => None,
    }
}

/// The entry at a path after a change.
pub open spec fn applied(e: Option<ManifestEntry>, c: Option<Option<ManifestEntry>>) -> Option<ManifestEntry> {
    match c {
        None => e,
        Some(x) => x,
    }
}

/// The changes name each path once, and each entry put sits at its path.
pub open spec fn changes_wf(changes: Seq<(String, Option<ManifestEntry>)>) -> bool {
    &&& forall|i: int, j: int|
        0 <= i < j < changes.len() ==> (#[trigger] changes[i]).0@ != (#[trigger] changes[j]).0@
    &&& forall|i: int|
        0 <= i < changes.len() ==> ((#[trigger] changes[i]).1 matches Some(e) ==> e.path@ == changes[i].0@)
}

/// The changes between two manifests, by path.
#[derive(Debug, Clone, PartialEq, Eq)]
pub struct ManifestDelta {
    changes: Vec<(String, Option<ManifestEntry>)>,
}

impl ManifestDelta {
    /// The changes, by path.
    pub closed spec fn changes_value(&self) -> Seq<(String, Option<ManifestEntry>)> {
        self.changes@
    }

    pub open spec fn wf(&self) -> bool {
        changes_wf(self.changes_value())
    }
}

fn copy_opt(o: &Option<String>) -> (r: Option<String>)
    ensures
        r == *o,
{
    match o {
        Some(s) => Some(s.clone()),
        None => None,
    }
}

fn copy_entry(e: &ManifestEntry) -> (c: ManifestEntry)
    ensures
        c == *e,
{
    ManifestEntry {
        path: e.path.clone(),
        language: e.language.clone(),
        version_id: e.version_id,
        status: e.status,
        observed_content_hash: e.observed_content_hash.clone(),
        indexed_at: e.indexed_at.clone(),
        error_class: copy_opt(&e.error_class),
        error_json: copy_opt(&e.error_json),
    }
}

fn opt_str_eq(a: &Option<String>, b: &Option<String>) -> (r: bool)
    ensures
        r == (opt_view(*a) == opt_view(*b)),
{
    match (a, b) {
        (Some(x), Some(y)) => str_eq(x.as_str(), y.as_str()),
        (None, None) => true,
        _ => false,
    }
}

fn entries_same(a: &ManifestEntry, b: &ManifestEntry) -> (r: bool)
    ensures
        r == same_entry(*a, *b),
{
    str_eq(a.path.as_str(), b.path.as_str()) && str_eq(a.language.as_str(), b.language.as_str())
        && a.version_id == b.version_id && a.status == b.status && str_eq(
        a.observed_content_hash.as_str(),
        b.observed_content_hash.as_str(),
    ) && opt_str_eq(&a.error_class, &b.error_class) && opt_str_eq(&a.error_json, &b.error_json)
}

/// In a run ascending by path, the one entry at `p` is the one at index
/// `i`.
proof fn lemma_entry_at_index(v: Seq<ManifestEntry>, i: int)
    requires
        strictly_sorted::<ManifestEntry>(keys(v)),
        0 <= i < v.len(),
    ensures
        entry_at(v, v[i].path@) == Some(v[i]),
{
    assert(keys(v)[i] == v[i].path@);
    assert(holds_path(v, v[i].path@));
    let j = choose|j: int| 0 <= j < v.len() && (#[trigger] v[j]).path@ == v[i].path@;
    if j != i {
        assert(keys(v)[j] == v[j].path@);
        if j < i {
            assert(text_lt(keys(v)[j], keys(v)[i]));
        } else {
            assert(text_lt(keys(v)[i], keys(v)[j]));
        }
        lemma_text_lt_order(v[i].path@, v[i].path@, v[i].path@);
    }
}

/// Finds the entry at `p` in a run ascending by path.
fn find_path(v: &Vec<ManifestEntry>, p: &str) -> (r: Option<usize>)
    requires
        strictly_sorted::<ManifestEntry>(keys(v@)),
    ensures
        match r {
            Some(i) => i < v@.len() && v@[i as int].path@ == p@ && entry_at(v@, p@) == Some(v@[i as int]),
            None => !holds_path(v@, p@) && entry_at(v@, p@) is None,
        },
{
    let mut i: usize = 0;
    while i < v.len()
        invariant
            i <= v@.len(),
            strictly_sorted::<ManifestEntry>(keys(v@)),
            forall|k: int| 0 <= k < i ==> (#[trigger] v@[k]).path@ != p@,
        decreases v@.len() - i,
    {
        if str_eq(v[i].path.as_str(), p) {
            proof {
                lemma_entry_at_index(v@, i as int);
            }
            return Some(i);
        }
        i = i + 1;
    }
    None
}

/// In changes that name each path once, the change at the path of entry
/// `i` is its own.
proof fn lemma_change_at_index(changes: Seq<(String, Option<ManifestEntry>)>, i: int)
    requires
        changes_wf(changes),
        0 <= i < changes.len(),
    ensures
        change_at(changes, changes[i].0@) == Some(changes[i].1),
{
    let j = choose|j: int| 0 <= j < changes.len() && (#[trigger] changes[j]).0@ == changes[i].0@;
    if j != i {
        if j < i {
            assert(changes[j].0@ != changes[i].0@);
        } else {
            assert(changes[i].0@ != changes[j].0@);
        }
    }
}

impl ManifestDelta {
    /// The changes that turn `base` into `desired`; both ascend by path.
    pub fn between(base: &Vec<ManifestEntry>, desired: &Vec<ManifestEntry>) -> (r: Self)
        requires
            strictly_sorted::<ManifestEntry>(keys(base@)),
            strictly_sorted::<ManifestEntry>(keys(desired@)),
        ensures
            r.wf(),
            forall|p: Seq<char>| #[trigger] change_at(r.changes_value(), p) == expected_change(base@, desired@, p),
    {
        let mut changes: Vec<(String, Option<ManifestEntry>)> = Vec::new();
        let mut i: usize = 0;
        while i < base.len()
            invariant
                i <= base@.len(),
                strictly_sorted::<ManifestEntry>(keys(base@)),
                strictly_sorted::<ManifestEntry>(keys(desired@)),
                changes_wf(changes@),
                forall|k: int| 0 <= k < changes@.len() ==> held_below(base@, (#[trigger] changes@[k]).0@, i as int),
                forall|p: Seq<char>| held_below(base@, p, i as int) ==> #[trigger] change_at(changes@, p)
                    == expected_change(base@, desired@, p),
            decreases base@.len() - i,
        {
            proof {
                lemma_entry_at_index(base@, i as int);
            }
            let ghost p = base@[i as int].path@;
            let ghost before = changes@;
            let found = find_path(desired, base[i].path.as_str());
            let change: Option<Option<ManifestEntry>> = match found {
                Some(j) => if entries_same(&base[i], &desired[j]) {
                    None
                } else {
                    Some(Some(copy_entry(&desired[j])))
                },
                None => Some(None),
            };
            match change {
                Some(c) => {
                    changes.push((owned(base[i].path.as_str()), c));
                },
                None => {},
            }
            proof {
                // The new path is not named by any earlier change.
                assert forall|k: int| 0 <= k < before.len() implies (#[trigger] before[k]).0@ != p by {
                    assert(held_below(base@, before[k].0@, i as int));
                    let b = choose|b: int| 0 <= b < i && b < base@.len() && (#[trigger] base@[b]).path@ == before[k].0@;
                    assert(keys(base@)[b] == base@[b].path@ && keys(base@)[i as int] == p);
                    assert(text_lt(keys(base@)[b], keys(base@)[i as int]));
                    lemma_text_lt_order(p, p, p);
                }
                if changes@.len() > before.len() {
                    lemma_change_at_index(changes@, before.len() as int);
                }
                assert forall|k: int| 0 <= k < changes@.len() implies held_below(base@, (#[trigger] changes@[k]).0@, i + 1) by {
                    if k < before.len() {
                        assert(changes@[k] == before[k]);
                        assert(held_below(base@, before[k].0@, i as int));
                        let b = choose|b: int| 0 <= b < i && b < base@.len() && (#[trigger] base@[b]).path@ == before[k].0@;
                        assert(held_below(base@, changes@[k].0@, i + 1));
                    } else {
                        assert(changes@[k].0@ == base@[i as int].path@);
                        assert(held_below(base@, changes@[k].0@, i + 1));
                    }
                }
                assert forall|p2: Seq<char>| held_below(base@, p2, i + 1) implies #[trigger] change_at(
                    changes@,
                    p2,
                ) == expected_change(base@, desired@, p2) by {
                    if p2 == p {
                        if changes@.len() > before.len() {
                            assert(changes@[before.len() as int].0@ == p);
                        } else {
                            assert(!exists|k: int| 0 <= k < changes@.len() && (#[trigger] changes@[k]).0@ == p);
                        }
                    } else {
                        let b = choose|b: int| 0 <= b < i + 1 && b < base@.len() && (#[trigger] base@[b]).path@ == p2;
                        assert(b < i);
                        assert(held_below(base@, p2, i as int));
                        assert(change_at(before, p2) == expected_change(base@, desired@, p2));
                        if exists|k: int| 0 <= k < before.len() && (#[trigger] before[k]).0@ == p2 {
                            let k = choose|k: int| 0 <= k < before.len() && (#[trigger] before[k]).0@ == p2;
                            lemma_change_at_index(before, k);
                            lemma_change_at_index(changes@, k);
                        } else {
                            assert(!exists|k: int| 0 <= k < changes@.len() && (#[trigger] changes@[k]).0@ == p2);
                        }
                    }
                }
            }
            i = i + 1;
        }
        let mut j: usize = 0;
        while j < desired.len()
            invariant
                j <= desired@.len(),
                strictly_sorted::<ManifestEntry>(keys(base@)),
                strictly_sorted::<ManifestEntry>(keys(desired@)),
                changes_wf(changes@),
                forall|k: int|
                    0 <= k < changes@.len() ==> held_below(base@, (#[trigger] changes@[k]).0@, base@.len() as int)
                        || held_below(desired@, changes@[k].0@, j as int),
                forall|p: Seq<char>|
                    (held_below(base@, p, base@.len() as int) || held_below(desired@, p, j as int)) ==> #[trigger] change_at(
                        changes@,
                        p,
                    ) == expected_change(base@, desired@, p),
            decreases desired@.len() - j,
        {
            proof {
                lemma_entry_at_index(desired@, j as int);
            }
            let ghost p = desired@[j as int].path@;
            let ghost before = changes@;
            let in_base = find_path(base, desired[j].path.as_str());
            if in_base.is_none() {
                changes.push((owned(desired[j].path.as_str()), Some(copy_entry(&desired[j]))));
                proof {
                    assert forall|k: int| 0 <= k < before.len() implies (#[trigger] before[k]).0@ != p by {
                        if held_below(base@, before[k].0@, base@.len() as int) {
                            let b = choose|b: int| 0 <= b < base@.len() && b < base@.len() && (#[trigger] base@[b]).path@ == before[k].0@;
                            assert(holds_path(base@, base@[b].path@));
                        } else {
                            assert(held_below(desired@, before[k].0@, j as int));
                            let d = choose|d: int| 0 <= d < j && d < desired@.len() && (#[trigger] desired@[d]).path@ == before[k].0@;
                            assert(keys(desired@)[d] == desired@[d].path@ && keys(desired@)[j as int] == p);
                            assert(text_lt(keys(desired@)[d], keys(desired@)[j as int]));
                            lemma_text_lt_order(p, p, p);
                        }
                    }
                    lemma_change_at_index(changes@, before.len() as int);
                }
            }
            proof {
                assert forall|k: int| 0 <= k < changes@.len() implies held_below(base@, (#[trigger] changes@[k]).0@, base@.len() as int)
                    || held_below(desired@, changes@[k].0@, j + 1) by {
                    if k < before.len() {
                        assert(changes@[k] == before[k]);
                        if !held_below(base@, before[k].0@, base@.len() as int) {
                            assert(held_below(desired@, before[k].0@, j as int));
                            let d = choose|d: int| 0 <= d < j && d < desired@.len() && (#[trigger] desired@[d]).path@ == before[k].0@;
                            assert(held_below(desired@, changes@[k].0@, j + 1));
                        }
                    } else {
                        assert(changes@[k].0@ == desired@[j as int].path@);
                        assert(held_below(desired@, changes@[k].0@, j + 1));
                    }
                }
                assert forall|p2: Seq<char>|
                    (held_below(base@, p2, base@.len() as int) || held_below(desired@, p2, j + 1)) implies #[trigger] change_at(
                        changes@,
                        p2,
                    ) == expected_change(base@, desired@, p2) by {
                    let in_old = held_below(base@, p2, base@.len() as int) || held_below(desired@, p2, j as int);
                    if !in_old {
                        let d = choose|d: int| 0 <= d < j + 1 && d < desired@.len() && (#[trigger] desired@[d]).path@ == p2;
                        assert(d == j);
                    }
                    if in_old {
                        assert(change_at(before, p2) == expected_change(base@, desired@, p2));
                        if exists|k: int| 0 <= k < before.len() && (#[trigger] before[k]).0@ == p2 {
                            let k = choose|k: int| 0 <= k < before.len() && (#[trigger] before[k]).0@ == p2;
                            lemma_change_at_index(before, k);
                            lemma_change_at_index(changes@, k);
                        } else {
                            if changes@.len() > before.len() {
                                if p2 == p && !held_below(base@, p2, base@.len() as int) {
                                    let d = choose|d: int| 0 <= d < j && d < desired@.len() && (#[trigger] desired@[d]).path@ == p2;
                                    assert(keys(desired@)[d] == desired@[d].path@ && keys(desired@)[j as int] == p);
                                    assert(text_lt(keys(desired@)[d], keys(desired@)[j as int]));
                                    lemma_text_lt_order(p, p, p);
                                }
                            }
                            assert(!exists|k: int| 0 <= k < changes@.len() && (#[trigger] changes@[k]).0@ == p2);
                        }
                    } else {
                        assert(p2 == p);
                        if holds_path(base@, p) {
                            let b = choose|b: int| 0 <= b < base@.len() && (#[trigger] base@[b]).path@ == p;
                            assert(held_below(base@, p, base@.len() as int));
                        }
                        assert(changes@.len() > before.len());
                    }
                }
            }
            j = j + 1;
        }
        let r = ManifestDelta { changes };
        proof {
            assert forall|p: Seq<char>| #[trigger] change_at(r.changes_value(), p) == expected_change(base@, desired@, p) by {
                if !holds_path(base@, p) && !holds_path(desired@, p) {
                    if exists|k: int| 0 <= k < changes@.len() && (#[trigger] changes@[k]).0@ == p {
                        let k = choose|k: int| 0 <= k < changes@.len() && (#[trigger] changes@[k]).0@ == p;
                        if held_below(base@, changes@[k].0@, base@.len() as int) {
                            let b = choose|b: int| 0 <= b < base@.len() && b < base@.len() && (#[trigger] base@[b]).path@ == changes@[k].0@;
                            assert(holds_path(base@, p));
                        } else {
                            assert(held_below(desired@, changes@[k].0@, desired@.len() as int));
                            let d = choose|d: int| 0 <= d < desired@.len() && d < desired@.len() && (#[trigger] desired@[d]).path@ == changes@[k].0@;
                            assert(holds_path(desired@, p));
                        }
                    }
                } else if holds_path(base@, p) {
                    let b = choose|b: int| 0 <= b < base@.len() && (#[trigger] base@[b]).path@ == p;
                    assert(held_below(base@, p, base@.len() as int));
                } else {
                    let d = choose|d: int| 0 <= d < desired@.len() && (#[trigger] desired@[d]).path@ == p;
                    assert(held_below(desired@, p, desired@.len() as int));
                }
            }
        }
        r
    }
}


/// The change of the first `k` changes at `p`: the last of them, when the
/// `k`-th names `p`; otherwise that of the first `k - 1`.
proof fn lemma_change_prefix(changes: Seq<(String, Option<ManifestEntry>)>, k: int, p: Seq<char>)
    requires
        changes_wf(changes),
        0 <= k < changes.len(),
    ensures
        change_at(changes.take(k + 1), p) == if changes[k].0@ == p {
            Some(changes[k].1)
        } else {
            change_at(changes.take(k), p)
        },
{
    let a = changes.take(k);
    let b = changes.take(k + 1);
    assert(changes_wf(b)) by {
        assert forall|i: int, j: int| 0 <= i < j < b.len() implies (#[trigger] b[i]).0@ != (#[trigger] b[j]).0@ by {
            assert(b[i] == changes[i] && b[j] == changes[j]);
        }
        assert forall|i: int| 0 <= i < b.len() implies ((#[trigger] b[i]).1 matches Some(e) ==> e.path@ == b[i].0@) by {
            assert(b[i] == changes[i]);
        }
    }
    if changes[k].0@ == p {
        assert(b[k] == changes[k]);
        lemma_change_at_index(b, k);
    } else {
        if exists|i: int| 0 <= i < a.len() && (#[trigger] a[i]).0@ == p {
            let i = choose|i: int| 0 <= i < a.len() && (#[trigger] a[i]).0@ == p;
            assert(a[i] == changes[i] && b[i] == changes[i]);
            assert(changes_wf(a)) by {
                assert forall|x: int, y: int| 0 <= x < y < a.len() implies (#[trigger] a[x]).0@ != (#[trigger] a[y]).0@ by {
                    assert(a[x] == changes[x] && a[y] == changes[y]);
                }
                assert forall|x: int| 0 <= x < a.len() implies ((#[trigger] a[x]).1 matches Some(e) ==> e.path@ == a[x].0@) by {
                    assert(a[x] == changes[x]);
                }
            }
            lemma_change_at_index(a, i);
            lemma_change_at_index(b, i);
        } else {
            assert forall|i: int| 0 <= i < b.len() implies (#[trigger] b[i]).0@ != p by {
                if i < k {
                    assert(b[i] == a[i]);
                } else {
                    assert(b[i] == changes[k]);
                }
            }
        }
    }
}

/// Replacing, at index `i`, an entry by one at the same path keeps the
/// run ascending and changes only what it holds at that path.
proof fn lemma_sorted_update(v: Seq<ManifestEntry>, i: int, x: ManifestEntry, q: Seq<char>)
    requires
        strictly_sorted::<ManifestEntry>(keys(v)),
        0 <= i < v.len(),
        x.path@ == v[i].path@,
    ensures
        strictly_sorted::<ManifestEntry>(keys(v.update(i, x))),
        entry_at(v.update(i, x), q) == if q == x.path@ { Some(x) } else { entry_at(v, q) },
{
    let w = v.update(i, x);
    assert(keys(w) =~= keys(v));
    lemma_entry_at_index(w, i);
    if q != x.path@ {
        if holds_path(v, q) {
            let j = choose|j: int| 0 <= j < v.len() && (#[trigger] v[j]).path@ == q;
            lemma_entry_at_index(v, j);
            assert(w[j] == v[j]);
            lemma_entry_at_index(w, j);
        } else {
            assert forall|j: int| 0 <= j < w.len() implies (#[trigger] w[j]).path@ != q by {
                if j != i {
                    assert(w[j] == v[j]);
                }
            }
        }
    }
}

/// Removing the entry at index `i` keeps the run ascending and removes
/// only what it held at that path.
proof fn lemma_sorted_remove(v: Seq<ManifestEntry>, i: int, q: Seq<char>)
    requires
        strictly_sorted::<ManifestEntry>(keys(v)),
        0 <= i < v.len(),
    ensures
        strictly_sorted::<ManifestEntry>(keys(v.remove(i))),
        entry_at(v.remove(i), q) == if q == v[i].path@ { None } else { entry_at(v, q) },
{
    let w = v.remove(i);
    assert(keys(w) =~= keys(v).remove(i));
    assert forall|a: int, b: int| 0 <= a < b < keys(w).len() implies text_lt(
        #[trigger] keys(w)[a],
        #[trigger] keys(w)[b],
    ) by {
        let a2 = if a < i { a } else { a + 1 };
        let b2 = if b < i { b } else { b + 1 };
        assert(keys(w)[a] == keys(v)[a2] && keys(w)[b] == keys(v)[b2]);
    }
    if q == v[i].path@ {
        assert forall|j: int| 0 <= j < w.len() implies (#[trigger] w[j]).path@ != q by {
            let j2 = if j < i { j } else { j + 1 };
            assert(w[j] == v[j2]);
            assert(keys(v)[j2] == v[j2].path@ && keys(v)[i] == v[i].path@);
            if j2 < i {
                assert(text_lt(keys(v)[j2], keys(v)[i]));
            } else {
                assert(text_lt(keys(v)[i], keys(v)[j2]));
            }
            lemma_text_lt_order(q, q, q);
        }
    } else {
        if holds_path(v, q) {
            let j = choose|j: int| 0 <= j < v.len() && (#[trigger] v[j]).path@ == q;
            lemma_entry_at_index(v, j);
            let j2 = if j < i { j } else { j - 1 };
            assert(w[j2] == v[j]);
            lemma_entry_at_index(w, j2);
        } else {
            assert forall|j: int| 0 <= j < w.len() implies (#[trigger] w[j]).path@ != q by {
                let j2 = if j < i { j } else { j + 1 };
                assert(w[j] == v[j2]);
            }
        }
    }
}

/// Inserting at index `i` an entry whose path sorts between its
/// neighbours keeps the run ascending and adds only that path.
proof fn lemma_sorted_insert(v: Seq<ManifestEntry>, i: int, x: ManifestEntry, q: Seq<char>)
    requires
        strictly_sorted::<ManifestEntry>(keys(v)),
        0 <= i <= v.len(),
        forall|k: int| 0 <= k < i ==> text_lt((#[trigger] v[k]).path@, x.path@),
        i < v.len() ==> text_lt(x.path@, v[i].path@),
    ensures
        strictly_sorted::<ManifestEntry>(keys(v.insert(i, x))),
        entry_at(v.insert(i, x), q) == if q == x.path@ { Some(x) } else { entry_at(v, q) },
{
    let w = v.insert(i, x);
    assert(keys(w) =~= keys(v).insert(i, x.path@));
    assert forall|a: int, b: int| 0 <= a < b < keys(w).len() implies text_lt(
        #[trigger] keys(w)[a],
        #[trigger] keys(w)[b],
    ) by {
        if b < i {
            assert(keys(w)[a] == keys(v)[a] && keys(w)[b] == keys(v)[b]);
        } else if b == i {
            assert(keys(w)[a] == v[a].path@);
        } else if a < i {
            assert(keys(w)[a] == keys(v)[a] && keys(w)[b] == keys(v)[b - 1]);
            lemma_text_lt_order(keys(v)[a], x.path@, v[i].path@);
            if b - 1 > i {
                assert(text_lt(keys(v)[i], keys(v)[b - 1]));
                lemma_text_lt_order(keys(v)[a], keys(v)[i], keys(v)[b - 1]);
            }
        } else if a == i {
            assert(keys(w)[b] == keys(v)[b - 1]);
            if b - 1 > i {
                assert(text_lt(keys(v)[i], keys(v)[b - 1]));
                lemma_text_lt_order(x.path@, keys(v)[i], keys(v)[b - 1]);
            }
        } else {
            assert(keys(w)[a] == keys(v)[a - 1] && keys(w)[b] == keys(v)[b - 1]);
        }
    }
    assert(w[i] == x);
    lemma_entry_at_index(w, i);
    if q != x.path@ {
        if holds_path(v, q) {
            let j = choose|j: int| 0 <= j < v.len() && (#[trigger] v[j]).path@ == q;
            lemma_entry_at_index(v, j);
            let j2 = if j < i { j } else { j + 1 };
            assert(w[j2] == v[j]);
            lemma_entry_at_index(w, j2);
        } else {
            assert forall|j: int| 0 <= j < w.len() implies (#[trigger] w[j]).path@ != q by {
                if j < i {
                    assert(w[j] == v[j]);
                } else if j > i {
                    assert(w[j] == v[j - 1]);
                }
            }
        }
    }
}

impl ManifestDelta {
    /// Replays the changes onto `entries` (ascending by path): a change
    /// puts its entry at its path or removes the path; paths it does not
    /// name keep their entries. The result ascends by path.
    pub fn apply(&self, entries: Vec<ManifestEntry>) -> (r: Vec<ManifestEntry>)
        requires
            self.wf(),
            strictly_sorted::<ManifestEntry>(keys(entries@)),
        ensures
            strictly_sorted::<ManifestEntry>(keys(r@)),
            forall|p: Seq<char>| #[trigger] entry_at(r@, p) == applied(entry_at(entries@, p), change_at(self.changes_value(), p)),
    {
        let ghost given = entries@;
        let ghost cs = self.changes@;
        let mut out = entries;
        let mut k: usize = 0;
        while k < self.changes.len()
            invariant
                k <= cs.len(),
                cs == self.changes@,
                changes_wf(cs),
                strictly_sorted::<ManifestEntry>(keys(out@)),
                forall|p: Seq<char>| #[trigger] entry_at(out@, p) == applied(entry_at(given, p), change_at(cs.take(k as int), p)),
            decreases cs.len() - k,
        {
            let key = self.changes[k].0.as_str();
            let mut i: usize = 0;
            while i < out.len() && str_less(out[i].path.as_str(), key)
                invariant
                    i <= out@.len(),
                    forall|j: int| 0 <= j < i ==> text_lt((#[trigger] out@[j]).path@, key@),
                decreases out@.len() - i,
            {
                i = i + 1;
            }
            let found = i < out.len() && str_eq(out[i].path.as_str(), key);
            let ghost before = out@;
            let ghost ck = cs[k as int];
            proof {
                if i < before.len() && !found {
                    lemma_text_lt_order(before[i as int].path@, key@, key@);
                    lemma_text_lt_order(key@, before[i as int].path@, key@);
                }
            }
            match &self.changes[k].1 {
                Some(e) => {
                    let x = copy_entry(e);
                    if found {
                        out.set(i, x);
                        proof {
                            assert forall|q: Seq<char>| #[trigger] entry_at(out@, q) == (if q == x.path@ { Some(x) } else { entry_at(before, q) }) by {
                                lemma_sorted_update(before, i as int, x, q);
                            }
                            lemma_sorted_update(before, i as int, x, key@);
                        }
                    } else {
                        out.insert(i, x);
                        proof {
                            assert forall|q: Seq<char>| #[trigger] entry_at(out@, q) == (if q == x.path@ { Some(x) } else { entry_at(before, q) }) by {
                                lemma_sorted_insert(before, i as int, x, q);
                            }
                            lemma_sorted_insert(before, i as int, x, key@);
                        }
                    }
                },
                None => {
                    if found {
                        out.remove(i);
                        proof {
                            assert forall|q: Seq<char>| #[trigger] entry_at(out@, q) == (if q == key@ { None } else { entry_at(before, q) }) by {
                                lemma_sorted_remove(before, i as int, q);
                            }
                            lemma_sorted_remove(before, i as int, key@);
                        }
                    } else {
                        proof {
                            assert forall|j: int| 0 <= j < before.len() implies (#[trigger] before[j]).path@ != key@ by {
                                if j < i {
                                    lemma_text_lt_order(before[j].path@, key@, key@);
                                } else if i < before.len() {
                                    assert(keys(before)[j] == before[j].path@ && keys(before)[i as int] == before[i as int].path@);
                                    if j > i {
                                        assert(text_lt(keys(before)[i as int], keys(before)[j]));
                                        lemma_text_lt_order(key@, before[i as int].path@, before[j].path@);
                                    }
                                    lemma_text_lt_order(key@, before[j].path@, key@);
                                }
                            }
                        }
                    }
                },
            }
            proof {
                assert forall|p: Seq<char>| #[trigger] entry_at(out@, p) == applied(entry_at(given, p), change_at(cs.take(k + 1), p)) by {
                    lemma_change_prefix(cs, k as int, p);
                    assert(entry_at(before, p) == applied(entry_at(given, p), change_at(cs.take(k as int), p)));
                }
            }
            k = k + 1;
        }
        proof {
            assert(cs.take(cs.len() as int) =~= cs);
        }
        out
    }
}

/// Law: replaying onto a manifest the changes from that manifest to a
/// desired one gives the desired manifest: the same paths, each saying
/// the same (only the time of indexing may stay the base's).
pub proof fn lemma_delta_rebuilds_desired(
    base: Seq<ManifestEntry>,
    desired: Seq<ManifestEntry>,
    changes: Seq<(String, Option<ManifestEntry>)>,
    result: Seq<ManifestEntry>,
    p: Seq<char>,
)
    requires
        forall|q: Seq<char>| #[trigger] change_at(changes, q) == expected_change(base, desired, q),
        forall|q: Seq<char>| #[trigger] entry_at(result, q) == applied(entry_at(base, q), change_at(changes, q)),
    ensures
        entry_at(result, p) is Some <==> entry_at(desired, p) is Some,
        entry_at(result, p) matches Some(r) ==> same_entry(r, entry_at(desired, p).unwrap()),
{
    assert(change_at(changes, p) == expected_change(base, desired, p));
    assert(entry_at(result, p) == applied(entry_at(base, p), change_at(changes, p)));
}

/// Entries that say the same of their paths frame to the same bytes.
proof fn lemma_same_entries_same_bytes(
    a: Seq<ManifestEntry>,
    b: Seq<ManifestEntry>,
    ls: Seq<Option<VersionLookup>>,
    n: int,
)
    requires
        a.len() == b.len(),
        0 <= n <= a.len(),
        forall|i: int| 0 <= i < a.len() ==> same_entry(#[trigger] a[i], b[i]),
    ensures
        entries_bytes(a, ls, n) == entries_bytes(b, ls, n),
    decreases n,
{
    if n > 0 {
        lemma_same_entries_same_bytes(a, b, ls, n - 1);
        let (x, y) = (a[n - 1], b[n - 1]);
        assert(same_entry(x, y));
        assert(entry_bytes(x, ls[n - 1]) == entry_bytes(y, ls[n - 1]));
    }
}

/// Law: a manifest's hash is semantic. Entries that say the same of each
/// path, whenever they were indexed, give the same canonical bytes and so
/// the same hash.
pub proof fn lemma_hash_ignores_indexing_time(
    a: Seq<ManifestEntry>,
    b: Seq<ManifestEntry>,
    lookups: Seq<Option<VersionLookup>>,
)
    requires
        a.len() == b.len(),
        forall|i: int| 0 <= i < a.len() ==> same_entry(#[trigger] a[i], b[i]),
    ensures
        manifest_bytes(a, lookups) == manifest_bytes(b, lookups),
        hex_text(sha256_of(manifest_bytes(a, lookups))) == hex_text(sha256_of(manifest_bytes(b, lookups))),
{
    lemma_same_entries_same_bytes(a, b, lookups, a.len() as int);
}

} // verus!

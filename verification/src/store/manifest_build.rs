//! Building a manifest: each entry canonicalized (path and error JSON)
//! and checked, the entries ordered by path without repeats, then encoded
//! against the identities of their file versions into the canonical bytes
//! whose SHA-256 names the manifest.

use vstd::prelude::*;

use crate::json::{is_json, json_parses, json_reserialized, reserialize_json, sha256, sha256_of};
use crate::sorted::{keys, strictly_sorted, SortedKey};
use crate::store::manifest::{
    canonical_path, canonical_path_spec, status_text, BuiltManifest, ManifestEntry,
    ManifestEntryStatus, ManifestPublishDisposition, ManifestStoreError,
};
use crate::text::{
    be_u64, framed, hex_text, lemma_text_lt_order, owned, push_be_u64, push_bytes, push_framed,
    push_hex, str_eq, str_less, text_lt, utf8_bytes,
};

verus! {

/// The hash a manifest is named by.
pub const MANIFEST_HASH_ALGORITHM: &'static str = "sha256";

/// The text an optional string holds is present and not empty.
pub open spec fn filled(o: Option<String>) -> bool {
    o matches Some(s) && s@.len() > 0
}

/// The fields of an entry agree with its status: an indexed path has a
/// version and no error; a preserved failure has a version and an error;
/// a failure has an error and no version.
pub open spec fn status_fields_ok(e: ManifestEntry) -> bool {
    match e.status {
        ManifestEntryStatus::Indexed => e.version_id is Some && e.error_class is None && e.error_json is None,
        ManifestEntryStatus::FailedPreserved => e.version_id is Some && filled(e.error_class) && filled(
            e.error_json,
        ),
        ManifestEntryStatus::Failed => e.version_id is None && filled(e.error_class) && filled(e.error_json),
    }
}

/// A valid entry: language, observed hash and index time present, fields
/// that agree with the status, and an error that is JSON.
pub open spec fn entry_ok(e: ManifestEntry) -> bool {
    &&& e.language@.len() > 0
    &&& e.observed_content_hash@.len() > 0
    &&& e.indexed_at@.len() > 0
    &&& status_fields_ok(e)
    &&& (e.error_json matches Some(j) ==> json_parses(j@))
}

/// Checks an entry; a bad one is reported by its path.
pub fn validate_entry(entry: &ManifestEntry) -> (r: Result<(), ManifestStoreError>)
    ensures
        r is Ok <==> entry_ok(*entry),
        r matches Err(e) ==> (e matches ManifestStoreError::InvalidEntry { path } && path@ == entry.path@),
{
    let present = !entry.language.as_str().is_empty() && !entry.observed_content_hash.as_str().is_empty()
        && !entry.indexed_at.as_str().is_empty();
    if !present {
        return Err(ManifestStoreError::InvalidEntry { path: owned(entry.path.as_str()) });
    }
    let class_filled = match &entry.error_class {
        Some(c) => !c.as_str().is_empty(),
        None => false,
    };
    let json_filled = match &entry.error_json {
        Some(j) => !j.as_str().is_empty(),
        None => false,
    };
    let valid = match entry.status {
        ManifestEntryStatus::Indexed => entry.version_id.is_some() && entry.error_class.is_none()
            && entry.error_json.is_none(),
        ManifestEntryStatus::FailedPreserved => entry.version_id.is_some() && class_filled && json_filled,
        ManifestEntryStatus::Failed => entry.version_id.is_none() && class_filled && json_filled,
    };
    let bad_json = match &entry.error_json {
        Some(j) => !is_json(j.as_str()),
        None => false,
    };
    if !valid || bad_json {
        return Err(ManifestStoreError::InvalidEntry { path: owned(entry.path.as_str()) });
    }
    Ok(())
}

/// The entry's error JSON can be canonicalized (or there is none).
pub open spec fn error_json_canonical(e: ManifestEntry) -> bool {
    e.error_json matches Some(j) ==> json_reserialized(j@) is Some
}

/// `c` is `e` in canonical form: its path canonical, its error JSON
/// written back by the JSON library, every other field the same.
pub open spec fn canonical_of(e: ManifestEntry, c: ManifestEntry) -> bool {
    &&& canonical_path_spec(e.path@) == Some(c.path@)
    &&& c.language == e.language
    &&& c.version_id == e.version_id
    &&& c.status == e.status
    &&& c.observed_content_hash == e.observed_content_hash
    &&& c.indexed_at == e.indexed_at
    &&& c.error_class == e.error_class
    &&& match e.error_json {
        Some(j) => c.error_json matches Some(t) && json_reserialized(j@) == Some(t@),
        None => c.error_json is None,
    }
}

/// The canonical form of `e` is a valid entry, stated over `e`.
pub open spec fn canonical_ok(e: ManifestEntry) -> bool {
    &&& e.language@.len() > 0
    &&& e.observed_content_hash@.len() > 0
    &&& e.indexed_at@.len() > 0
    &&& match e.status {
        ManifestEntryStatus::Indexed => e.version_id is Some && e.error_class is None && e.error_json is None,
        ManifestEntryStatus::FailedPreserved => e.version_id is Some && filled(e.error_class) && (
        e.error_json matches Some(j) && json_reserialized(j@).unwrap().len() > 0),
        ManifestEntryStatus::Failed => e.version_id is None && filled(e.error_class) && (
        e.error_json matches Some(j) && json_reserialized(j@).unwrap().len() > 0),
    }
    &&& (e.error_json matches Some(j) ==> json_parses(json_reserialized(j@).unwrap()))
}

/// How canonicalizing `e` fails with `err`: an invalid path is reported as
/// given; an error that is no JSON, or an invalid canonical entry, by the
/// canonical path.
pub open spec fn canonical_fails_with(e: ManifestEntry, err: ManifestStoreError) -> bool {
    match canonical_path_spec(e.path@) {
        None => err matches ManifestStoreError::InvalidPath { path } && path@ == e.path@,
        Some(p) => (!error_json_canonical(e) || !canonical_ok(e)) && (err matches ManifestStoreError::InvalidEntry {
            path,
        } && path@ == p),
    }
}

/// Puts an entry in canonical form and checks it.
pub fn canonicalize_entry(entry: ManifestEntry) -> (r: Result<ManifestEntry, ManifestStoreError>)
    ensures
        r is Ok <==> (canonical_path_spec(entry.path@) is Some && error_json_canonical(entry)
            && canonical_ok(entry)),
        r matches Ok(c) ==> canonical_of(entry, c),
        r matches Err(err) ==> canonical_fails_with(entry, err),
{
    let ghost given = entry;
    let path = canonical_path(entry.path.as_str())?;
    let error_json = match &entry.error_json {
        Some(j) => match reserialize_json(j.as_str()) {
            Some(t) => Some(t),
            None => {
                return Err(ManifestStoreError::InvalidEntry { path });
            },
        },
        None => None,
    };
    let candidate = ManifestEntry {
        path,
        language: entry.language,
        version_id: entry.version_id,
        status: entry.status,
        observed_content_hash: entry.observed_content_hash,
        indexed_at: entry.indexed_at,
        error_class: entry.error_class,
        error_json,
    };
    assert(canonical_of(given, candidate));
    match validate_entry(&candidate) {
        Ok(()) => Ok(candidate),
        Err(e) => Err(e),
    }
}


// ---------------------------------------------------------------------
// Ordering the entries.

impl SortedKey for ManifestEntry {
    type Key = Seq<char>;

    open spec fn key(&self) -> Seq<char> {
        self.path@
    }

    open spec fn key_lt(a: Seq<char>, b: Seq<char>) -> bool {
        text_lt(a, b)
    }

    proof fn lemma_key_order(a: Seq<char>, b: Seq<char>, c: Seq<char>) {
        lemma_text_lt_order(a, b, c);
    }

    fn key_less(&self, other: &Self) -> (r: bool) {
        str_less(self.path.as_str(), other.path.as_str())
    }
}

/// The entry canonicalizes into a valid entry.
pub open spec fn canonicalizable(e: ManifestEntry) -> bool {
    canonical_path_spec(e.path@) is Some && error_json_canonical(e) && canonical_ok(e)
}

/// The index of the first entry from `i` on that does not canonicalize.
pub open spec fn first_uncanonical(es: Seq<ManifestEntry>, i: int) -> Option<int>
    decreases es.len() - i,
{
    if i < 0 || i >= es.len() {
        None
    } else if !canonicalizable(es[i]) {
        Some(i)
    } else {
        first_uncanonical(es, i + 1)
    }
}

proof fn lemma_first_uncanonical_skip(es: Seq<ManifestEntry>, i: int, j: int)
    requires
        0 <= i <= j <= es.len(),
        forall|k: int| i <= k < j ==> canonicalizable(#[trigger] es[k]),
    ensures
        first_uncanonical(es, i) == first_uncanonical(es, j),
    decreases j - i,
{
    if i < j {
        lemma_first_uncanonical_skip(es, i + 1, j);
    }
}

/// The canonical paths of the entries.
pub open spec fn canonical_paths(es: Seq<ManifestEntry>) -> Seq<Seq<char>> {
    Seq::new(es.len(), |i: int| canonical_path_spec(es[i].path@).unwrap())
}

/// `p` occurs twice among the paths.
pub open spec fn repeated(ps: Seq<Seq<char>>, p: Seq<char>) -> bool {
    exists|i: int, j: int| 0 <= i < j < ps.len() && #[trigger] ps[i] == p && #[trigger] ps[j] == p
}

/// `p` is the least path that occurs twice.
pub open spec fn least_repeat(ps: Seq<Seq<char>>, p: Seq<char>) -> bool {
    repeated(ps, p) && forall|q: Seq<char>| #[trigger] repeated(ps, q) ==> !text_lt(q, p)
}

/// `p` occurs twice in a pair already scanned: a first occurrence before
/// `i`, or at `i` with the second before `j`.
pub open spec fn pair_seen(ps: Seq<Seq<char>>, p: Seq<char>, i: int, j: int) -> bool {
    exists|a: int, c: int|
        0 <= a < c < ps.len() && (a < i || (a == i && c < j)) && #[trigger] ps[a] == p && #[trigger] ps[c] == p
}

/// The pairs scanned before row `i` begins.
pub open spec fn pair_seen_row(ps: Seq<Seq<char>>, p: Seq<char>, i: int) -> bool {
    pair_seen(ps, p, i, i + 1)
}

proof fn lemma_pair_step(ps: Seq<Seq<char>>, p: Seq<char>, i: int, j: int)
    requires
        0 <= i < j < ps.len(),
    ensures
        pair_seen(ps, p, i, j + 1) == (pair_seen(ps, p, i, j) || (ps[i] == p && ps[j] == p)),
{
    if pair_seen(ps, p, i, j + 1) {
        let (a, c) = choose|a: int, c: int|
            0 <= a < c < ps.len() && (a < i || (a == i && c < j + 1)) && #[trigger] ps[a] == p && #[trigger] ps[c] == p;
        if !(a == i && c == j) {
            assert(pair_seen(ps, p, i, j));
        }
    }
    if pair_seen(ps, p, i, j) {
        let (a, c) = choose|a: int, c: int|
            0 <= a < c < ps.len() && (a < i || (a == i && c < j)) && #[trigger] ps[a] == p && #[trigger] ps[c] == p;
        assert(pair_seen(ps, p, i, j + 1));
    }
    if ps[i] == p && ps[j] == p {
        assert(pair_seen(ps, p, i, j + 1));
    }
}

proof fn lemma_pair_next_row(ps: Seq<Seq<char>>, p: Seq<char>, i: int)
    requires
        0 <= i < ps.len(),
    ensures
        pair_seen(ps, p, i, ps.len() as int) == pair_seen(ps, p, i + 1, i + 2),
{
    if pair_seen(ps, p, i, ps.len() as int) {
        let (a, c) = choose|a: int, c: int|
            0 <= a < c < ps.len() && (a < i || (a == i && c < ps.len())) && #[trigger] ps[a] == p && #[trigger] ps[c]
                == p;
        assert(pair_seen(ps, p, i + 1, i + 2));
    }
    if pair_seen(ps, p, i + 1, i + 2) {
        let (a, c) = choose|a: int, c: int|
            0 <= a < c < ps.len() && (a < i + 1 || (a == i + 1 && c < i + 2)) && #[trigger] ps[a] == p
                && #[trigger] ps[c] == p;
        assert(pair_seen(ps, p, i, ps.len() as int));
    }
}

/// The least path that occurs twice among the entries' paths, if any.
fn least_repeated_path(es: &Vec<ManifestEntry>) -> (r: Option<String>)
    ensures
        match r {
            None => forall|p: Seq<char>| !#[trigger] repeated(keys(es@), p),
            Some(p) => least_repeat(keys(es@), p@),
        },
{
    let ghost ps = keys(es@);
    let mut best: Option<String> = None;
    let mut i: usize = 0;
    while i < es.len()
        invariant
            i <= es@.len(),
            ps == keys(es@),
            ps.len() == es@.len(),
            match best {
                None => forall|p: Seq<char>| !#[trigger] pair_seen_row(ps, p, i as int),
                Some(b) => pair_seen_row(ps, b@, i as int) && forall|q: Seq<char>|
                    #[trigger] pair_seen_row(ps, q, i as int) ==> !text_lt(q, b@),
            },
        decreases es@.len() - i,
    {
        let mut j: usize = i + 1;
        assert(forall|q: Seq<char>| #[trigger] pair_seen(ps, q, i as int, j as int) == pair_seen_row(ps, q, i as int));
        while j < es.len()
            invariant
                i < es@.len(),
                i + 1 <= j <= es@.len(),
                ps == keys(es@),
                ps.len() == es@.len(),
                match best {
                    None => forall|p: Seq<char>| !#[trigger] pair_seen(ps, p, i as int, j as int),
                    Some(b) => pair_seen(ps, b@, i as int, j as int) && forall|q: Seq<char>|
                        #[trigger] pair_seen(ps, q, i as int, j as int) ==> !text_lt(q, b@),
                },
            decreases es@.len() - j,
        {
            assert(ps[i as int] == es@[i as int].path@ && ps[j as int] == es@[j as int].path@);
            let ghost pi = ps[i as int];
            let equal = str_eq(es[i].path.as_str(), es[j].path.as_str());
            let take = equal && match &best {
                None => true,
                Some(b) => str_less(es[i].path.as_str(), b.as_str()),
            };
            proof {
                assert forall|q: Seq<char>| #[trigger] pair_seen(ps, q, i as int, j + 1) == (pair_seen(
                    ps,
                    q,
                    i as int,
                    j as int,
                ) || (equal && q == pi)) by {
                    lemma_pair_step(ps, q, i as int, j as int);
                }
            }
            if take {
                proof {
                    assert(pair_seen(ps, pi, i as int, j + 1));
                    assert forall|q: Seq<char>| #[trigger] pair_seen(ps, q, i as int, j + 1) implies !text_lt(q, pi) by {
                        lemma_text_lt_order(q, q, q);
                        if q != pi {
                            assert(pair_seen(ps, q, i as int, j as int));
                            if best is Some {
                                let b = best->0;
                                lemma_text_lt_order(q, pi, b@);
                            }
                        }
                    }
                }
                best = Some(owned(es[i].path.as_str()));
            } else {
                proof {
                    if best is Some {
                        let b = best->0;
                        assert(pair_seen(ps, b@, i as int, j + 1));
                        assert forall|q: Seq<char>| #[trigger] pair_seen(ps, q, i as int, j + 1) implies !text_lt(q, b@) by {
                            if !pair_seen(ps, q, i as int, j as int) {
                                assert(equal && q == pi);
                                lemma_text_lt_order(b@, pi, b@);
                            }
                        }
                    }
                }
            }
            j = j + 1;
        }
        proof {
            assert forall|q: Seq<char>| #[trigger] pair_seen(ps, q, i as int, ps.len() as int) == pair_seen(
                ps,
                q,
                i + 1,
                i + 2,
            ) by {
                lemma_pair_next_row(ps, q, i as int);
            }
            if best is None {
                assert forall|p: Seq<char>| !#[trigger] pair_seen_row(ps, p, i + 1) by {
                    lemma_pair_next_row(ps, p, i as int);
                    assert(!pair_seen(ps, p, i as int, j as int));
                }
            } else {
                let b = best->0;
                lemma_pair_next_row(ps, b@, i as int);
                assert(pair_seen_row(ps, b@, i + 1));
                assert forall|q: Seq<char>| #[trigger] pair_seen_row(ps, q, i + 1) implies !text_lt(q, b@) by {
                    lemma_pair_next_row(ps, q, i as int);
                    assert(pair_seen(ps, q, i as int, j as int));
                }
            }
        }
        i = i + 1;
    }
    proof {
        assert forall|p: Seq<char>| #[trigger] repeated(ps, p) == pair_seen_row(ps, p, i as int) by {
            if repeated(ps, p) {
                let (a, c) = choose|a: int, c: int| 0 <= a < c < ps.len() && #[trigger] ps[a] == p && #[trigger] ps[c] == p;
                assert(pair_seen(ps, p, i as int, i + 1));
            }
            if pair_seen(ps, p, i as int, i + 1) {
                let (a, c) = choose|a: int, c: int|
                    0 <= a < c < ps.len() && (a < i || (a == i && c < i + 1)) && #[trigger] ps[a] == p && #[trigger] ps[c] == p;
                assert(repeated(ps, p));
            }
        }
    }
    best
}

/// Some entry of `out` is the canonical form of `e`.
pub open spec fn appears_canonically(out: Seq<ManifestEntry>, e: ManifestEntry) -> bool {
    exists|j: int| 0 <= j < out.len() && canonical_of(e, #[trigger] out[j])
}

/// `c` is the canonical form of some entry of `es`.
pub open spec fn comes_from(es: Seq<ManifestEntry>, c: ManifestEntry) -> bool {
    exists|i: int| 0 <= i < es.len() && canonical_of(#[trigger] es[i], c)
}

/// `x` is an element of `v`.
pub open spec fn held_in(v: Seq<ManifestEntry>, x: ManifestEntry) -> bool {
    exists|j: int| 0 <= j < v.len() && #[trigger] v[j] == x
}

/// `x` is an element of `v` at `lo` or after.
pub open spec fn held_from(v: Seq<ManifestEntry>, lo: int, x: ManifestEntry) -> bool {
    exists|k: int| lo <= k < v.len() && x == #[trigger] v[k]
}

/// Canonicalizes every entry, in order; the first that fails is
/// reported.
fn canonicalize_all(entries: Vec<ManifestEntry>) -> (r: Result<Vec<ManifestEntry>, ManifestStoreError>)
    ensures
        match first_uncanonical(entries@, 0) {
            Some(i) => r matches Err(err) && canonical_fails_with(entries@[i], err),
            None => r matches Ok(cs) && cs@.len() == entries@.len() && forall|k: int|
                0 <= k < entries@.len() ==> canonical_of(#[trigger] entries@[k], cs@[k]),
        },
{
    let ghost given = entries@;
    let total = entries.len();
    let mut pending = entries;
    let mut reversed: Vec<ManifestEntry> = Vec::new();
    while pending.len() > 0
        invariant
            given.len() == total,
            pending@.len() + reversed@.len() == given.len(),
            pending@ == given.take(pending@.len() as int),
            forall|k: int| 0 <= k < reversed@.len() ==> #[trigger] reversed@[k] == given[given.len() - 1 - k],
        decreases pending@.len(),
    {
        let e = pending.pop().unwrap();
        reversed.push(e);
    }
    let mut canonical: Vec<ManifestEntry> = Vec::new();
    let mut i: usize = 0;
    while reversed.len() > 0
        invariant
            given.len() == total,
            given == entries@,
            i + reversed@.len() == given.len(),
            forall|k: int| 0 <= k < reversed@.len() ==> #[trigger] reversed@[k] == given[given.len() - 1 - k],
            canonical@.len() == i,
            forall|k: int| 0 <= k < i ==> canonicalizable(#[trigger] given[k]),
            forall|k: int| 0 <= k < i ==> canonical_of(#[trigger] given[k], canonical@[k]),
        decreases reversed@.len(),
    {
        let e = reversed.pop().unwrap();
        assert(e == given[i as int]);
        match canonicalize_entry(e) {
            Ok(c) => {
                canonical.push(c);
            },
            Err(err) => {
                proof {
                    lemma_first_uncanonical_skip(given, 0, i as int);
                }
                return Err(err);
            },
        }
        i = i + 1;
    }
    proof {
        lemma_first_uncanonical_skip(given, 0, given.len() as int);
    }
    Ok(canonical)
}

/// Orders entries with distinct paths by path.
fn sort_distinct(entries: Vec<ManifestEntry>) -> (out: Vec<ManifestEntry>)
    requires
        forall|p: Seq<char>| !#[trigger] repeated(keys(entries@), p),
    ensures
        out@.len() == entries@.len(),
        strictly_sorted::<ManifestEntry>(keys(out@)),
        forall|k: int| 0 <= k < entries@.len() ==> held_in(out@, #[trigger] entries@[k]),
        forall|j: int| 0 <= j < out@.len() ==> held_from(entries@, 0, #[trigger] out@[j]),
{
    let ghost all = entries@;
    let mut rest = entries;
    let mut out: Vec<ManifestEntry> = Vec::new();
    while rest.len() > 0
        invariant
            rest@ == all.take(rest@.len() as int),
            forall|p: Seq<char>| !#[trigger] repeated(keys(all), p),
            strictly_sorted::<ManifestEntry>(keys(out@)),
            out@.len() + rest@.len() == all.len(),
            forall|k: int| rest@.len() <= k < all.len() ==> held_in(out@, #[trigger] all[k]),
            forall|j: int| 0 <= j < out@.len() ==> held_from(all, rest@.len() as int, #[trigger] out@[j]),
        decreases rest@.len(),
    {
        let ghost n = rest@.len() - 1;
        let e = rest.pop().unwrap();
        assert(e == all[n]);
        let ghost before = out@;
        proof {
            assert(!keys(before).contains(e.path@)) by {
                if keys(before).contains(e.path@) {
                    let j = choose|j: int| 0 <= j < before.len() && keys(before)[j] == e.path@;
                    assert(held_from(all, n + 1, before[j]));
                    let k = choose|k: int| n + 1 <= k < all.len() && before[j] == #[trigger] all[k];
                    assert(keys(all)[n] == e.path@ && keys(all)[k] == e.path@);
                    assert(repeated(keys(all), e.path@));
                }
            }
        }
        insert_sorted_entry(&mut out, e);
        proof {
            let pos = choose|pos: int| 0 <= pos <= before.len() && out@ == before.insert(pos, all[n]);
            assert forall|k: int| rest@.len() <= k < all.len() implies held_in(out@, #[trigger] all[k]) by {
                if k == n {
                    assert(out@[pos] == all[k]);
                } else {
                    assert(held_in(before, all[k]));
                    let j = choose|j: int| 0 <= j < before.len() && #[trigger] before[j] == all[k];
                    if j < pos {
                        assert(out@[j] == all[k]);
                    } else {
                        assert(out@[j + 1] == all[k]);
                    }
                }
            }
            assert forall|j: int| 0 <= j < out@.len() implies held_from(all, rest@.len() as int, #[trigger] out@[j]) by {
                if j == pos {
                    assert(out@[j] == all[n]);
                } else if j < pos {
                    assert(out@[j] == before[j]);
                    assert(held_from(all, n + 1, before[j]));
                } else {
                    assert(out@[j] == before[j - 1]);
                    assert(held_from(all, n + 1, before[j - 1]));
                }
            }
        }
    }
    out
}

/// Canonicalizes every entry (the first that fails is reported), refuses
/// a path that occurs twice (the least such path is reported), and orders
/// the entries by path.
pub fn prepare_entries(entries: Vec<ManifestEntry>) -> (r: Result<Vec<ManifestEntry>, ManifestStoreError>)
    ensures
        match first_uncanonical(entries@, 0) {
            Some(i) => r matches Err(err) && canonical_fails_with(entries@[i], err),
            None => {
                let ps = canonical_paths(entries@);
                if exists|p: Seq<char>| #[trigger] repeated(ps, p) {
                    r matches Err(ManifestStoreError::DuplicatePath { path }) && least_repeat(ps, path@)
                } else {
                    r matches Ok(out) && out@.len() == entries@.len() && strictly_sorted::<ManifestEntry>(
                        keys(out@),
                    ) && (forall|i: int|
                        0 <= i < entries@.len() ==> appears_canonically(out@, #[trigger] entries@[i])) && (
                    forall|j: int| 0 <= j < out@.len() ==> comes_from(entries@, #[trigger] out@[j]))
                }
            },
        },
{
    let ghost given = entries@;
    let canonical = canonicalize_all(entries)?;
    proof {
        assert(keys(canonical@) =~= canonical_paths(given));
    }
    match least_repeated_path(&canonical) {
        Some(path) => {
            return Err(ManifestStoreError::DuplicatePath { path });
        },
        None => {},
    }
    let ghost all = canonical@;
    let out = sort_distinct(canonical);
    proof {
        assert forall|i: int| 0 <= i < given.len() implies appears_canonically(out@, #[trigger] given[i]) by {
            assert(held_in(out@, all[i]));
            let j = choose|j: int| 0 <= j < out@.len() && #[trigger] out@[j] == all[i];
            assert(canonical_of(given[i], out@[j]));
        }
        assert forall|j: int| 0 <= j < out@.len() implies comes_from(given, #[trigger] out@[j]) by {
            assert(held_from(all, 0, out@[j]));
            let k = choose|k: int| 0 <= k < all.len() && out@[j] == #[trigger] all[k];
            assert(canonical_of(given[k], out@[j]));
        }
    }
    Ok(out)
}

/// Inserts an entry whose path is new at its place in a run strictly
/// ascending by path.
fn insert_sorted_entry(v: &mut Vec<ManifestEntry>, x: ManifestEntry)
    requires
        strictly_sorted::<ManifestEntry>(keys(old(v)@)),
        !keys(old(v)@).contains(x.path@),
    ensures
        strictly_sorted::<ManifestEntry>(keys(final(v)@)),
        exists|i: int| 0 <= i <= old(v)@.len() && final(v)@ == old(v)@.insert(i, x),
{
    crate::sorted::insert_sorted(v, x);
}


// ---------------------------------------------------------------------
// The canonical encoding and the manifest hash.

/// The identity of a completed file version.
#[derive(Debug, Clone, PartialEq, Eq)]
pub struct VersionIdentity {
    pub path: String,
    pub language: String,
    pub content_hash: String,
    pub extraction_epoch: u32,
}

/// What the store holds for a file version an entry names.
#[derive(Debug, Clone, PartialEq, Eq)]
pub enum VersionLookup {
    Found(VersionIdentity),
    Missing,
    Incomplete,
}

/// How encoding `e` against what the store holds for its version fails
/// with `err`: the version is missing or incomplete, its path is no valid
/// path, or its path, language or (for an indexed entry) content hash
/// disagrees with the entry.
pub open spec fn entry_fails_with(e: ManifestEntry, lookup: Option<VersionLookup>, err: ManifestStoreError) -> bool {
    match lookup {
        None => false,
        Some(VersionLookup::Missing) => err == ManifestStoreError::VersionNotFound {
            version_id: e.version_id.unwrap(),
        },
        Some(VersionLookup::Incomplete) => err == ManifestStoreError::VersionIncomplete {
            version_id: e.version_id.unwrap(),
        },
        Some(VersionLookup::Found(id)) => match canonical_path_spec(id.path@) {
            None => err matches ManifestStoreError::InvalidPath { path } && path@ == id.path@,
            Some(vp) => if e.path@ != vp {
                err matches ManifestStoreError::VersionPathMismatch { path, version_path } && path@ == e.path@
                    && version_path@ == vp
            } else if e.language@ != id.language@ {
                err matches ManifestStoreError::VersionLanguageMismatch { path, language, version_language }
                    && path@ == e.path@ && language@ == e.language@ && version_language@ == id.language@
            } else if e.status == ManifestEntryStatus::Indexed && e.observed_content_hash@
                != id.content_hash@ {
                err matches ManifestStoreError::ObservedHashMismatch { path } && path@ == e.path@
            } else {
                false
            },
        },
    }
}

/// The entry agrees with what the store holds for its version.
pub open spec fn entry_passes(e: ManifestEntry, lookup: Option<VersionLookup>) -> bool {
    match lookup {
        None => true,
        Some(VersionLookup::Found(id)) => canonical_path_spec(id.path@) == Some(e.path@) && e.language@
            == id.language@ && !(e.status == ManifestEntryStatus::Indexed && e.observed_content_hash@
            != id.content_hash@),
        Some(_) => false,
    }
}

/// An optional text: a zero byte when absent, else a one byte and the
/// framed text.
pub open spec fn optional_framed(o: Option<String>) -> Seq<u8> {
    match o {
        Some(s) => seq![1u8] + framed(s@),
        None => seq![0u8],
    }
}

/// The canonical bytes of one entry: path, language, status and observed
/// hash framed; then its version's canonical path, content hash and
/// extraction epoch (or a zero byte for none); then its error class and
/// error JSON.
pub open spec fn entry_bytes(e: ManifestEntry, lookup: Option<VersionLookup>) -> Seq<u8> {
    let version = version_bytes(e, lookup);
    framed(e.path@) + framed(e.language@) + framed(status_text(e.status)) + framed(
        e.observed_content_hash@,
    ) + version + optional_framed(e.error_class) + optional_framed(e.error_json)
}

/// The bytes of the first `n` entries.
pub open spec fn entries_bytes(es: Seq<ManifestEntry>, ls: Seq<Option<VersionLookup>>, n: int) -> Seq<u8>
    decreases n,
{
    if n <= 0 {
        seq![]
    } else {
        entries_bytes(es, ls, n - 1) + entry_bytes(es[n - 1], ls[n - 1])
    }
}

/// The canonical bytes of a manifest: the framed domain tag, the entry
/// count, then each entry.
pub open spec fn manifest_bytes(es: Seq<ManifestEntry>, ls: Seq<Option<VersionLookup>>) -> Seq<u8> {
    framed("julie-store-manifest-v2"@) + be_u64(es.len() as u64) + entries_bytes(es, ls, es.len() as int)
}

/// The index of the first entry from `i` on that disagrees with its
/// version.
pub open spec fn first_failing(es: Seq<ManifestEntry>, ls: Seq<Option<VersionLookup>>, i: int) -> Option<int>
    decreases es.len() - i,
{
    if i < 0 || i >= es.len() {
        None
    } else if !entry_passes(es[i], ls[i]) {
        Some(i)
    } else {
        first_failing(es, ls, i + 1)
    }
}

proof fn lemma_first_failing_skip(es: Seq<ManifestEntry>, ls: Seq<Option<VersionLookup>>, i: int, j: int)
    requires
        0 <= i <= j <= es.len(),
        forall|k: int| i <= k < j ==> entry_passes(#[trigger] es[k], ls[k]),
    ensures
        first_failing(es, ls, i) == first_failing(es, ls, j),
    decreases j - i,
{
    if i < j {
        lemma_first_failing_skip(es, ls, i + 1, j);
    }
}

fn push_optional(out: &mut Vec<u8>, o: &Option<String>)
    ensures
        final(out)@ == old(out)@ + optional_framed(*o),
{
    match o {
        Some(s) => {
            out.push(1u8);
            push_framed(out, s.as_str());
        },
        None => {
            out.push(0u8);
        },
    }
    assert(out@ =~= old(out)@ + optional_framed(*o));
}

/// Checks one entry against what the store holds for its version,
/// giving the version's canonical path when there is a version.
fn check_against_version(e: &ManifestEntry, lookup: &Option<VersionLookup>) -> (r: Result<
    Option<String>,
    ManifestStoreError,
>)
    requires
        e.version_id is Some <==> lookup is Some,
    ensures
        r is Ok <==> entry_passes(*e, *lookup),
        r matches Err(err) ==> entry_fails_with(*e, *lookup, err),
        r matches Ok(Some(vp)) ==> vp@ == e.path@ && lookup matches Some(VersionLookup::Found(_)),
        r matches Ok(None) ==> lookup is None,
{
    match lookup {
        None => Ok(None),
        Some(VersionLookup::Missing) => Err(ManifestStoreError::VersionNotFound { version_id: e.version_id.unwrap() }),
        Some(VersionLookup::Incomplete) => Err(
            ManifestStoreError::VersionIncomplete { version_id: e.version_id.unwrap() },
        ),
        Some(VersionLookup::Found(id)) => {
            let version_path = canonical_path(id.path.as_str())?;
            if !str_eq(e.path.as_str(), version_path.as_str()) {
                return Err(
                    ManifestStoreError::VersionPathMismatch { path: owned(e.path.as_str()), version_path },
                );
            }
            if !str_eq(e.language.as_str(), id.language.as_str()) {
                return Err(
                    ManifestStoreError::VersionLanguageMismatch {
                        path: owned(e.path.as_str()),
                        language: owned(e.language.as_str()),
                        version_language: owned(id.language.as_str()),
                    },
                );
            }
            if e.status == ManifestEntryStatus::Indexed && !str_eq(
                e.observed_content_hash.as_str(),
                id.content_hash.as_str(),
            ) {
                return Err(ManifestStoreError::ObservedHashMismatch { path: owned(e.path.as_str()) });
            }
            Ok(Some(version_path))
        },
    }
}

/// The version part of an entry's canonical bytes.
pub open spec fn version_bytes(e: ManifestEntry, lookup: Option<VersionLookup>) -> Seq<u8> {
    match lookup {
        Some(VersionLookup::Found(id)) => seq![1u8] + framed(e.path@) + framed(id.content_hash@) + be_u64(
            id.extraction_epoch as u64,
        ),
        _ => seq![0u8],
    }
}

fn push_version(out: &mut Vec<u8>, e: &ManifestEntry, lookup: &Option<VersionLookup>)
    ensures
        final(out)@ == old(out)@ + version_bytes(*e, *lookup),
{
    match lookup {
        Some(VersionLookup::Found(id)) => {
            out.push(1u8);
            push_framed(out, e.path.as_str());
            push_framed(out, id.content_hash.as_str());
            push_be_u64(out, id.extraction_epoch as u64);
        },
        _ => {
            out.push(0u8);
        },
    }
    assert(out@ =~= old(out)@ + version_bytes(*e, *lookup));
}

/// Appends the canonical bytes of an entry.
fn push_entry(out: &mut Vec<u8>, e: &ManifestEntry, lookup: &Option<VersionLookup>)
    ensures
        final(out)@ == old(out)@ + entry_bytes(*e, *lookup),
{
    let ghost start = out@;
    push_framed(out, e.path.as_str());
    push_framed(out, e.language.as_str());
    push_framed(out, e.status.as_str());
    push_framed(out, e.observed_content_hash.as_str());
    let ghost head = out@;
    assert(head =~= start + (framed(e.path@) + framed(e.language@) + framed(status_text(e.status)) + framed(
        e.observed_content_hash@,
    )));
    push_version(out, e, lookup);
    push_optional(out, &e.error_class);
    push_optional(out, &e.error_json);
    assert(out@ =~= old(out)@ + entry_bytes(*e, *lookup));
}

/// Encodes ordered, canonical entries against what the store holds for
/// their versions (`lookups[i]` for `entries[i]`, present exactly when the
/// entry names a version), and names the manifest by the lowercase hex
/// SHA-256 of its canonical bytes. The first entry that disagrees with
/// its version is reported.
pub fn encode_manifest(entries: Vec<ManifestEntry>, lookups: &Vec<Option<VersionLookup>>) -> (r: Result<
    BuiltManifest,
    ManifestStoreError,
>)
    requires
        lookups@.len() == entries@.len(),
        forall|i: int|
            0 <= i < entries@.len() ==> ((#[trigger] entries@[i]).version_id is Some <==> lookups@[i] is Some),
    ensures
        match first_failing(entries@, lookups@, 0) {
            Some(i) => r matches Err(err) && entry_fails_with(entries@[i], lookups@[i], err),
            None => r matches Ok(m) && m.entries@ == entries@ && m.manifest_hash@ == hex_text(
                sha256_of(manifest_bytes(entries@, lookups@)),
            ),
        },
{
    let mut canonical: Vec<u8> = Vec::new();
    push_framed(&mut canonical, "julie-store-manifest-v2");
    push_be_u64(&mut canonical, entries.len() as u64);
    let ghost head = canonical@;
    let mut i: usize = 0;
    while i < entries.len()
        invariant
            i <= entries@.len(),
            lookups@.len() == entries@.len(),
            forall|k: int|
                0 <= k < entries@.len() ==> ((#[trigger] entries@[k]).version_id is Some <==> lookups@[k] is Some),
            forall|k: int| 0 <= k < i ==> entry_passes(#[trigger] entries@[k], lookups@[k]),
            canonical@ == head + entries_bytes(entries@, lookups@, i as int),
        decreases entries@.len() - i,
    {
        match check_against_version(&entries[i], &lookups[i]) {
            Ok(_) => {
                push_entry(&mut canonical, &entries[i], &lookups[i]);
            },
            Err(err) => {
                proof {
                    lemma_first_failing_skip(entries@, lookups@, 0, i as int);
                }
                return Err(err);
            },
        }
        assert(canonical@ =~= head + entries_bytes(entries@, lookups@, i + 1));
        i = i + 1;
    }
    proof {
        lemma_first_failing_skip(entries@, lookups@, 0, entries@.len() as int);
    }
    let digest = sha256(canonical.as_slice());
    let mut hex: Vec<char> = Vec::new();
    push_hex(&mut hex, digest.as_slice());
    let mut manifest_hash = String::new();
    crate::text::push_chars(&mut manifest_hash, hex.as_slice());
    Ok(BuiltManifest { entries, manifest_hash })
}


// ---------------------------------------------------------------------
// Publication decisions.

/// A publication names its request, then its view.
pub fn check_publish_request(view_id: &str, request_id: &str) -> (r: Result<(), ManifestStoreError>)
    ensures
        request_id@.len() == 0 ==> r == Err::<(), ManifestStoreError>(ManifestStoreError::EmptyRequestId),
        request_id@.len() > 0 && view_id@.len() == 0 ==> r == Err::<(), ManifestStoreError>(
            ManifestStoreError::EmptyViewId,
        ),
        request_id@.len() > 0 && view_id@.len() > 0 ==> r is Ok,
{
    if request_id.is_empty() {
        return Err(ManifestStoreError::EmptyRequestId);
    }
    if view_id.is_empty() {
        return Err(ManifestStoreError::EmptyViewId);
    }
    Ok(())
}

/// What one publication attempt publishes: the desired manifest as built,
/// or the desired changes rebased onto the view's newer manifest.
#[derive(Debug, Clone, Copy, PartialEq, Eq, Structural)]
pub enum PublishBase {
    Desired,
    Rebased,
}

/// Decides one attempt from the generation the view is at: at the
/// expected one, the desired manifest is published; elsewhere the attempt
/// rebases, but only once the expected generation was seen (a first look
/// at another generation is a mismatch). Gives the base and whether the
/// expected generation has now been seen.
pub fn publish_attempt(expected: Option<u64>, actual: Option<u64>, observed_expected: bool) -> (r: Result<
    (PublishBase, bool),
    ManifestStoreError,
>)
    ensures
        actual == expected ==> r == Ok::<(PublishBase, bool), ManifestStoreError>((PublishBase::Desired, true)),
        actual != expected && !observed_expected ==> r == Err::<(PublishBase, bool), ManifestStoreError>(
            ManifestStoreError::GenerationMismatch { expected, actual },
        ),
        actual != expected && observed_expected ==> r == Ok::<(PublishBase, bool), ManifestStoreError>(
            (PublishBase::Rebased, true),
        ),
{
    if actual == expected {
        return Ok((PublishBase::Desired, true));
    }
    if !observed_expected {
        return Err(ManifestStoreError::GenerationMismatch { expected, actual });
    }
    Ok((PublishBase::Rebased, true))
}

/// Where a publication lands: its generation, whether it created or
/// reused a manifest, and whether the view flips to it (recording an
/// effect); a manifest already current is reused without a flip.
#[derive(Debug, Clone, Copy, PartialEq, Eq)]
pub struct PublishTarget {
    pub generation: u64,
    pub disposition: ManifestPublishDisposition,
    pub insert_manifest: bool,
    pub flip_view: bool,
}

/// Decides where a manifest lands, from the generation that already holds
/// the same hash (if any), the view's current generation, and the
/// highest generation of the view: the current generation when it is the
/// same manifest; another generation with the same hash is reused; else a
/// new generation one past the highest (or the first), which fails past
/// `i64::MAX`.
pub fn publish_target(existing: Option<i64>, actual: Option<u64>, max_generation: Option<i64>) -> (r: Result<
    PublishTarget,
    ManifestStoreError,
>)
    requires
        existing matches Some(g) ==> g >= 0,
        max_generation matches Some(m) ==> m >= 0,
    ensures
        match existing {
            Some(g) => if actual == Some(g as u64) {
                r == Ok::<PublishTarget, ManifestStoreError>(
                    PublishTarget {
                        generation: g as u64,
                        disposition: ManifestPublishDisposition::Reused,
                        insert_manifest: false,
                        flip_view: false,
                    },
                )
            } else {
                r == Ok::<PublishTarget, ManifestStoreError>(
                    PublishTarget {
                        generation: g as u64,
                        disposition: ManifestPublishDisposition::Reused,
                        insert_manifest: false,
                        flip_view: true,
                    },
                )
            },
            None => match max_generation {
                Some(m) => if m == i64::MAX {
                    r == Err::<PublishTarget, ManifestStoreError>(
                        ManifestStoreError::GenerationOutOfRange { generation: (m + 1) as u64 },
                    )
                } else {
                    r == Ok::<PublishTarget, ManifestStoreError>(
                        PublishTarget {
                            generation: (m + 1) as u64,
                            disposition: ManifestPublishDisposition::Created,
                            insert_manifest: true,
                            flip_view: true,
                        },
                    )
                },
                None => r == Ok::<PublishTarget, ManifestStoreError>(
                    PublishTarget {
                        generation: 1,
                        disposition: ManifestPublishDisposition::Created,
                        insert_manifest: true,
                        flip_view: true,
                    },
                ),
            },
        },
{
    match existing {
        Some(g) => {
            let generation = g as u64;
            if actual == Some(generation) {
                Ok(
                    PublishTarget {
                        generation,
                        disposition: ManifestPublishDisposition::Reused,
                        insert_manifest: false,
                        flip_view: false,
                    },
                )
            } else {
                Ok(
                    PublishTarget {
                        generation,
                        disposition: ManifestPublishDisposition::Reused,
                        insert_manifest: false,
                        flip_view: true,
                    },
                )
            }
        },
        None => match max_generation {
            Some(m) => match m.checked_add(1) {
                Some(next) => Ok(
                    PublishTarget {
                        generation: next as u64,
                        disposition: ManifestPublishDisposition::Created,
                        insert_manifest: true,
                        flip_view: true,
                    },
                ),
                None => Err(ManifestStoreError::GenerationOutOfRange { generation: (m as u64) + 1 }),
            },
            None => Ok(
                PublishTarget {
                    generation: 1,
                    disposition: ManifestPublishDisposition::Created,
                    insert_manifest: true,
                    flip_view: true,
                },
            ),
        },
    }
}

/// The pause before retry `attempt`: ten milliseconds, doubled per attempt
/// up to eighty.
pub fn retry_delay_ms(attempt: u32) -> (r: u64)
    ensures
        r == if attempt >= 3 {
            80u64
        } else if attempt == 2 {
            40u64
        } else if attempt == 1 {
            20u64
        } else {
            10u64
        },
{
    let shift: u64 = if attempt < 3 { attempt as u64 } else { 3 };
    let r: u64 = 10u64 << shift;
    assert(r == 10u64 << shift);
    assert(shift == 0 ==> (10u64 << shift) == 10) by (bit_vector);
    assert(shift == 1 ==> (10u64 << shift) == 20) by (bit_vector);
    assert(shift == 2 ==> (10u64 << shift) == 40) by (bit_vector);
    assert(shift == 3 ==> (10u64 << shift) == 80) by (bit_vector);
    r
}

} // verus!

//! Projecting an extracted file into a store version: which files may
//! become versions, and the reference sites a version stores at levels 1
//! and 2, one per site identifier.

use vstd::prelude::*;

use crate::model::FileStatus;
use crate::store::model::{StoreProjectionError, StoreReferenceSite};
use crate::text::str_eq;

verus! {

/// The first reason, if any, that a file cannot become a store version:
/// it must be indexed, have a content hash, come from a positive
/// extraction epoch, and have no negative byte or line count.
pub open spec fn projection_fault(
    extraction_epoch: u32,
    status: FileStatus,
    content_hash: Seq<char>,
    content_bytes: i64,
    line_count: Option<i64>,
) -> Option<StoreProjectionError> {
    if status != FileStatus::Indexed {
        Some(StoreProjectionError::FileNotIndexed(status))
    } else if content_hash.len() == 0 {
        Some(StoreProjectionError::MissingContentHash)
    } else if extraction_epoch == 0 {
        Some(StoreProjectionError::InvalidExtractionEpoch(extraction_epoch))
    } else if content_bytes < 0 {
        Some(StoreProjectionError::NegativeContentBytes(content_bytes))
    } else if line_count matches Some(n) && n < 0 {
        Some(StoreProjectionError::NegativeLineCount(line_count.unwrap()))
    } else {
        None
    }
}

/// Whether a file with these facts may become a store version.
pub fn check_store_projection(
    extraction_epoch: u32,
    status: FileStatus,
    content_hash: &str,
    content_bytes: i64,
    line_count: Option<i64>,
) -> (r: Result<(), StoreProjectionError>)
    ensures
        match projection_fault(extraction_epoch, status, content_hash@, content_bytes, line_count) {
            None => r is Ok,
            Some(e) => r == Err::<(), StoreProjectionError>(e),
        },
{
    let indexed = match status {
        FileStatus::Indexed => true,
        _ => false,
    };
    if !indexed {
        return Err(StoreProjectionError::FileNotIndexed(status));
    }
    if content_hash.is_empty() {
        return Err(StoreProjectionError::MissingContentHash);
    }
    if extraction_epoch == 0 {
        return Err(StoreProjectionError::InvalidExtractionEpoch(extraction_epoch));
    }
    if content_bytes < 0 {
        return Err(StoreProjectionError::NegativeContentBytes(content_bytes));
    }
    match line_count {
        Some(n) => {
            if n < 0 {
                return Err(StoreProjectionError::NegativeLineCount(n));
            }
        },
        None => {},
    }
    Ok(())
}

/// The index of the first site in `s` with identifier `id`, if any.
pub open spec fn site_index(s: Seq<StoreReferenceSite>, id: Seq<char>) -> Option<int>
    decreases s.len(),
{
    if s.len() == 0 {
        None
    } else {
        match site_index(s.drop_last(), id) {
            Some(k) => Some(k),
            None => if s.last().reference_site_id@ == id {
                Some(s.len() - 1)
            } else {
                None
            },
        }
    }
}

/// The sites the candidates project to, in the order each identifier
/// first appears: the first candidate for an identifier is kept, and
/// raised to level 1 when a later candidate for it is at level 1.
pub open spec fn projected_sites(c: Seq<StoreReferenceSite>) -> Seq<StoreReferenceSite>
    decreases c.len(),
{
    if c.len() == 0 {
        seq![]
    } else {
        let prev = projected_sites(c.drop_last());
        let x = c.last();
        match site_index(prev, x.reference_site_id@) {
            Some(k) => if x.level == 1 {
                prev.update(k, StoreReferenceSite { level: 1, ..prev[k] })
            } else {
                prev
            },
            None => prev.push(x),
        }
    }
}

/// The sites of `s` at level 1 (`one`) or at any other level (`!one`), in
/// order.
pub open spec fn sites_at(s: Seq<StoreReferenceSite>, one: bool) -> Seq<StoreReferenceSite>
    decreases s.len(),
{
    if s.len() == 0 {
        seq![]
    } else {
        let prev = sites_at(s.drop_last(), one);
        if (s.last().level == 1) == one {
            prev.push(s.last())
        } else {
            prev
        }
    }
}

/// The index of the site for `id` among `sites`, found by scanning.
fn find_site(sites: &Vec<StoreReferenceSite>, id: &str) -> (r: Option<usize>)
    ensures
        match r {
            Some(k) => k < sites@.len() && site_index(sites@, id@) == Some(k as int),
            None => site_index(sites@, id@) is None,
        },
{
    let mut i: usize = 0;
    while i < sites.len()
        invariant
            i <= sites@.len(),
            site_index(sites@.take(i as int), id@) is None,
        decreases sites@.len() - i,
    {
        assert(sites@.take(i + 1).drop_last() =~= sites@.take(i as int));
        if str_eq(sites[i].reference_site_id.as_str(), id) {
            proof {
                lemma_site_index_prefix(sites@, i as int + 1, id@);
            }
            return Some(i);
        }
        i = i + 1;
    }
    assert(sites@.take(i as int) =~= sites@);
    None
}

/// A site found in a prefix is found at the same place in the whole run.
proof fn lemma_site_index_prefix(s: Seq<StoreReferenceSite>, n: int, id: Seq<char>)
    requires
        0 <= n <= s.len(),
        site_index(s.take(n), id) is Some,
    ensures
        site_index(s, id) == site_index(s.take(n), id),
    decreases s.len() - n,
{
    if n < s.len() {
        assert(s.take(n + 1).drop_last() =~= s.take(n));
        lemma_site_index_prefix(s, n + 1, id);
    } else {
        assert(s.take(n) =~= s);
    }
}

/// Moves the elements of `v` into a new vector, last first.
fn reversed(v: Vec<StoreReferenceSite>) -> (r: Vec<StoreReferenceSite>)
    ensures
        r@.len() == v@.len(),
        forall|k: int| 0 <= k < v@.len() ==> #[trigger] r@[k] == v@[v@.len() - 1 - k],
{
    let ghost all = v@;
    let mut rest = v;
    let mut out: Vec<StoreReferenceSite> = Vec::new();
    while rest.len() > 0
        invariant
            rest@ == all.take(rest@.len() as int),
            out@.len() + rest@.len() == all.len(),
            forall|k: int| 0 <= k < out@.len() ==> #[trigger] out@[k] == all[all.len() - 1 - k],
        decreases rest@.len(),
    {
        let x = rest.pop().unwrap();
        out.push(x);
    }
    out
}

/// The reference sites of a version from its candidates (the sites of its
/// identifiers, each at the level its claims give it, then those of its
/// relationships and pending relationships, at level 1): one site per
/// identifier, first appearance first, split into the sites at level 1
/// and the rest.
pub fn project_reference_sites(candidates: Vec<StoreReferenceSite>) -> (r: (
    Vec<StoreReferenceSite>,
    Vec<StoreReferenceSite>,
))
    ensures
        r.0@ == sites_at(projected_sites(candidates@), true),
        r.1@ == sites_at(projected_sites(candidates@), false),
{
    let ghost c = candidates@;
    let n = candidates.len();
    let mut pending = reversed(candidates);
    let mut sites: Vec<StoreReferenceSite> = Vec::new();
    while pending.len() > 0
        invariant
            n == c.len(),
            pending@.len() <= n,
            forall|k: int| 0 <= k < pending@.len() ==> #[trigger] pending@[k] == c[n - 1 - k],
            sites@ == projected_sites(c.take(n - pending@.len())),
        decreases pending@.len(),
    {
        let ghost i = n - pending@.len();
        let x = pending.pop().unwrap();
        proof {
            assert(x == c[i]);
            assert(c.take(i + 1).drop_last() =~= c.take(i));
            assert(c.take(i + 1).last() == x);
        }
        match find_site(&sites, x.reference_site_id.as_str()) {
            Some(k) => {
                if x.level == 1 {
                    let mut s = sites.remove(k);
                    s.level = 1;
                    sites.insert(k, s);
                    proof {
                        let prev = projected_sites(c.take(i));
                        assert(sites@ =~= prev.update(k as int, StoreReferenceSite { level: 1, ..prev[k as int] }));
                    }
                }
            },
            None => {
                sites.push(x);
            },
        }
    }
    assert(c.take(n as int) =~= c);
    let ghost all = sites@;
    let mut rest = reversed(sites);
    let mut l1: Vec<StoreReferenceSite> = Vec::new();
    let mut l2: Vec<StoreReferenceSite> = Vec::new();
    while rest.len() > 0
        invariant
            rest@.len() <= all.len(),
            forall|k: int| 0 <= k < rest@.len() ==> #[trigger] rest@[k] == all[all.len() - 1 - k],
            l1@ == sites_at(all.take(all.len() - rest@.len()), true),
            l2@ == sites_at(all.take(all.len() - rest@.len()), false),
        decreases rest@.len(),
    {
        let ghost i = all.len() - rest@.len();
        let x = rest.pop().unwrap();
        proof {
            assert(x == all[i]);
            assert(all.take(i + 1).drop_last() =~= all.take(i));
            assert(all.take(i + 1).last() == x);
        }
        if x.level == 1 {
            l1.push(x);
        } else {
            l2.push(x);
        }
    }
    assert(all.take(all.len() as int) =~= all);
    (l1, l2)
}

} // verus!

//! The on-disk layout of a store family: generation naming, the paths that
//! belong to one published generation, the rule that every resolved path
//! stays inside the family root, and which leftover scaffolding may be
//! reaped.

use vstd::prelude::*;

use crate::text::{
    all_digits, chars_of, contains_sub, ends_with, find_sub_exec, has_prefix, has_suffix,
    lemma_find_sub_facts, find_sub, push_str, slice_chars, starts_with, string_of,
};

verus! {

/// Durable ownership of an unpublished generation directory.
#[derive(Debug, Clone, PartialEq, Eq)]
pub struct PartialGenerationOwner {
    pub run_id: String,
    pub owner_id: String,
    pub owner_pid: u32,
    pub fencing_token: i64,
    pub expires_at: i64,
}

/// Failure to create or resolve a store layout.
#[derive(Debug, Clone, PartialEq, Eq)]
pub enum StoreLayoutError {
    FamilyMismatch { expected: String, found: String },
    CurrentMissing { path: String },
    CurrentRecoveryRequired { generations: Vec<String> },
    PartialGenerationRecoveryRequired { path: String },
    InvalidGeneration { value: String },
    PathEscapesRoot { path: String },
    UnexpectedPathType { path: String, expected: &'static str },
    PragmaMismatch { pragma: &'static str, expected: i64, found: i64 },
    TextPragmaMismatch { pragma: &'static str, expected: &'static str, found: String },
}

/// `gen-` followed by at least three ASCII digits.
pub open spec fn is_generation_name(s: Seq<char>) -> bool {
    has_prefix(s, "gen-"@) && s.len() - 4 >= 3 && all_digits(s.skip(4))
}

/// Whether `value` names a published generation directory.
pub fn valid_generation_name(value: &str) -> (r: bool)
    ensures
        r == is_generation_name(value@),
{
    let cs = chars_of(value);
    let prefix = chars_of("gen-");
    if !starts_with(cs.as_slice(), prefix.as_slice()) {
        return false;
    }
    proof {
        reveal_strlit("gen-");
    }
    let digits = slice_chars(cs.as_slice(), 4, cs.len());
    assert(digits@ == value@.skip(4));
    digits.len() >= 3 && all_digits_exec(&digits)
}

/// Whether every character is an ASCII digit.
pub fn all_digits_exec(x: &Vec<char>) -> (r: bool)
    ensures
        r == all_digits(x@),
{
    let mut i: usize = 0;
    while i < x.len()
        invariant
            i <= x@.len(),
            forall|k: int| 0 <= k < i ==> crate::text::is_digit(#[trigger] x@[k]),
        decreases x@.len() - i,
    {
        if !('0' <= x[i] && x[i] <= '9') {
            return false;
        }
        i = i + 1;
    }
    true
}

/// An unpublished generation directory: `.gen-`, three or more digits,
/// `.partial`, and either nothing or a `-` suffix after it.
pub open spec fn is_partial_generation_scaffold(name: Seq<char>) -> bool {
    has_prefix(name, ".gen-"@) && ({
        let value = name.skip(5);
        match find_sub(value, ".partial"@) {
            None => false,
            Some(i) => {
                let digits = value.take(i);
                let suffix = value.skip(i + 8);
                digits.len() >= 3 && all_digits(digits) && (suffix.len() == 0 || suffix[0] == '-')
            },
        }
    })
}

/// Whether `name` is leftover scaffolding of an unpublished generation.
pub fn partial_generation_scaffold(name: &str) -> (r: bool)
    ensures
        r == is_partial_generation_scaffold(name@),
{
    let cs = chars_of(name);
    let prefix = chars_of(".gen-");
    proof {
        reveal_strlit(".gen-");
        reveal_strlit(".partial");
    }
    if !starts_with(cs.as_slice(), prefix.as_slice()) {
        return false;
    }
    let value = slice_chars(cs.as_slice(), 5, cs.len());
    assert(value@ == name@.skip(5));
    let marker = chars_of(".partial");

    proof {
        lemma_find_sub_facts(value@, marker@, 0);
    }
    match find_sub_exec(value.as_slice(), marker.as_slice()) {
        None => false,
        Some(i) => {
            let digits = slice_chars(value.as_slice(), 0, i);
            let suffix = slice_chars(value.as_slice(), i + 8, value.len());
            digits.len() >= 3 && all_digits_exec(&digits) && (suffix.len() == 0 || suffix[0] == '-')
        },
    }
}

/// The scratch-file name without a `-wal` or `-shm` sidecar suffix.
pub open spec fn without_sidecar(name: Seq<char>) -> Seq<char> {
    if has_suffix(name, "-wal"@) {
        name.take(name.len() - 4)
    } else if has_suffix(name, "-shm"@) {
        name.take(name.len() - 4)
    } else {
        name
    }
}

/// Retired resolution scratch files: `resolve-…` holding `.db`, or
/// `resolution-…` holding `.partial.db`, with their sidecars.
pub open spec fn is_retired_resolution_scratch(name: Seq<char>) -> bool {
    let base = without_sidecar(name);
    (has_prefix(base, "resolve-"@) && contains_sub(base, ".db"@)) || (has_prefix(base, "resolution-"@)
        && contains_sub(base, ".partial.db"@))
}

/// The sidecar-free base of a scratch-file name.
pub fn strip_sidecar(cs: &Vec<char>) -> (r: Vec<char>)
    ensures
        r@ == without_sidecar(cs@),
{
    let wal = chars_of("-wal");
    let shm = chars_of("-shm");
    proof {
        reveal_strlit("-wal");
        reveal_strlit("-shm");
    }
    if ends_with(cs.as_slice(), wal.as_slice()) {
        slice_chars(cs.as_slice(), 0, cs.len() - 4)
    } else if ends_with(cs.as_slice(), shm.as_slice()) {
        slice_chars(cs.as_slice(), 0, cs.len() - 4)
    } else {
        slice_chars(cs.as_slice(), 0, cs.len())
    }
}

/// Whether a scratch entry belongs to the retired resolution scratch
/// families.
pub fn is_retired_resolution_scratch_name(name: &str) -> (r: bool)
    ensures
        r == is_retired_resolution_scratch(name@),
{
    let cs = chars_of(name);
    let base = strip_sidecar(&cs);
    let resolve = chars_of("resolve-");
    let resolution = chars_of("resolution-");
    let db = chars_of(".db");
    let partial_db = chars_of(".partial.db");
    (starts_with(base.as_slice(), resolve.as_slice()) && find_sub_exec(base.as_slice(), db.as_slice()).is_some())
        || (starts_with(base.as_slice(), resolution.as_slice()) && find_sub_exec(
        base.as_slice(),
        partial_db.as_slice(),
    ).is_some())
}

/// `path` is `root` or lies below it, compared component by component, for
/// resolved absolute paths.
pub open spec fn within_root(root: Seq<char>, path: Seq<char>) -> bool {
    path == root || (has_prefix(path, root) && ((root.len() > 0 && root.last() == '/') || path[
    root.len() as int] == '/'))
}

/// Whether a resolved path stays inside the family root.
pub fn path_within_root(root: &str, path: &str) -> (r: bool)
    ensures
        r == within_root(root@, path@),
{
    let rc = chars_of(root);
    let pc = chars_of(path);
    if crate::text::chars_eq(rc.as_slice(), pc.as_slice()) {
        return true;
    }
    if !starts_with(pc.as_slice(), rc.as_slice()) {
        return false;
    }
    if pc.len() == rc.len() {
        assert(pc@.take(rc@.len() as int) == pc@);
        return false;
    }
    (rc.len() > 0 && rc[rc.len() - 1] == '/') || (pc.len() > rc.len() && pc[rc.len()] == '/')
}

/// Rejects a resolved path that escapes the family root.
pub fn ensure_within_root(root: &str, path: &str) -> (r: Result<(), StoreLayoutError>)
    ensures
        r is Ok <==> within_root(root@, path@),
        r matches Err(StoreLayoutError::PathEscapesRoot { path: p }) ==> p@ == path@,
        r matches Err(e) ==> e is PathEscapesRoot,
{
    if path_within_root(root, path) {
        Ok(())
    } else {
        Err(StoreLayoutError::PathEscapesRoot { path: crate::text::owned(path) })
    }
}

/// Paths belonging to one published store generation, each resolved and
/// inside the family root.
#[derive(Debug, Clone, PartialEq, Eq)]
pub struct StoreLayout {
    root: String,
    generation_name: String,
    generation_dir: String,
    store_db: String,
    coordinator_db: String,
    spool_dir: String,
    scratch_dir: String,
    bases_dir: String,
}

/// The mathematical value of a layout: its eight resolved paths.
pub struct LayoutView {
    pub root: Seq<char>,
    pub generation_name: Seq<char>,
    pub generation_dir: Seq<char>,
    pub store_db: Seq<char>,
    pub coordinator_db: Seq<char>,
    pub spool_dir: Seq<char>,
    pub scratch_dir: Seq<char>,
    pub bases_dir: Seq<char>,
}

impl View for StoreLayout {
    type V = LayoutView;

    closed spec fn view(&self) -> LayoutView {
        LayoutView {
            root: self.root@,
            generation_name: self.generation_name@,
            generation_dir: self.generation_dir@,
            store_db: self.store_db@,
            coordinator_db: self.coordinator_db@,
            spool_dir: self.spool_dir@,
            scratch_dir: self.scratch_dir@,
            bases_dir: self.bases_dir@,
        }
    }
}

impl StoreLayout {
    /// Well-formedness: a valid generation name and every path inside the
    /// root.
    pub open spec fn wf(&self) -> bool {
        &&& is_generation_name(self@.generation_name)
        &&& within_root(self@.root, self@.generation_dir)
        &&& within_root(self@.root, self@.store_db)
        &&& within_root(self@.root, self@.coordinator_db)
        &&& within_root(self@.root, self@.spool_dir)
        &&& within_root(self@.root, self@.scratch_dir)
        &&& within_root(self@.root, self@.bases_dir)
    }

    /// Binds a named generation to its resolved paths: the name must be a
    /// generation name, then each path (generation directory, store
    /// database, coordinator database, spool, scratch, bases, in that
    /// order) must stay inside the root.
    #[allow(clippy::too_many_arguments)]
    pub fn open_named_generation(
        root: &str,
        generation_name: &str,
        generation_dir: &str,
        store_db: &str,
        coordinator_db: &str,
        spool_dir: &str,
        scratch_dir: &str,
        bases_dir: &str,
    ) -> (r: Result<Self, StoreLayoutError>)
        ensures
            match r {
                Ok(layout) => layout.wf() && layout@ == (LayoutView {
                    root: root@,
                    generation_name: generation_name@,
                    generation_dir: generation_dir@,
                    store_db: store_db@,
                    coordinator_db: coordinator_db@,
                    spool_dir: spool_dir@,
                    scratch_dir: scratch_dir@,
                    bases_dir: bases_dir@,
                }),
                Err(StoreLayoutError::InvalidGeneration { value }) => !is_generation_name(
                    generation_name@,
                ) && value@ == generation_name@,
                Err(StoreLayoutError::PathEscapesRoot { path }) => is_generation_name(
                    generation_name@,
                ) && !(within_root(root@, generation_dir@) && within_root(root@, store_db@)
                    && within_root(root@, coordinator_db@) && within_root(root@, spool_dir@)
                    && within_root(root@, scratch_dir@) && within_root(root@, bases_dir@)),
                Err(_) => false,
            },
    {
        if !valid_generation_name(generation_name) {
            return Err(StoreLayoutError::InvalidGeneration { value: crate::text::owned(generation_name) });
        }
        ensure_within_root(root, generation_dir)?;
        ensure_within_root(root, store_db)?;
        ensure_within_root(root, coordinator_db)?;
        ensure_within_root(root, spool_dir)?;
        ensure_within_root(root, scratch_dir)?;
        ensure_within_root(root, bases_dir)?;
        Ok(StoreLayout {
            root: crate::text::owned(root),
            generation_name: crate::text::owned(generation_name),
            generation_dir: crate::text::owned(generation_dir),
            store_db: crate::text::owned(store_db),
            coordinator_db: crate::text::owned(coordinator_db),
            spool_dir: crate::text::owned(spool_dir),
            scratch_dir: crate::text::owned(scratch_dir),
            bases_dir: crate::text::owned(bases_dir),
        })
    }

    pub fn root(&self) -> (r: &str)
        ensures
            r@ == self@.root,
    {
        self.root.as_str()
    }

    pub fn generation_name(&self) -> (r: &str)
        ensures
            r@ == self@.generation_name,
    {
        self.generation_name.as_str()
    }

    pub fn generation_dir(&self) -> (r: &str)
        ensures
            r@ == self@.generation_dir,
    {
        self.generation_dir.as_str()
    }

    pub fn store_db(&self) -> (r: &str)
        ensures
            r@ == self@.store_db,
    {
        self.store_db.as_str()
    }

    pub fn coordinator_db(&self) -> (r: &str)
        ensures
            r@ == self@.coordinator_db,
    {
        self.coordinator_db.as_str()
    }

    pub fn spool_dir(&self) -> (r: &str)
        ensures
            r@ == self@.spool_dir,
    {
        self.spool_dir.as_str()
    }

    pub fn scratch_dir(&self) -> (r: &str)
        ensures
            r@ == self@.scratch_dir,
    {
        self.scratch_dir.as_str()
    }

    pub fn bases_dir(&self) -> (r: &str)
        ensures
            r@ == self@.bases_dir,
    {
        self.bases_dir.as_str()
    }
}

/// `root/name`, the way a path is joined below a directory.
pub open spec fn joined(root: Seq<char>, name: Seq<char>) -> Seq<char> {
    if root.len() > 0 && root.last() == '/' {
        root + name
    } else {
        root + seq!['/'] + name
    }
}

/// Joins `name` below the directory `root`.
pub fn join_path(root: &str, name: &str) -> (r: String)
    ensures
        r@ == joined(root@, name@),
{
    let rc = chars_of(root);
    let mut out = string_of(rc.as_slice());
    if !(rc.len() > 0 && rc[rc.len() - 1] == '/') {
        crate::text::push_char(&mut out, '/');
    }
    push_str(&mut out, name);
    out
}

/// The maintenance intent that guards unpublished scaffolding.
#[derive(Debug, Clone, PartialEq, Eq)]
pub struct ScaffoldIntent {
    pub run_id: String,
    pub owner_id: String,
    pub fencing_token: i64,
    pub expires_at: i64,
}

/// A leftover `CURRENT.partial` may be reaped unless a maintenance intent
/// is still live.
pub fn current_partial_reapable(intent: &Option<ScaffoldIntent>, now_ms: i64) -> (r: bool)
    ensures
        r == !(intent matches Some(i) && i.expires_at > now_ms),
{
    match intent {
        Some(i) => !(i.expires_at > now_ms),
        None => true,
    }
}

/// An unpublished generation may be reaped only when its owner process is
/// dead and either no intent exists, or the intent names this owner and has
/// expired.
pub fn partial_generation_reapable(
    intent: &Option<ScaffoldIntent>,
    owner: &PartialGenerationOwner,
    now_ms: i64,
    owner_dead: bool,
) -> (r: bool)
    ensures
        r == (owner_dead && match intent {
            None => true,
            Some(i) => i.run_id@ == owner.run_id@ && i.owner_id@ == owner.owner_id@
                && i.fencing_token == owner.fencing_token && i.expires_at <= now_ms,
        }),
{
    let intent_allows_reap = match intent {
        None => true,
        Some(i) => {
            crate::text::str_eq(i.run_id.as_str(), owner.run_id.as_str())
                && crate::text::str_eq(i.owner_id.as_str(), owner.owner_id.as_str())
                && i.fencing_token == owner.fencing_token && i.expires_at <= now_ms
        },
    };
    intent_allows_reap && owner_dead
}

} // verus!

//! View manifests: the entries a manifest holds, the canonical form of a
//! path, the checks an entry passes, the canonical byte encoding of a
//! manifest and its SHA-256 hash, and the decisions of a publication.

use vstd::prelude::*;

use crate::json::{is_json, json_parses, sha256, sha256_of};
use crate::sorted::{keys, strictly_sorted, SortedKey};
use crate::store::log::StoreLogError;
use crate::text::{
    be_u64, chars_of, framed, hex_text, lemma_split_nonempty, owned, push_be_u64, push_bytes, push_framed,
    push_hex, split_chars, split_spec, str_eq, str_less, string_of, text_lt, pieces_match,
};

verus! {

/// The most optimistic recomputations after a concurrent publication.
pub const MANIFEST_PUBLISH_MAX_RETRIES: u32 = 6;

/// View-local state attached to one path in an immutable manifest.
#[derive(Debug, Clone, Copy, PartialEq, Eq, Structural)]
pub enum ManifestEntryStatus {
    Indexed,
    FailedPreserved,
    Failed,
}

/// The stored spelling of a status.
pub open spec fn status_text(s: ManifestEntryStatus) -> Seq<char> {
    match s {
        ManifestEntryStatus::Indexed => "indexed"@,
        ManifestEntryStatus::FailedPreserved => "failed_preserved"@,
        ManifestEntryStatus::Failed => "failed"@,
    }
}

impl ManifestEntryStatus {
    pub fn as_str(self) -> (r: &'static str)
        ensures
            r@ == status_text(self),
    {
        proof {
            reveal_strlit("indexed");
            reveal_strlit("failed_preserved");
            reveal_strlit("failed");
        }
        match self {
            ManifestEntryStatus::Indexed => "indexed",
            ManifestEntryStatus::FailedPreserved => "failed_preserved",
            ManifestEntryStatus::Failed => "failed",
        }
    }
}

/// Reads a stored status.
pub fn parse_status(status: &str) -> (r: Option<ManifestEntryStatus>)
    ensures
        match r {
            Some(s) => status@ == status_text(s),
            None => status@ != "indexed"@ && status@ != "failed_preserved"@ && status@ != "failed"@,
        },
{
    if str_eq(status, "indexed") {
        Some(ManifestEntryStatus::Indexed)
    } else if str_eq(status, "failed_preserved") {
        Some(ManifestEntryStatus::FailedPreserved)
    } else if str_eq(status, "failed") {
        Some(ManifestEntryStatus::Failed)
    } else {
        None
    }
}

/// One path in a view manifest.
#[derive(Debug, Clone, PartialEq, Eq)]
pub struct ManifestEntry {
    pub path: String,
    pub language: String,
    pub version_id: Option<i64>,
    pub status: ManifestEntryStatus,
    pub observed_content_hash: String,
    pub indexed_at: String,
    pub error_class: Option<String>,
    pub error_json: Option<String>,
}

impl ManifestEntry {
    /// A path indexed as file version `version_id`.
    pub fn indexed(
        path: String,
        language: String,
        version_id: i64,
        observed_content_hash: String,
        indexed_at: String,
    ) -> (r: Self)
        ensures
            r == (ManifestEntry {
                path,
                language,
                version_id: Some(version_id),
                status: ManifestEntryStatus::Indexed,
                observed_content_hash,
                indexed_at,
                error_class: None,
                error_json: None,
            }),
    {
        ManifestEntry {
            path,
            language,
            version_id: Some(version_id),
            status: ManifestEntryStatus::Indexed,
            observed_content_hash,
            indexed_at,
            error_class: None,
            error_json: None,
        }
    }

    /// A path whose latest extraction failed, keeping file version
    /// `version_id`.
    pub fn failed_preserved(
        path: String,
        language: String,
        version_id: i64,
        observed_content_hash: String,
        indexed_at: String,
        error_class: String,
        error_json: String,
    ) -> (r: Self)
        ensures
            r == (ManifestEntry {
                path,
                language,
                version_id: Some(version_id),
                status: ManifestEntryStatus::FailedPreserved,
                observed_content_hash,
                indexed_at,
                error_class: Some(error_class),
                error_json: Some(error_json),
            }),
    {
        ManifestEntry {
            path,
            language,
            version_id: Some(version_id),
            status: ManifestEntryStatus::FailedPreserved,
            observed_content_hash,
            indexed_at,
            error_class: Some(error_class),
            error_json: Some(error_json),
        }
    }

    /// A path whose extraction failed, with no file version.
    pub fn failed(
        path: String,
        language: String,
        observed_content_hash: String,
        indexed_at: String,
        error_class: String,
        error_json: String,
    ) -> (r: Self)
        ensures
            r == (ManifestEntry {
                path,
                language,
                version_id: None,
                status: ManifestEntryStatus::Failed,
                observed_content_hash,
                indexed_at,
                error_class: Some(error_class),
                error_json: Some(error_json),
            }),
    {
        ManifestEntry {
            path,
            language,
            version_id: None,
            status: ManifestEntryStatus::Failed,
            observed_content_hash,
            indexed_at,
            error_class: Some(error_class),
            error_json: Some(error_json),
        }
    }
}

/// Canonical manifest entries and their deterministic semantic hash.
#[derive(Debug, Clone, PartialEq, Eq)]
pub struct BuiltManifest {
    pub entries: Vec<ManifestEntry>,
    pub manifest_hash: String,
}

/// Canonicalizes manifest entries against completed file-version
/// identities.
pub struct ManifestBuilder {
    entries: Vec<ManifestEntry>,
}

impl ManifestBuilder {
    pub closed spec fn entries_value(&self) -> Seq<ManifestEntry> {
        self.entries@
    }

    pub fn from_entries(entries: Vec<ManifestEntry>) -> (r: Self)
        ensures
            r.entries_value() == entries@,
    {
        ManifestBuilder { entries }
    }

    /// The entries to canonicalize, handed over.
    pub fn into_entries(self) -> (r: Vec<ManifestEntry>)
        ensures
            r@ == self.entries_value(),
    {
        self.entries
    }
}

/// Result class for an immutable manifest publication.
#[derive(Debug, Clone, Copy, PartialEq, Eq, Structural)]
pub enum ManifestPublishDisposition {
    Created,
    Reused,
}

/// Durable result of publishing or reusing a manifest generation.
#[derive(Debug, Clone, PartialEq, Eq)]
pub struct ManifestPublishResult {
    pub generation: u64,
    pub manifest_hash: String,
    pub disposition: ManifestPublishDisposition,
    pub effect_sequence: Option<i64>,
    pub retries: u32,
}

/// Whether import created a view binding or confirmed the existing one.
#[derive(Debug, Clone, Copy, PartialEq, Eq, Structural)]
pub enum ViewEnsureDisposition {
    Created,
    Existing,
}

/// A manifest validation or publication failure.
#[derive(Debug, Clone, PartialEq, Eq)]
pub enum ManifestStoreError {
    EmptyViewId,
    EmptyRoot,
    EmptyRequestId,
    InvalidPath { path: String },
    DuplicatePath { path: String },
    InvalidEntry { path: String },
    VersionNotFound { version_id: i64 },
    VersionIncomplete { version_id: i64 },
    VersionPathMismatch { path: String, version_path: String },
    VersionLanguageMismatch { path: String, language: String, version_language: String },
    ObservedHashMismatch { path: String },
    ViewNotFound { view_id: String },
    ViewRootMismatch { view_id: String, expected: String, found: String },
    GenerationOutOfRange { generation: u64 },
    GenerationMismatch { expected: Option<u64>, actual: Option<u64> },
    ManifestNotFound { view_id: String, generation: u64 },
    Log(StoreLogError),
}

/// The stable code of a manifest error.
pub open spec fn manifest_error_code(e: ManifestStoreError) -> Seq<char> {
    match e {
        ManifestStoreError::EmptyViewId => "invalid_view_id"@,
        ManifestStoreError::EmptyRoot => "invalid_view_root"@,
        ManifestStoreError::EmptyRequestId => "invalid_request_id"@,
        ManifestStoreError::InvalidPath { .. } => "invalid_manifest_path"@,
        ManifestStoreError::DuplicatePath { .. } => "duplicate_manifest_path"@,
        ManifestStoreError::InvalidEntry { .. } => "invalid_manifest_entry"@,
        ManifestStoreError::VersionNotFound { .. } => "file_version_not_found"@,
        ManifestStoreError::VersionIncomplete { .. } => "file_version_incomplete"@,
        ManifestStoreError::VersionPathMismatch { .. } => "file_version_path_mismatch"@,
        ManifestStoreError::VersionLanguageMismatch { .. } => "file_version_language_mismatch"@,
        ManifestStoreError::ObservedHashMismatch { .. } => "observed_content_hash_mismatch"@,
        ManifestStoreError::ViewNotFound { .. } => "view_not_found"@,
        ManifestStoreError::ViewRootMismatch { .. } => "view_root_mismatch"@,
        ManifestStoreError::GenerationOutOfRange { .. } => "manifest_generation_out_of_range"@,
        ManifestStoreError::GenerationMismatch { .. } => "manifest_generation_mismatch"@,
        ManifestStoreError::ManifestNotFound { .. } => "manifest_not_found"@,
        ManifestStoreError::Log(inner) => crate::store::log::log_error_code(inner),
    }
}

impl ManifestStoreError {
    pub fn code(&self) -> (r: &'static str)
        ensures
            r@ == manifest_error_code(*self),
    {
        proof {
            reveal_strlit("invalid_view_id");
            reveal_strlit("invalid_view_root");
            reveal_strlit("invalid_request_id");
            reveal_strlit("invalid_manifest_path");
            reveal_strlit("duplicate_manifest_path");
            reveal_strlit("invalid_manifest_entry");
            reveal_strlit("file_version_not_found");
            reveal_strlit("file_version_incomplete");
            reveal_strlit("file_version_path_mismatch");
            reveal_strlit("file_version_language_mismatch");
            reveal_strlit("observed_content_hash_mismatch");
            reveal_strlit("view_not_found");
            reveal_strlit("view_root_mismatch");
            reveal_strlit("manifest_generation_out_of_range");
            reveal_strlit("manifest_generation_mismatch");
            reveal_strlit("manifest_not_found");
        }
        match self {
            ManifestStoreError::EmptyViewId => "invalid_view_id",
            ManifestStoreError::EmptyRoot => "invalid_view_root",
            ManifestStoreError::EmptyRequestId => "invalid_request_id",
            ManifestStoreError::InvalidPath { .. } => "invalid_manifest_path",
            ManifestStoreError::DuplicatePath { .. } => "duplicate_manifest_path",
            ManifestStoreError::InvalidEntry { .. } => "invalid_manifest_entry",
            ManifestStoreError::VersionNotFound { .. } => "file_version_not_found",
            ManifestStoreError::VersionIncomplete { .. } => "file_version_incomplete",
            ManifestStoreError::VersionPathMismatch { .. } => "file_version_path_mismatch",
            ManifestStoreError::VersionLanguageMismatch { .. } => "file_version_language_mismatch",
            ManifestStoreError::ObservedHashMismatch { .. } => "observed_content_hash_mismatch",
            ManifestStoreError::ViewNotFound { .. } => "view_not_found",
            ManifestStoreError::ViewRootMismatch { .. } => "view_root_mismatch",
            ManifestStoreError::GenerationOutOfRange { .. } => "manifest_generation_out_of_range",
            ManifestStoreError::GenerationMismatch { .. } => "manifest_generation_mismatch",
            ManifestStoreError::ManifestNotFound { .. } => "manifest_not_found",
            ManifestStoreError::Log(inner) => inner.code(),
        }
    }
}

/// Checks a view's identity: a non-empty id, then a non-empty root.
pub fn validate_view_identity(view_id: &str, root: &str) -> (r: Result<(), ManifestStoreError>)
    ensures
        view_id@.len() == 0 ==> r == Err::<(), ManifestStoreError>(ManifestStoreError::EmptyViewId),
        view_id@.len() > 0 && root@.len() == 0 ==> r == Err::<(), ManifestStoreError>(
            ManifestStoreError::EmptyRoot,
        ),
        view_id@.len() > 0 && root@.len() > 0 ==> r is Ok,
{
    if view_id.is_empty() {
        return Err(ManifestStoreError::EmptyViewId);
    }
    if root.is_empty() {
        return Err(ManifestStoreError::EmptyRoot);
    }
    Ok(())
}

/// Checks a view's recorded root against the expected one.
pub fn check_view_root(view_id: &str, expected: &str, found: &str) -> (r: Result<(), ManifestStoreError>)
    ensures
        r is Ok <==> found@ == expected@,
        r matches Err(e) ==> (e matches ManifestStoreError::ViewRootMismatch { view_id: v, expected: x, found: f }
            && v@ == view_id@ && x@ == expected@ && f@ == found@),
{
    if str_eq(found, expected) {
        Ok(())
    } else {
        Err(
            ManifestStoreError::ViewRootMismatch {
                view_id: owned(view_id),
                expected: owned(expected),
                found: owned(found),
            },
        )
    }
}

/// A manifest generation as SQLite stores it: refused past `i64::MAX`.
pub fn sqlite_generation(generation: u64) -> (r: Result<i64, ManifestStoreError>)
    ensures
        generation <= i64::MAX ==> r == Ok::<i64, ManifestStoreError>(generation as i64),
        generation > i64::MAX ==> r == Err::<i64, ManifestStoreError>(
            ManifestStoreError::GenerationOutOfRange { generation },
        ),
{
    if generation <= i64::MAX as u64 {
        Ok(generation as i64)
    } else {
        Err(ManifestStoreError::GenerationOutOfRange { generation })
    }
}

// ---------------------------------------------------------------------
// Canonical paths.

/// A path may be canonicalized: non-empty, not rooted at `/` or `\`, and
/// free of NUL and `:`.
pub open spec fn path_allowed(p: Seq<char>) -> bool {
    p.len() > 0 && p[0] != '/' && p[0] != '\\' && !p.contains('\0') && !p.contains(':')
}

/// The path with every backslash turned into a slash.
pub open spec fn slashed(p: Seq<char>) -> Seq<char> {
    p.map_values(|c: char| if c == '\\' { '/' } else { c })
}

/// The segments that name something: neither empty nor `.`.
pub open spec fn kept_segments(segs: Seq<Seq<char>>) -> Seq<Seq<char>>
    decreases segs.len(),
{
    if segs.len() == 0 {
        seq![]
    } else {
        let prev = kept_segments(segs.drop_last());
        if segs.last().len() == 0 || segs.last() == seq!['.'] {
            prev
        } else {
            prev.push(segs.last())
        }
    }
}

/// Segments joined by `/`.
pub open spec fn joined(segs: Seq<Seq<char>>) -> Seq<char>
    decreases segs.len(),
{
    if segs.len() == 0 {
        seq![]
    } else if segs.len() == 1 {
        segs[0]
    } else {
        joined(segs.drop_last()) + seq!['/'] + segs.last()
    }
}

/// The canonical form of a manifest path: slashes for backslashes, empty
/// and `.` segments dropped, joined by `/`; refused when the path is not
/// allowed, climbs with `..`, or names nothing.
pub open spec fn canonical_path_spec(p: Seq<char>) -> Option<Seq<char>> {
    if !path_allowed(p) {
        None
    } else {
        let segs = split_spec(slashed(p), '/');
        if segs.contains(seq!['.', '.']) {
            None
        } else if kept_segments(segs).len() == 0 {
            None
        } else {
            Some(joined(kept_segments(segs)))
        }
    }
}

fn contains_char(cs: &Vec<char>, c: char) -> (r: bool)
    ensures
        r == cs@.contains(c),
{
    let mut i: usize = 0;
    while i < cs.len()
        invariant
            i <= cs@.len(),
            forall|k: int| 0 <= k < i ==> cs@[k] != c,
        decreases cs@.len() - i,
    {
        if cs[i] == c {
            assert(cs@[i as int] == c);
            return true;
        }
        i = i + 1;
    }
    false
}

/// The canonical form of a manifest path.
pub fn canonical_path(path: &str) -> (r: Result<String, ManifestStoreError>)
    ensures
        match canonical_path_spec(path@) {
            Some(c) => r matches Ok(s) && s@ == c,
            None => r matches Err(e) && (e matches ManifestStoreError::InvalidPath { path: p } && p@ == path@),
        },
{
    let cs = chars_of(path);
    if cs.len() == 0 || cs[0] == '/' || cs[0] == '\\' || contains_char(&cs, '\0') || contains_char(&cs, ':') {
        return Err(ManifestStoreError::InvalidPath { path: owned(path) });
    }
    let mut slashed_chars: Vec<char> = Vec::new();
    let mut i: usize = 0;
    while i < cs.len()
        invariant
            i <= cs@.len(),
            slashed_chars@ == slashed(cs@.take(i as int)),
        decreases cs@.len() - i,
    {
        let c = cs[i];
        slashed_chars.push(if c == '\\' { '/' } else { c });
        assert(slashed(cs@.take(i + 1)) =~= slashed(cs@.take(i as int)).push(if c == '\\' { '/' } else { c }));
        i = i + 1;
    }
    assert(cs@.take(i as int) =~= cs@);
    let segs = split_chars(slashed_chars.as_slice(), '/');
    let ghost spec_segs = split_spec(slashed(path@), '/');
    let mut out: Vec<char> = Vec::new();
    let mut count: usize = 0;
    let mut j: usize = 0;
    while j < segs.len()
        invariant
            j <= segs@.len(),
            pieces_match(segs@, spec_segs),
            spec_segs == split_spec(slashed(path@), '/'),
            count <= j,
            count == kept_segments(spec_segs.take(j as int)).len(),
            out@ == joined(kept_segments(spec_segs.take(j as int))),
            forall|k: int| 0 <= k < j ==> spec_segs[k] != seq!['.', '.'],
        decreases segs@.len() - j,
    {
        let seg = &segs[j];
        assert(seg@ == spec_segs[j as int]);
        assert(spec_segs.take(j + 1).drop_last() =~= spec_segs.take(j as int));
        if seg.len() == 2 && seg[0] == '.' && seg[1] == '.' {
            assert(seg@ =~= seq!['.', '.']);
            assert(spec_segs.contains(seq!['.', '.']));
            return Err(ManifestStoreError::InvalidPath { path: owned(path) });
        }
        assert(seg@ != seq!['.', '.']);
        let dot = seg.len() == 1 && seg[0] == '.';
        if seg.len() == 0 || dot {
            proof {
                if dot {
                    assert(seg@ =~= seq!['.']);
                }
            }
        } else {
            proof {
                assert(seg@ != seq!['.']);
            }
            let ghost before = out@;
            if count > 0 {
                out.push('/');
            }
            let mut k: usize = 0;
            while k < seg.len()
                invariant
                    k <= seg@.len(),
                    out@ == (if count > 0 { before.push('/') } else { before }) + seg@.take(k as int),
                decreases seg@.len() - k,
            {
                out.push(seg[k]);
                assert(out@ =~= (if count > 0 { before.push('/') } else { before }) + seg@.take(k + 1));
                k = k + 1;
            }
            assert(seg@.take(k as int) =~= seg@);
            proof {
                let kept = kept_segments(spec_segs.take(j + 1));
                assert(kept == kept_segments(spec_segs.take(j as int)).push(seg@));
                if count == 0 {
                    assert(kept.len() == 1);
                    assert(kept.drop_last() =~= kept_segments(spec_segs.take(j as int)));
                    assert(kept[0] == seg@);
                    assert(out@ =~= joined(kept));
                } else {
                    assert(kept.drop_last() =~= kept_segments(spec_segs.take(j as int)));
                    assert(out@ =~= joined(kept.drop_last()) + seq!['/'] + seg@);
                }
            }
            count = count + 1;
        }
        j = j + 1;
    }
    assert(spec_segs.take(j as int) =~= spec_segs);
    proof {
        if spec_segs.contains(seq!['.', '.']) {
            let w = choose|w: int| 0 <= w < spec_segs.len() && spec_segs[w] == seq!['.', '.'];
            assert(spec_segs[w] != seq!['.', '.']);
        }
    }
    if count == 0 {
        return Err(ManifestStoreError::InvalidPath { path: owned(path) });
    }
    Ok(string_of(out.as_slice()))
}


// ---------------------------------------------------------------------
// Canonical paths are fixed points.

/// A segment that survives canonicalization and frames nothing else: it
/// names something, is not `.` or `..`, and holds no separator,
/// backslash, NUL or colon.
pub open spec fn plain_segment(seg: Seq<char>) -> bool {
    &&& seg.len() > 0
    &&& seg != seq!['.']
    &&& seg != seq!['.', '.']
    &&& !seg.contains('/')
    &&& !seg.contains('\\')
    &&& !seg.contains('\0')
    &&& !seg.contains(':')
}

/// Appending characters other than the separator extends the last piece.
proof fn lemma_split_extend(a: Seq<char>, y: Seq<char>, c: char)
    requires
        !y.contains(c),
    ensures
        split_spec(a + y, c) == split_spec(a, c).update(
            split_spec(a, c).len() - 1,
            split_spec(a, c).last() + y,
        ),
    decreases y.len(),
{
    lemma_split_nonempty(a, c);
    let sa = split_spec(a, c);
    if y.len() == 0 {
        assert(a + y =~= a);
        assert(sa.last() + y =~= sa.last());
        assert(sa.update(sa.len() - 1, sa.last()) =~= sa);
    } else {
        let y1 = y.drop_last();
        assert(!y1.contains(c)) by {
            if y1.contains(c) {
                let k = choose|k: int| 0 <= k < y1.len() && y1[k] == c;
                assert(y[k] == c);
            }
        }
        lemma_split_extend(a, y1, c);
        assert((a + y).drop_last() =~= a + y1);
        assert((a + y).last() == y.last());
        assert(y.last() != c) by {
            if y.last() == c {
                assert(y[y.len() - 1] == c);
            }
        }
        let prev = split_spec(a + y1, c);
        assert(split_spec(a + y, c) == prev.update(prev.len() - 1, prev.last().push(y.last())));
        assert((sa.last() + y1).push(y.last()) =~= sa.last() + y);
        assert(prev.update(prev.len() - 1, prev.last().push(y.last())) =~= sa.update(
            sa.len() - 1,
            sa.last() + y,
        ));
    }
}

/// Splitting segments joined by `/` gives the segments back, when none
/// holds a `/`.
proof fn lemma_split_joined(segs: Seq<Seq<char>>)
    requires
        segs.len() >= 1,
        forall|i: int| 0 <= i < segs.len() ==> !(#[trigger] segs[i]).contains('/'),
    ensures
        split_spec(joined(segs), '/') == segs,
    decreases segs.len(),
{
    if segs.len() == 1 {
        let none = Seq::<char>::empty();
        lemma_split_extend(none, segs[0], '/');
        assert(none + segs[0] =~= segs[0]);
        assert(split_spec(none, '/') == seq![none]);
        assert(seq![none].update(0, none + segs[0]) =~= segs);
    } else {
        let front = segs.drop_last();
        assert forall|i: int| 0 <= i < front.len() implies !(#[trigger] front[i]).contains('/') by {
            assert(front[i] == segs[i]);
        }
        lemma_split_joined(front);
        let x = joined(front) + seq!['/'];
        assert(x.drop_last() =~= joined(front));
        assert(x.last() == '/');
        assert(split_spec(x, '/') == front.push(Seq::<char>::empty()));
        assert(!segs.last().contains('/')) by {
            assert(segs.last() == segs[segs.len() - 1]);
        }
        lemma_split_extend(x, segs.last(), '/');
        assert(joined(segs) == x + segs.last());
        assert(front.push(Seq::<char>::empty()).update(front.len() as int, Seq::<char>::empty() + segs.last())
            =~= segs);
    }
}

/// Every piece of a split holds only characters of the text, and no
/// separator.
proof fn lemma_split_pieces(s: Seq<char>, c: char, i: int, x: char)
    requires
        0 <= i < split_spec(s, c).len(),
        split_spec(s, c)[i].contains(x),
    ensures
        x != c,
        s.contains(x),
    decreases s.len(),
{
    if s.len() == 0 {
        assert(split_spec(s, c) == seq![Seq::<char>::empty()]);
        assert(split_spec(s, c)[i].len() == 0);
    } else {
        let s1 = s.drop_last();
        lemma_split_nonempty(s1, c);
        let prev = split_spec(s1, c);
        let piece = split_spec(s, c)[i];
        let k = choose|k: int| 0 <= k < piece.len() && piece[k] == x;
        if s.last() == c {
            assert(split_spec(s, c) == prev.push(seq![]));
            if i < prev.len() {
                assert(piece == prev[i]);
                lemma_split_pieces(s1, c, i, x);
                let w = choose|w: int| 0 <= w < s1.len() && s1[w] == x;
                assert(s[w] == x);
            } else {
                assert(piece.len() == 0);
            }
        } else {
            assert(split_spec(s, c) == prev.update(prev.len() - 1, prev.last().push(s.last())));
            if i < prev.len() - 1 {
                assert(piece == prev[i]);
                lemma_split_pieces(s1, c, i, x);
                let w = choose|w: int| 0 <= w < s1.len() && s1[w] == x;
                assert(s[w] == x);
            } else {
                assert(piece == prev.last().push(s.last()));
                if k < prev.last().len() {
                    assert(prev[prev.len() - 1][k] == x);
                    lemma_split_pieces(s1, c, prev.len() - 1, x);
                    let w = choose|w: int| 0 <= w < s1.len() && s1[w] == x;
                    assert(s[w] == x);
                } else {
                    assert(x == s.last());
                    assert(s[s.len() - 1] == x);
                }
            }
        }
    }
}

/// The kept segments are segments of the split that name something.
proof fn lemma_kept_from(segs: Seq<Seq<char>>, i: int)
    requires
        0 <= i < kept_segments(segs).len(),
    ensures
        segs.contains(kept_segments(segs)[i]),
        kept_segments(segs)[i].len() > 0,
        kept_segments(segs)[i] != seq!['.'],
    decreases segs.len(),
{
    let front = segs.drop_last();
    let prev = kept_segments(front);
    if segs.last().len() == 0 || segs.last() == seq!['.'] {
        lemma_kept_from(front, i);
        let w = choose|w: int| 0 <= w < front.len() && front[w] == prev[i];
        assert(segs[w] == front[w]);
    } else if i < prev.len() {
        lemma_kept_from(front, i);
        let w = choose|w: int| 0 <= w < front.len() && front[w] == prev[i];
        assert(segs[w] == front[w]);
    } else {
        assert(kept_segments(segs)[i] == segs.last());
        assert(segs[segs.len() - 1] == segs.last());
    }
}

/// Segments that all name something are kept as they are.
proof fn lemma_kept_plain(segs: Seq<Seq<char>>)
    requires
        forall|i: int| 0 <= i < segs.len() ==> plain_segment(#[trigger] segs[i]),
    ensures
        kept_segments(segs) == segs,
    decreases segs.len(),
{
    if segs.len() > 0 {
        let front = segs.drop_last();
        assert forall|i: int| 0 <= i < front.len() implies plain_segment(#[trigger] front[i]) by {
            assert(front[i] == segs[i]);
        }
        lemma_kept_plain(front);
        assert(plain_segment(segs[segs.len() - 1]));
        assert(front.push(segs.last()) =~= segs);
    }
}

/// Joining segments that avoid a character other than `/` avoids it.
proof fn lemma_joined_avoids(segs: Seq<Seq<char>>, d: char)
    requires
        d != '/',
        forall|i: int| 0 <= i < segs.len() ==> !(#[trigger] segs[i]).contains(d),
    ensures
        !joined(segs).contains(d),
    decreases segs.len(),
{
    if segs.len() == 1 {
        assert(!segs[0].contains(d));
    } else if segs.len() > 1 {
        let front = segs.drop_last();
        assert forall|i: int| 0 <= i < front.len() implies !(#[trigger] front[i]).contains(d) by {
            assert(front[i] == segs[i]);
        }
        lemma_joined_avoids(front, d);
        let j = joined(segs);
        let jf = joined(front);
        let last = segs.last();
        assert(!last.contains(d)) by {
            assert(last == segs[segs.len() - 1]);
        }
        if j.contains(d) {
            let k = choose|k: int| 0 <= k < j.len() && j[k] == d;
            if k < jf.len() {
                assert(jf[k] == d);
            } else if k == jf.len() {
                assert(j[k] == '/');
            } else {
                assert(last[k - jf.len() - 1] == d);
            }
        }
    }
}

/// Joined segments begin with the first segment.
proof fn lemma_joined_starts(segs: Seq<Seq<char>>)
    requires
        segs.len() >= 1,
    ensures
        joined(segs).len() >= segs[0].len(),
        forall|k: int| 0 <= k < segs[0].len() ==> joined(segs)[k] == segs[0][k],
    decreases segs.len(),
{
    if segs.len() > 1 {
        let front = segs.drop_last();
        lemma_joined_starts(front);
        assert(front[0] == segs[0]);
    }
}

/// Law: a canonical path is its own canonical form, so canonicalizing
/// twice changes nothing.
pub proof fn lemma_canonical_path_is_fixed(p: Seq<char>)
    requires
        canonical_path_spec(p) is Some,
    ensures
        canonical_path_spec(canonical_path_spec(p).unwrap()) == canonical_path_spec(p),
{
    let s = slashed(p);
    let segs = split_spec(s, '/');
    let kept = kept_segments(segs);
    let q = joined(kept);
    assert(canonical_path_spec(p) == Some(q));
    // The slashed text holds no backslash, NUL or colon.
    assert forall|x: char| s.contains(x) implies x != '\\' && x != '\0' && x != ':' by {
        let k = choose|k: int| 0 <= k < s.len() && s[k] == x;
        if x == '\0' || x == ':' {
            assert(p[k] == x);
        }
    }
    // Every kept segment is plain.
    assert forall|i: int| 0 <= i < kept.len() implies plain_segment(#[trigger] kept[i]) by {
        lemma_kept_from(segs, i);
        let w = choose|w: int| 0 <= w < segs.len() && segs[w] == kept[i];
        assert(segs[w] != seq!['.', '.']);
        assert forall|x: char| kept[i].contains(x) implies x != '/' && x != '\\' && x != '\0' && x != ':' by {
            lemma_split_pieces(s, '/', w, x);
        }
    }
    assert forall|i: int| 0 <= i < kept.len() implies !(#[trigger] kept[i]).contains('/') by {
        assert(plain_segment(kept[i]));
    }
    lemma_split_joined(kept);
    lemma_kept_plain(kept);
    assert forall|i: int| 0 <= i < kept.len() implies !(#[trigger] kept[i]).contains('\\') by {
        assert(plain_segment(kept[i]));
    }
    lemma_joined_avoids(kept, '\\');
    assert forall|i: int| 0 <= i < kept.len() implies !(#[trigger] kept[i]).contains('\0') by {
        assert(plain_segment(kept[i]));
    }
    lemma_joined_avoids(kept, '\0');
    assert forall|i: int| 0 <= i < kept.len() implies !(#[trigger] kept[i]).contains(':') by {
        assert(plain_segment(kept[i]));
    }
    lemma_joined_avoids(kept, ':');
    lemma_joined_starts(kept);
    assert(plain_segment(kept[0]));
    assert(q[0] == kept[0][0]);
    assert(kept[0].contains(q[0]));
    assert(path_allowed(q));
    assert(slashed(q) =~= q) by {
        assert forall|k: int| 0 <= k < q.len() implies slashed(q)[k] == q[k] by {
            if q[k] == '\\' {
                assert(q.contains('\\'));
            }
        }
    }
    assert(!kept.contains(seq!['.', '.'])) by {
        if kept.contains(seq!['.', '.']) {
            let w = choose|w: int| 0 <= w < kept.len() && kept[w] == seq!['.', '.'];
            assert(plain_segment(kept[w]));
        }
    }
}


/// Law: each entry status has its own stored spelling, so a stored
/// status reads back as the status that wrote it.
pub proof fn lemma_status_text_round_trip(a: ManifestEntryStatus, b: ManifestEntryStatus)
    ensures
        status_text(a) == status_text(b) ==> a == b,
{
    reveal_strlit("indexed");
    reveal_strlit("failed_preserved");
    reveal_strlit("failed");
    assert("indexed"@.len() == 7);
    assert("failed_preserved"@.len() == 16);
    assert("failed"@.len() == 6);
}

} // verus!

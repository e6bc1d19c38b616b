//! The JSONL snapshot export: its record kinds, the tally of written
//! records, the metadata an export requires, how stored JSON columns are
//! checked and compacted.

use vstd::prelude::*;

use crate::json::{json_shape, json_shape_of, JsonShape};
use crate::text::{chars_of, owned, parse_i64, parse_i64_spec, push_char, str_eq, str_less, text_lt};

verus! {

/// The version of the JSONL record format.
pub const JSONL_SCHEMA_VERSION: i64 = 4;

/// The record kinds, in the order an export writes them.
pub open spec fn record_kinds() -> Seq<Seq<char>> {
    seq![
        "artifact"@,
        "parser_inventory"@,
        "language_capability"@,
        "language_capability_fixture"@,
        "language_capability_gap"@,
        "revision"@,
        "revision_file_change"@,
        "file"@,
        "symbol"@,
        "symbol_annotation"@,
        "reference_site"@,
        "identifier"@,
        "relationship"@,
        "pending_relationship"@,
        "type_fact"@,
        "type_argument_usage"@,
        "type_argument"@,
        "literal"@,
        "source_region"@,
        "complexity_metric"@,
        "structural_fact"@,
        "parse_diagnostic"@,
    ]
}

/// The record kinds, in the order an export writes them.
pub fn jsonl_record_kinds() -> (r: Vec<&'static str>)
    ensures
        r@.map_values(|k: &'static str| k@) == record_kinds(),
{
    let v = vec![
        "artifact",
        "parser_inventory",
        "language_capability",
        "language_capability_fixture",
        "language_capability_gap",
        "revision",
        "revision_file_change",
        "file",
        "symbol",
        "symbol_annotation",
        "reference_site",
        "identifier",
        "relationship",
        "pending_relationship",
        "type_fact",
        "type_argument_usage",
        "type_argument",
        "literal",
        "source_region",
        "complexity_metric",
        "structural_fact",
        "parse_diagnostic",
    ];
    assert(v@.map_values(|k: &'static str| k@) =~= record_kinds());
    v
}

/// A failed export: a stored JSON column that does not parse or has the
/// wrong shape, or artifact metadata that is missing or invalid.
#[derive(Debug, Clone, PartialEq, Eq)]
pub enum JsonlExportError {
    Json { column: &'static str },
    InvalidJsonShape { column: &'static str, expected: &'static str },
    MissingMetadata { key: &'static str },
    InvalidMetadata { key: &'static str, value: String },
}

// ---------------------------------------------------------------------
// The tally of written records.

/// How many records an export wrote, in all and by kind (kinds ascending).
#[derive(Debug, Clone, PartialEq, Eq, Default)]
pub struct JsonlExportSummary {
    pub total_records: usize,
    pub records_by_kind: Vec<(String, usize)>,
}

/// The kinds strictly ascend.
pub open spec fn kinds_ascend(v: Seq<(String, usize)>) -> bool {
    forall|i: int, j: int| 0 <= i < j < v.len() ==> text_lt(#[trigger] v[i].0@, #[trigger] v[j].0@)
}

/// The tally `after` is `before` with one more record of `kind`: its
/// entry counts one more, or a new entry with one record stands where the
/// kind sorts.
pub open spec fn counted_once(before: Seq<(String, usize)>, after: Seq<(String, usize)>, kind: Seq<char>) -> bool {
    ||| exists|j: int|
        0 <= j < before.len() && before[j].0@ == kind && after.len() == before.len() && after[j].0@ == kind
            && after[j].1 == before[j].1 + 1 && forall|k: int|
            0 <= k < before.len() && k != j ==> #[trigger] after[k] == before[k]
    ||| (forall|k: int| 0 <= k < before.len() ==> (#[trigger] before[k]).0@ != kind) && exists|j: int|
        0 <= j <= before.len() && after.len() == before.len() + 1 && after[j].0@ == kind && after[j].1
            == 1 && (forall|k: int| 0 <= k < j ==> #[trigger] after[k] == before[k]) && (forall|k: int|
            j < k < after.len() ==> #[trigger] after[k] == before[k - 1])
}

impl JsonlExportSummary {
    pub fn new() -> (r: Self)
        ensures
            r.total_records == 0,
            r.records_by_kind@.len() == 0,
    {
        JsonlExportSummary { total_records: 0, records_by_kind: Vec::new() }
    }

    /// Counts one written record of `kind`.
    pub fn record_written(&mut self, kind: &str)
        requires
            kinds_ascend(old(self).records_by_kind@),
            old(self).total_records < usize::MAX,
            forall|k: int|
                0 <= k < old(self).records_by_kind@.len() && (#[trigger] old(
                    self,
                ).records_by_kind@[k]).0@ == kind@ ==> old(self).records_by_kind@[k].1 < usize::MAX,
        ensures
            final(self).total_records == old(self).total_records + 1,
            kinds_ascend(final(self).records_by_kind@),
            counted_once(old(self).records_by_kind@, final(self).records_by_kind@, kind@),
    {
        self.total_records = self.total_records + 1;
        let ghost before = self.records_by_kind@;
        let mut i: usize = 0;
        while i < self.records_by_kind.len() && str_less(self.records_by_kind[i].0.as_str(), kind)
            invariant
                i <= self.records_by_kind@.len(),
                self.records_by_kind@ == before,
                kinds_ascend(before),
                forall|k: int| 0 <= k < i ==> text_lt(#[trigger] before[k].0@, kind@),
            decreases self.records_by_kind@.len() - i,
        {
            i = i + 1;
        }
        if i < self.records_by_kind.len() && str_eq(self.records_by_kind[i].0.as_str(), kind) {
            let count = self.records_by_kind[i].1;
            let name = owned(self.records_by_kind[i].0.as_str());
            self.records_by_kind.set(i, (name, count + 1));
            proof {
                let after = self.records_by_kind@;
                assert forall|a: int, b: int| 0 <= a < b < after.len() implies text_lt(
                    #[trigger] after[a].0@,
                    #[trigger] after[b].0@,
                ) by {
                    assert(after[a].0@ == before[a].0@);
                    assert(after[b].0@ == before[b].0@);
                }
                assert forall|k: int| 0 <= k < before.len() && k != i implies #[trigger] after[k]
                    == before[k] by {}
                let j = i as int;
                assert(0 <= j < before.len() && before[j].0@ == kind@ && after.len() == before.len()
                    && after[j].0@ == kind@ && after[j].1 == before[j].1 + 1);
                assert(counted_once(before, after, kind@));
            }
            return;
        }
        proof {
            if i < before.len() {
                crate::text::lemma_text_lt_order(kind@, before[i as int].0@, kind@);
                assert(text_lt(kind@, before[i as int].0@));
            }
            assert forall|k: int| 0 <= k < before.len() implies (#[trigger] before[k]).0@ != kind@ by {
                if k < i {
                    crate::text::lemma_text_lt_order(before[k].0@, kind@, kind@);
                } else if k > i {
                    crate::text::lemma_text_lt_order(kind@, before[i as int].0@, before[k].0@);
                    crate::text::lemma_text_lt_order(before[k].0@, before[k].0@, before[k].0@);
                } else {
                    crate::text::lemma_text_lt_order(kind@, before[k].0@, before[k].0@);
                }
            }
        }
        self.records_by_kind.insert(i, (owned(kind), 1));
        proof {
            let after = self.records_by_kind@;
            assert forall|a: int, b: int| 0 <= a < b < after.len() implies text_lt(
                #[trigger] after[a].0@,
                #[trigger] after[b].0@,
            ) by {
                if b < i {
                } else if b == i {
                } else if a < i {
                    crate::text::lemma_text_lt_order(before[a].0@, kind@, before[b - 1].0@);
                    if b - 1 > i {
                        crate::text::lemma_text_lt_order(kind@, before[i as int].0@, before[b - 1].0@);
                    }
                } else if a == i {
                    if b - 1 > i {
                        crate::text::lemma_text_lt_order(kind@, before[i as int].0@, before[b - 1].0@);
                    }
                } else {
                }
            }
            let j = i as int;
            assert(after.len() == before.len() + 1 && after[j].0@ == kind@ && after[j].1 == 1);
            assert forall|k: int| 0 <= k < j implies #[trigger] after[k] == before[k] by {}
            assert forall|k: int| j < k < after.len() implies #[trigger] after[k] == before[k - 1] by {}
            assert(counted_once(before, after, kind@));
        }
    }
}

// ---------------------------------------------------------------------
// Artifact metadata.

/// The value the first row with `key` holds.
pub open spec fn lookup(rows: Seq<(String, String)>, key: Seq<char>, i: int) -> Option<int>
    decreases rows.len() - i,
{
    if i < 0 || i >= rows.len() {
        None
    } else if rows[i].0@ == key {
        Some(i)
    } else {
        lookup(rows, key, i + 1)
    }
}

/// The value recorded under `key`, if any.
pub open spec fn metadata_text(rows: Seq<(String, String)>, key: Seq<char>) -> Option<Seq<char>> {
    match lookup(rows, key, 0) {
        Some(i) => Some(rows[i].1@),
        None => None,
    }
}

proof fn lemma_lookup_skip(rows: Seq<(String, String)>, key: Seq<char>, i: int, j: int)
    requires
        0 <= i <= j <= rows.len(),
        forall|k: int| i <= k < j ==> (#[trigger] rows[k]).0@ != key,
    ensures
        lookup(rows, key, i) == lookup(rows, key, j),
    decreases j - i,
{
    if i < j {
        lemma_lookup_skip(rows, key, i + 1, j);
    }
}

/// The value recorded under `key` in the metadata rows.
pub fn metadata_value<'a>(rows: &'a Vec<(String, String)>, key: &str) -> (r: Option<&'a str>)
    ensures
        match r {
            Some(v) => metadata_text(rows@, key@) == Some(v@),
            None => metadata_text(rows@, key@) is None,
        },
{
    let mut i: usize = 0;
    while i < rows.len()
        invariant
            i <= rows@.len(),
            forall|k: int| 0 <= k < i ==> (#[trigger] rows@[k]).0@ != key@,
        decreases rows@.len() - i,
    {
        if str_eq(rows[i].0.as_str(), key) {
            proof {
                lemma_lookup_skip(rows@, key@, 0, i as int);
            }
            return Some(rows[i].1.as_str());
        }
        i = i + 1;
    }
    proof {
        lemma_lookup_skip(rows@, key@, 0, rows@.len() as int);
    }
    None
}

/// The first required key (from `i` on) the rows lack.
pub open spec fn first_missing(rows: Seq<(String, String)>, required: Seq<Seq<char>>, i: int) -> Option<int>
    decreases required.len() - i,
{
    if i < 0 || i >= required.len() {
        None
    } else if metadata_text(rows, required[i]) is None {
        Some(i)
    } else {
        first_missing(rows, required, i + 1)
    }
}

proof fn lemma_first_missing_skip(rows: Seq<(String, String)>, required: Seq<Seq<char>>, i: int, j: int)
    requires
        0 <= i <= j <= required.len(),
        forall|k: int| i <= k < j ==> metadata_text(rows, #[trigger] required[k]) is Some,
    ensures
        first_missing(rows, required, i) == first_missing(rows, required, j),
    decreases j - i,
{
    if i < j {
        lemma_first_missing_skip(rows, required, i + 1, j);
    }
}

/// The metadata holds every required key; the first one missing is
/// reported.
pub fn check_required_metadata(rows: &Vec<(String, String)>) -> (r: Result<(), JsonlExportError>)
    ensures
        match first_missing(rows@, crate::metadata::required_keys(), 0) {
            None => r is Ok,
            Some(i) => r matches Err(JsonlExportError::MissingMetadata { key }) && key@
                == crate::metadata::required_keys()[i],
        },
{
    let keys = crate::metadata::required_metadata_keys();
    let ghost req = crate::metadata::required_keys();
    let mut i: usize = 0;
    while i < keys.len()
        invariant
            i <= keys@.len(),
            keys@.map_values(|k: &'static str| k@) == req,
            req == crate::metadata::required_keys(),
            forall|k: int| 0 <= k < i ==> metadata_text(rows@, #[trigger] req[k]) is Some,
        decreases keys@.len() - i,
    {
        assert(req[i as int] == keys@[i as int]@);
        match metadata_value(rows, keys[i]) {
            None => {
                proof {
                    lemma_first_missing_skip(rows@, req, 0, i as int);
                }
                return Err(JsonlExportError::MissingMetadata { key: keys[i] });
            },
            Some(_) => {},
        }
        i = i + 1;
    }
    proof {
        lemma_first_missing_skip(rows@, req, 0, req.len() as int);
    }
    Ok(())
}

/// The value recorded under a required `key`.
pub fn required_metadata<'a>(rows: &'a Vec<(String, String)>, key: &'static str) -> (r: Result<
    &'a str,
    JsonlExportError,
>)
    ensures
        match metadata_text(rows@, key@) {
            Some(v) => r matches Ok(s) && s@ == v,
            None => r matches Err(JsonlExportError::MissingMetadata { key: k }) && k == key,
        },
{
    match metadata_value(rows, key) {
        Some(v) => Ok(v),
        None => Err(JsonlExportError::MissingMetadata { key }),
    }
}

/// The integer recorded under a required `key`: what the standard signed
/// parser accepts.
pub fn metadata_i64(rows: &Vec<(String, String)>, key: &'static str) -> (r: Result<i64, JsonlExportError>)
    ensures
        match metadata_text(rows@, key@) {
            None => r matches Err(JsonlExportError::MissingMetadata { key: k }) && k == key,
            Some(v) => match parse_i64_spec(v) {
                Some(n) => r == Ok::<i64, JsonlExportError>(n),
                None => r matches Err(JsonlExportError::InvalidMetadata { key: k, value }) && k == key
                    && value@ == v,
            },
        },
{
    let value = required_metadata(rows, key)?;
    let cs = chars_of(value);
    match parse_i64(cs.as_slice()) {
        Some(n) => Ok(n),
        None => Err(JsonlExportError::InvalidMetadata { key, value: owned(value) }),
    }
}

/// The integer recorded under an optional `key`; absent is `None`.
pub fn optional_metadata_i64(rows: &Vec<(String, String)>, key: &'static str) -> (r: Result<
    Option<i64>,
    JsonlExportError,
>)
    ensures
        match metadata_text(rows@, key@) {
            None => r == Ok::<Option<i64>, JsonlExportError>(None),
            Some(v) => match parse_i64_spec(v) {
                Some(n) => r == Ok::<Option<i64>, JsonlExportError>(Some(n)),
                None => r matches Err(JsonlExportError::InvalidMetadata { key: k, value }) && k == key
                    && value@ == v,
            },
        },
{
    match metadata_value(rows, key) {
        None => Ok(None),
        Some(value) => {
            let cs = chars_of(value);
            match parse_i64(cs.as_slice()) {
                Some(n) => Ok(Some(n)),
                None => Err(JsonlExportError::InvalidMetadata { key, value: owned(value) }),
            }
        },
    }
}

// ---------------------------------------------------------------------
// Stored JSON columns.

/// ASCII whitespace: space, tab, line feed, form feed, carriage return.
pub open spec fn ascii_space(c: char) -> bool {
    c == ' ' || c == '\t' || c == '\n' || c == '\x0C' || c == '\r'
}

/// One step of compaction: the text so far, whether inside a string, and
/// whether the last character inside a string was an unescaped
/// backslash.
pub open spec fn compact_step(st: (Seq<char>, bool, bool), c: char) -> (Seq<char>, bool, bool) {
    let (out, in_string, escaped) = st;
    if in_string {
        if escaped {
            (out.push(c), true, false)
        } else if c == '\\' {
            (out.push(c), true, true)
        } else if c == '"' {
            (out.push(c), false, false)
        } else {
            (out.push(c), true, false)
        }
    } else if c == '"' {
        (out.push(c), true, escaped)
    } else if !ascii_space(c) {
        (out.push(c), false, escaped)
    } else {
        (out, false, escaped)
    }
}

/// Compaction of `s`: every character is kept except ASCII whitespace
/// outside strings.
pub open spec fn compact_run(s: Seq<char>) -> (Seq<char>, bool, bool)
    decreases s.len(),
{
    if s.len() == 0 {
        (seq![], false, false)
    } else {
        compact_step(compact_run(s.drop_last()), s.last())
    }
}

/// A JSON text without the whitespace outside its strings.
pub fn compact_json_text(value: &str) -> (r: String)
    ensures
        r@ == compact_run(value@).0,
{
    let cs = chars_of(value);
    let mut out = String::new();
    let mut in_string = false;
    let mut escaped = false;
    let mut i: usize = 0;
    while i < cs.len()
        invariant
            i <= cs@.len(),
            cs@ == value@,
            (out@, in_string, escaped) == compact_run(cs@.take(i as int)),
        decreases cs@.len() - i,
    {
        let c = cs[i];
        assert(cs@.take(i + 1).drop_last() =~= cs@.take(i as int));
        assert(cs@.take(i + 1).last() == c);
        if in_string {
            push_char(&mut out, c);
            if escaped {
                escaped = false;
            } else if c == '\\' {
                escaped = true;
            } else if c == '"' {
                in_string = false;
            }
        } else if c == '"' {
            in_string = true;
            push_char(&mut out, c);
        } else if !(c == ' ' || c == '\t' || c == '\n' || c == '\x0C' || c == '\r') {
            push_char(&mut out, c);
        }
        i = i + 1;
    }
    assert(cs@.take(cs@.len() as int) =~= cs@);
    out
}

/// What a stored JSON column must be: a parsable document whose top level
/// has the expected shape.
pub open spec fn shape_outcome(column: &'static str, text: Seq<char>, want: JsonShape, expected: &'static str, r: Result<(), JsonlExportError>) -> bool {
    if json_shape_of(text) == JsonShape::Invalid {
        r == Err::<(), JsonlExportError>(JsonlExportError::Json { column })
    } else if json_shape_of(text) == want {
        r is Ok
    } else {
        r == Err::<(), JsonlExportError>(JsonlExportError::InvalidJsonShape { column, expected })
    }
}

/// A stored JSON object column is valid.
pub fn require_object(column: &'static str, value: &str) -> (r: Result<(), JsonlExportError>)
    ensures
        shape_outcome(column, value@, JsonShape::Object, "object", r),
{
    match json_shape(value) {
        JsonShape::Invalid => Err(JsonlExportError::Json { column }),
        JsonShape::Object => Ok(()),
        _ => Err(JsonlExportError::InvalidJsonShape { column, expected: "object" }),
    }
}

/// A stored JSON array column is valid.
pub fn require_array(column: &'static str, value: &str) -> (r: Result<(), JsonlExportError>)
    ensures
        shape_outcome(column, value@, JsonShape::Array, "array", r),
{
    match json_shape(value) {
        JsonShape::Invalid => Err(JsonlExportError::Json { column }),
        JsonShape::Array => Ok(()),
        _ => Err(JsonlExportError::InvalidJsonShape { column, expected: "array" }),
    }
}

/// An optional stored object, checked and compacted for writing as raw
/// JSON.
pub fn optional_raw_object(column: &'static str, value: Option<&str>) -> (r: Result<
    Option<String>,
    JsonlExportError,
>)
    ensures
        match value {
            None => r == Ok::<Option<String>, JsonlExportError>(None),
            Some(v) => {
                let checked = if json_shape_of(v@) == JsonShape::Invalid {
                    Err::<(), JsonlExportError>(JsonlExportError::Json { column })
                } else if json_shape_of(v@) == JsonShape::Object {
                    Ok::<(), JsonlExportError>(())
                } else {
                    Err::<(), JsonlExportError>(
                        JsonlExportError::InvalidJsonShape { column, expected: "object" },
                    )
                };
                match checked {
                    Ok(_) => r matches Ok(Some(s)) && s@ == compact_run(v@).0,
                    Err(e) => r == Err::<Option<String>, JsonlExportError>(e),
                }
            },
        },
{
    match value {
        None => Ok(None),
        Some(v) => {
            require_object(column, v)?;
            Ok(Some(compact_json_text(v)))
        },
    }
}

/// The records counted by the first `n` kinds.
pub open spec fn tally(v: Seq<(String, usize)>, n: int) -> int
    decreases n,
{
    if n <= 0 || n > v.len() {
        0
    } else {
        tally(v, n - 1) + v[n - 1].1
    }
}

proof fn lemma_tally_update(before: Seq<(String, usize)>, after: Seq<(String, usize)>, j: int, n: int)
    requires
        0 <= j < before.len(),
        after.len() == before.len(),
        after[j].1 == before[j].1 + 1,
        forall|k: int| 0 <= k < before.len() && k != j ==> #[trigger] after[k] == before[k],
        0 <= n <= before.len(),
    ensures
        tally(after, n) == tally(before, n) + if n > j { 1int } else { 0int },
    decreases n,
{
    if n > 0 {
        lemma_tally_update(before, after, j, n - 1);
    }
}

proof fn lemma_tally_insert(before: Seq<(String, usize)>, after: Seq<(String, usize)>, j: int, n: int)
    requires
        0 <= j <= before.len(),
        after.len() == before.len() + 1,
        after[j].1 == 1,
        forall|k: int| 0 <= k < j ==> #[trigger] after[k] == before[k],
        forall|k: int| j < k < after.len() ==> #[trigger] after[k] == before[k - 1],
        0 <= n <= after.len(),
    ensures
        tally(after, n) == if n > j { tally(before, n - 1) + 1 } else { tally(before, n) },
    decreases n,
{
    if n > 0 {
        lemma_tally_insert(before, after, j, n - 1);
    }
}

/// Law: counting one record adds exactly one to the records counted by
/// kind, as it does to the total; a summary whose total equals its tally
/// keeps it so.
pub proof fn lemma_counted_once_tally(before: Seq<(String, usize)>, after: Seq<(String, usize)>, kind: Seq<char>)
    requires
        counted_once(before, after, kind),
    ensures
        tally(after, after.len() as int) == tally(before, before.len() as int) + 1,
{
    if exists|j: int|
        0 <= j < before.len() && before[j].0@ == kind && after.len() == before.len() && after[j].0@ == kind
            && after[j].1 == before[j].1 + 1 && forall|k: int|
            0 <= k < before.len() && k != j ==> #[trigger] after[k] == before[k] {
        let j = choose|j: int|
            0 <= j < before.len() && before[j].0@ == kind && after.len() == before.len() && after[j].0@ == kind
                && after[j].1 == before[j].1 + 1 && forall|k: int|
                0 <= k < before.len() && k != j ==> #[trigger] after[k] == before[k];
        lemma_tally_update(before, after, j, before.len() as int);
    } else {
        let j = choose|j: int|
            0 <= j <= before.len() && after.len() == before.len() + 1 && after[j].0@ == kind && after[j].1
                == 1 && (forall|k: int| 0 <= k < j ==> #[trigger] after[k] == before[k]) && (forall|k: int|
                j < k < after.len() ==> #[trigger] after[k] == before[k - 1]);
        lemma_tally_insert(before, after, j, after.len() as int);
    }
}

} // verus!

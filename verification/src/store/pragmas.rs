//! The SQLite settings a store connection must carry, and the checks of
//! what SQLite reports back.

use vstd::prelude::*;

use crate::text::{chars_of, owned};

verus! {

/// A pragma that SQLite reported with another value than required.
#[derive(Debug, Clone, PartialEq, Eq)]
pub enum PragmaError {
    IntegerMismatch { pragma: &'static str, expected: i64, found: i64 },
    TextMismatch { pragma: &'static str, expected: &'static str, found: String },
}

/// How a writer connection checkpoints its write-ahead log.
#[derive(Debug, Clone, Copy, PartialEq, Eq, Structural)]
pub enum WriterPragmaProfile {
    Routine,
    Bulk,
}

impl WriterPragmaProfile {
    /// Pages between automatic checkpoints: a thousand for routine
    /// writes, eight thousand for bulk imports.
    pub fn wal_autocheckpoint(self) -> (r: i64)
        ensures
            r == match self {
                WriterPragmaProfile::Routine => 1_000i64,
                WriterPragmaProfile::Bulk => 8_000i64,
            },
    {
        match self {
            WriterPragmaProfile::Routine => 1_000,
            WriterPragmaProfile::Bulk => 8_000,
        }
    }
}

/// The integer pragmas every writer connection requires, in the order
/// they are checked: page size, incremental auto-vacuum, full
/// synchronous writes, foreign keys, secure delete, and the journal size
/// limit.
pub open spec fn writer_integer_pragmas() -> Seq<(Seq<char>, i64)> {
    seq![
        ("page_size"@, 4096i64),
        ("auto_vacuum"@, 2i64),
        ("synchronous"@, 2i64),
        ("foreign_keys"@, 1i64),
        ("secure_delete"@, 1i64),
        ("journal_size_limit"@, 268_435_456i64),
    ]
}

/// The integer pragmas every writer connection requires.
pub fn writer_integer_pragmas_list() -> (r: Vec<(&'static str, i64)>)
    ensures
        r@.map_values(|p: (&'static str, i64)| (p.0@, p.1)) == writer_integer_pragmas(),
{
    let v = vec![
        ("page_size", 4096i64),
        ("auto_vacuum", 2i64),
        ("synchronous", 2i64),
        ("foreign_keys", 1i64),
        ("secure_delete", 1i64),
        ("journal_size_limit", 268_435_456i64),
    ];
    assert(v@.map_values(|p: (&'static str, i64)| (p.0@, p.1)) =~= writer_integer_pragmas());
    v
}

/// An integer pragma reads back as required.
pub fn check_integer_pragma(pragma: &'static str, expected: i64, found: i64) -> (r: Result<(), PragmaError>)
    ensures
        found == expected ==> r is Ok,
        found != expected ==> r == Err::<(), PragmaError>(
            PragmaError::IntegerMismatch { pragma, expected, found },
        ),
{
    if found == expected {
        Ok(())
    } else {
        Err(PragmaError::IntegerMismatch { pragma, expected, found })
    }
}

/// The code of `c` in ASCII lower case.
pub open spec fn ascii_lower(c: char) -> u32 {
    if 'A' <= c && c <= 'Z' {
        ((c as u32) + 32) as u32
    } else {
        c as u32
    }
}

/// The texts are equal but for ASCII case.
pub open spec fn equal_ignoring_ascii_case(a: Seq<char>, b: Seq<char>) -> bool {
    a.len() == b.len() && forall|i: int| 0 <= i < a.len() ==> ascii_lower(#[trigger] a[i]) == ascii_lower(b[i])
}

fn lower(c: char) -> (r: u32)
    ensures
        r == ascii_lower(c),
{
    if 'A' <= c && c <= 'Z' {
        (c as u32) + 32
    } else {
        c as u32
    }
}

/// Whether two texts are equal but for ASCII case.
pub fn eq_ignore_ascii_case(a: &str, b: &str) -> (r: bool)
    ensures
        r == equal_ignoring_ascii_case(a@, b@),
{
    let x = chars_of(a);
    let y = chars_of(b);
    if x.len() != y.len() {
        return false;
    }
    let mut i: usize = 0;
    while i < x.len()
        invariant
            i <= x@.len(),
            x@ == a@,
            y@ == b@,
            x@.len() == y@.len(),
            forall|k: int| 0 <= k < i ==> ascii_lower(#[trigger] x@[k]) == ascii_lower(y@[k]),
        decreases x@.len() - i,
    {
        if lower(x[i]) != lower(y[i]) {
            return false;
        }
        i = i + 1;
    }
    true
}

/// A text pragma reads back as required, ignoring ASCII case.
pub fn check_text_pragma(pragma: &'static str, expected: &'static str, found: &str) -> (r: Result<
    (),
    PragmaError,
>)
    ensures
        r is Ok <==> equal_ignoring_ascii_case(found@, expected@),
        r matches Err(e) ==> (e matches PragmaError::TextMismatch { pragma: p, expected: x, found: f }
            && p == pragma && x == expected && f@ == found@),
{
    if eq_ignore_ascii_case(found, expected) {
        Ok(())
    } else {
        Err(PragmaError::TextMismatch { pragma, expected, found: owned(found) })
    }
}

} // verus!

//! Store connection rules: release-version parsing and ordering, the
//! reader and writer version floors, and the generation write fence.

use std::cmp::Ordering;

use vstd::prelude::*;

use crate::text::{
    idx, chars_of, find_char, first_index, lemma_first_index_facts, lemma_split_nonempty,
    parse_u64, parse_u64_spec, pieces_match, slice_chars, split_chars, split_spec, string_of,
};

verus! {

/// One dot-separated pre-release identifier.
#[derive(Debug, Clone, PartialEq, Eq)]
pub enum VersionIdentifier {
    Numeric(u64),
    Text(String),
}

/// The mathematical value of a pre-release identifier.
pub enum IdentifierModel {
    Numeric(u64),
    Text(Seq<char>),
}

impl View for VersionIdentifier {
    type V = IdentifierModel;

    open spec fn view(&self) -> IdentifierModel {
        match self {
            VersionIdentifier::Numeric(n) => IdentifierModel::Numeric(*n),
            VersionIdentifier::Text(t) => IdentifierModel::Text(t@),
        }
    }
}

/// The mathematical value of a release version: its numeric core and its
/// optional pre-release identifiers. Build metadata is not part of it.
pub struct VersionModel {
    pub core: Seq<u64>,
    pub pre: Option<Seq<IdentifierModel>>,
}

/// A parsed release version.
#[derive(Debug, Clone, PartialEq, Eq)]
pub struct ParsedVersion {
    pub core: Vec<u64>,
    pub pre_release: Option<Vec<VersionIdentifier>>,
}

impl View for ParsedVersion {
    type V = VersionModel;

    open spec fn view(&self) -> VersionModel {
        VersionModel {
            core: self.core@,
            pre: match self.pre_release {
                Some(ids) => Some(ids@.map_values(|i: VersionIdentifier| i@)),
                None => None,
            },
        }
    }
}

/// Characters allowed in a pre-release identifier.
pub open spec fn is_identifier_char(c: char) -> bool {
    ('a' <= c <= 'z') || ('A' <= c <= 'Z') || ('0' <= c <= '9') || c == '-'
}

/// A non-empty run of ASCII letters, digits and `-`.
pub open spec fn valid_identifier(t: Seq<char>) -> bool {
    t.len() > 0 && forall|j: int| 0 <= j < t.len() ==> is_identifier_char(#[trigger] t[j])
}

/// An identifier is numeric exactly when the unsigned parser accepts it.
pub open spec fn identifier_model(t: Seq<char>) -> IdentifierModel {
    match parse_u64_spec(t) {
        Some(n) => IdentifierModel::Numeric(n),
        None => IdentifierModel::Text(t),
    }
}

/// The text with one leading `v` removed, if there is one.
pub open spec fn without_v_prefix(s: Seq<char>) -> Seq<char> {
    if s.len() > 0 && s[0] == 'v' {
        s.drop_first()
    } else {
        s
    }
}

/// The text before the first `+` (the build metadata is dropped).
pub open spec fn without_build(s: Seq<char>) -> Seq<char> {
    match first_index(s, '+') {
        Some(i) => s.take(i),
        None => s,
    }
}

/// The release part of a version text: before the first `-`.
pub open spec fn core_text(s: Seq<char>) -> Seq<char> {
    let body = without_build(without_v_prefix(s));
    match first_index(body, '-') {
        Some(i) => body.take(i),
        None => body,
    }
}

/// The pre-release part of a version text: after the first `-`, if any.
pub open spec fn pre_text(s: Seq<char>) -> Option<Seq<char>> {
    let body = without_build(without_v_prefix(s));
    match first_index(body, '-') {
        Some(i) => Some(body.skip(i + 1)),
        None => None,
    }
}

/// Whether every dot-separated core component is an unsigned integer.
pub open spec fn core_parses(s: Seq<char>) -> bool {
    forall|i: int|
        0 <= i < split_spec(core_text(s), '.').len() ==> (#[trigger] parse_u64_spec(
            split_spec(core_text(s), '.')[i],
        )) is Some
}

/// The numeric core of a version text whose core parses.
pub open spec fn core_values(s: Seq<char>) -> Seq<u64> {
    split_spec(core_text(s), '.').map_values(|p: Seq<char>| parse_u64_spec(p).unwrap())
}

/// Whether the pre-release part, when present, is a non-empty run of
/// valid identifiers.
pub open spec fn pre_parses(s: Seq<char>) -> bool {
    match pre_text(s) {
        None => true,
        Some(p) => p.len() > 0 && forall|i: int|
            0 <= i < split_spec(p, '.').len() ==> valid_identifier(
                #[trigger] split_spec(p, '.')[i],
            ),
    }
}

/// The version that a text denotes, or `None` when it is not a version.
pub open spec fn version_model(s: Seq<char>) -> Option<VersionModel> {
    if core_parses(s) && pre_parses(s) {
        Some(
            VersionModel {
                core: core_values(s),
                pre: match pre_text(s) {
                    None => None,
                    Some(p) => Some(
                        split_spec(p, '.').map_values(|t: Seq<char>| identifier_model(t)),
                    ),
                },
            },
        )
    } else {
        None
    }
}

/// The reverse of an ordering.
pub open spec fn flip(o: Ordering) -> Ordering {
    match o {
        Ordering::Less => Ordering::Greater,
        Ordering::Equal => Ordering::Equal,
        Ordering::Greater => Ordering::Less,
    }
}

/// The core component at `i`, zero past the end.
pub open spec fn word_at(s: Seq<u64>, i: int) -> u64 {
    if 0 <= i < s.len() {
        s[i]
    } else {
        0
    }
}

/// Orders two numeric cores from component `i` on, padding the shorter
/// core with zeros.
pub open spec fn core_order_from(a: Seq<u64>, b: Seq<u64>, i: int) -> Ordering
    decreases a.len() + b.len() - i,
{
    if i >= a.len() && i >= b.len() {
        Ordering::Equal
    } else if word_at(a, i) < word_at(b, i) {
        Ordering::Less
    } else if word_at(a, i) > word_at(b, i) {
        Ordering::Greater
    } else {
        core_order_from(a, b, i + 1)
    }
}

/// Lexicographic order of character runs from position `i` on, a proper
/// prefix first.
pub open spec fn text_order_from(a: Seq<char>, b: Seq<char>, i: int) -> Ordering
    decreases a.len() + b.len() - i,
{
    if i >= a.len() && i >= b.len() {
        Ordering::Equal
    } else if i >= a.len() {
        Ordering::Less
    } else if i >= b.len() {
        Ordering::Greater
    } else if a[i] < b[i] {
        Ordering::Less
    } else if a[i] > b[i] {
        Ordering::Greater
    } else {
        text_order_from(a, b, i + 1)
    }
}

/// Numeric identifiers first, by value; then text identifiers, by text.
pub open spec fn identifier_order(x: IdentifierModel, y: IdentifierModel) -> Ordering {
    match (x, y) {
        (IdentifierModel::Numeric(m), IdentifierModel::Numeric(n)) => if m < n {
            Ordering::Less
        } else if m > n {
            Ordering::Greater
        } else {
            Ordering::Equal
        },
        (IdentifierModel::Numeric(_), IdentifierModel::Text(_)) => Ordering::Less,
        (IdentifierModel::Text(_), IdentifierModel::Numeric(_)) => Ordering::Greater,
        (IdentifierModel::Text(s), IdentifierModel::Text(t)) => text_order_from(s, t, 0),
    }
}

/// Lexicographic order of identifier runs from position `i` on.
pub open spec fn identifiers_order_from(
    a: Seq<IdentifierModel>,
    b: Seq<IdentifierModel>,
    i: int,
) -> Ordering
    decreases a.len() + b.len() - i,
{
    if i >= a.len() && i >= b.len() {
        Ordering::Equal
    } else if i >= a.len() {
        Ordering::Less
    } else if i >= b.len() {
        Ordering::Greater
    } else if identifier_order(a[i], b[i]) != Ordering::Equal {
        identifier_order(a[i], b[i])
    } else {
        identifiers_order_from(a, b, i + 1)
    }
}

/// The release order: cores first; at equal cores a release without
/// pre-release identifiers is greater than one with them.
pub open spec fn version_order(a: VersionModel, b: VersionModel) -> Ordering {
    match core_order_from(a.core, b.core, 0) {
        Ordering::Equal => match (a.pre, b.pre) {
            (None, None) => Ordering::Equal,
            (None, Some(_)) => Ordering::Greater,
            (Some(_), None) => Ordering::Less,
            (Some(x), Some(y)) => identifiers_order_from(x, y, 0),
        },
        o => o,
    }
}


fn order_cores(a: &Vec<u64>, b: &Vec<u64>) -> (r: Ordering)
    ensures
        r == core_order_from(a@, b@, 0),
{
    let width = if a.len() >= b.len() {
        a.len()
    } else {
        b.len()
    };
    let mut i: usize = 0;
    while i < width
        invariant
            width == (if a@.len() >= b@.len() {
                a@.len()
            } else {
                b@.len()
            }),
            i <= width,
            core_order_from(a@, b@, 0) == core_order_from(a@, b@, idx(i)),
        decreases width - i,
    {
        let x: u64 = if i < a.len() {
            a[i]
        } else {
            0
        };
        let y: u64 = if i < b.len() {
            b[i]
        } else {
            0
        };
        if x < y {
            return Ordering::Less;
        }
        if x > y {
            return Ordering::Greater;
        }
        i = i + 1;
    }
    Ordering::Equal
}

fn order_texts(a: &Vec<char>, b: &Vec<char>) -> (r: Ordering)
    ensures
        r == text_order_from(a@, b@, 0),
{
    let mut i: usize = 0;
    loop
        invariant
            i <= a@.len(),
            i <= b@.len(),
            text_order_from(a@, b@, 0) == text_order_from(a@, b@, idx(i)),
        decreases a@.len() - i,
    {
        if i >= a.len() && i >= b.len() {
            return Ordering::Equal;
        }
        if i >= a.len() {
            return Ordering::Less;
        }
        if i >= b.len() {
            return Ordering::Greater;
        }
        if a[i] < b[i] {
            return Ordering::Less;
        }
        if a[i] > b[i] {
            return Ordering::Greater;
        }
        i = i + 1;
    }
}

fn order_identifiers(x: &VersionIdentifier, y: &VersionIdentifier) -> (r: Ordering)
    ensures
        r == identifier_order(x@, y@),
{
    match (x, y) {
        (VersionIdentifier::Numeric(m), VersionIdentifier::Numeric(n)) => {
            if *m < *n {
                Ordering::Less
            } else if *m > *n {
                Ordering::Greater
            } else {
                Ordering::Equal
            }
        },
        (VersionIdentifier::Numeric(_), VersionIdentifier::Text(_)) => Ordering::Less,
        (VersionIdentifier::Text(_), VersionIdentifier::Numeric(_)) => Ordering::Greater,
        (VersionIdentifier::Text(s), VersionIdentifier::Text(t)) => {
            let sc = chars_of(s.as_str());
            let tc = chars_of(t.as_str());
            order_texts(&sc, &tc)
        },
    }
}

fn order_identifier_runs(a: &Vec<VersionIdentifier>, b: &Vec<VersionIdentifier>) -> (r: Ordering)
    ensures
        r == identifiers_order_from(
            a@.map_values(|i: VersionIdentifier| i@),
            b@.map_values(|i: VersionIdentifier| i@),
            0,
        ),
{
    let ghost am = a@.map_values(|i: VersionIdentifier| i@);
    let ghost bm = b@.map_values(|i: VersionIdentifier| i@);
    let mut i: usize = 0;
    loop
        invariant
            i <= a@.len(),
            i <= b@.len(),
            am == a@.map_values(|i: VersionIdentifier| i@),
            bm == b@.map_values(|i: VersionIdentifier| i@),
            identifiers_order_from(am, bm, 0) == identifiers_order_from(am, bm, idx(i)),
        decreases a@.len() - i,
    {
        if i >= a.len() && i >= b.len() {
            return Ordering::Equal;
        }
        if i >= a.len() {
            return Ordering::Less;
        }
        if i >= b.len() {
            return Ordering::Greater;
        }
        let o = order_identifiers(&a[i], &b[i]);
        assert(am[idx(i)] == a@[idx(i)]@);
        assert(bm[idx(i)] == b@[idx(i)]@);
        match o {
            Ordering::Equal => {},
            _ => {
                return o;
            },
        }
        i = i + 1;
    }
}

/// Orders two parsed versions.
pub fn order_versions(a: &ParsedVersion, b: &ParsedVersion) -> (r: Ordering)
    ensures
        r == version_order(a@, b@),
{
    let core = order_cores(&a.core, &b.core);
    match core {
        Ordering::Equal => {},
        _ => {
            return core;
        },
    }
    match (&a.pre_release, &b.pre_release) {
        (None, None) => Ordering::Equal,
        (None, Some(_)) => Ordering::Greater,
        (Some(_), None) => Ordering::Less,
        (Some(x), Some(y)) => order_identifier_runs(x, y),
    }
}


/// A typed compatibility or connection-contract failure.
#[derive(Debug, Clone, PartialEq, Eq)]
pub enum StoreConnectionError {
    FamilyMismatch { expected: String, found: String },
    ReaderVersionTooOld { running: String, required: String },
    WriterVersionTooOld { running: String, required: String },
    CurrentGenerationChanged { expected: String, found: String },
    GenerationNotServing { state: String },
    MaintenanceInProgress { run_id: String },
    WriterLeaseLost,
    WriterLeaseUnavailable { detail: String },
    MissingMetadata { key: &'static str },
    InvalidVersion { field: &'static str, value: String },
    PragmaMismatch { pragma: &'static str, expected: i64, found: i64 },
    TextPragmaMismatch { pragma: &'static str, expected: &'static str, found: String },
}

/// `e` reports that `value` is not a valid version for `field`.
pub open spec fn is_invalid_version(e: StoreConnectionError, field: &'static str, value: Seq<char>) -> bool {
    e matches StoreConnectionError::InvalidVersion { field: f, value: v } && f == field && v@ == value
}

fn identifier_chars_valid(t: &Vec<char>) -> (r: bool)
    ensures
        r == valid_identifier(t@),
{
    if t.len() == 0 {
        return false;
    }
    let mut j: usize = 0;
    while j < t.len()
        invariant
            j <= t@.len(),
            forall|k: int| 0 <= k < j ==> is_identifier_char(#[trigger] t@[k]),
        decreases t@.len() - j,
    {
        let c = t[j];
        if !(('a' <= c && c <= 'z') || ('A' <= c && c <= 'Z') || ('0' <= c && c <= '9') || c == '-') {
            return false;
        }
        j = j + 1;
    }
    true
}

fn invalid_version(field: &'static str, value: &str) -> (e: StoreConnectionError)
    ensures
        is_invalid_version(e, field, value@),
{
    let cs = chars_of(value);
    StoreConnectionError::InvalidVersion { field, value: string_of(cs.as_slice()) }
}

impl ParsedVersion {
    /// Parses a release version: an optional leading `v`, a dot-separated
    /// numeric core, an optional `-` pre-release of dot-separated
    /// identifiers, and optional `+` build metadata, which is ignored.
    pub fn parse(field: &'static str, value: &str) -> (r: Result<ParsedVersion, StoreConnectionError>)
        ensures
            match r {
                Ok(v) => version_model(value@) == Some(v@),
                Err(e) => version_model(value@) is None && is_invalid_version(e, field, value@),
            },
    {
        let cs = chars_of(value);
        let stripped = if cs.len() > 0 && cs[0] == 'v' {
            slice_chars(cs.as_slice(), 1, cs.len())
        } else {
            slice_chars(cs.as_slice(), 0, cs.len())
        };
        assert(stripped@ == without_v_prefix(value@));
        proof {
            lemma_first_index_facts(stripped@, '+');
        }
        let body = match find_char(stripped.as_slice(), '+') {
            Some(i) => slice_chars(stripped.as_slice(), 0, i),
            None => slice_chars(stripped.as_slice(), 0, stripped.len()),
        };
        assert(body@ == without_build(without_v_prefix(value@)));
        proof {
            lemma_first_index_facts(body@, '-');
        }
        let dash = find_char(body.as_slice(), '-');
        let core = match dash {
            Some(i) => slice_chars(body.as_slice(), 0, i),
            None => slice_chars(body.as_slice(), 0, body.len()),
        };
        assert(core@ == core_text(value@));
        let pieces = split_chars(core.as_slice(), '.');
        let ghost parts = split_spec(core_text(value@), '.');
        let mut values: Vec<u64> = Vec::new();
        let mut i: usize = 0;
        while i < pieces.len()
            invariant
                pieces_match(pieces@, parts),
                parts == split_spec(core_text(value@), '.'),
                i <= pieces@.len(),
                values@.len() == i,
                forall|j: int| 0 <= j < i ==> (#[trigger] parse_u64_spec(parts[j])) == Some(values@[j]),
            decreases pieces@.len() - i,
        {
            assert(pieces@[i as int]@ == parts[i as int]);
            match parse_u64(pieces[i].as_slice()) {
                Some(n) => {
                    values.push(n);
                },
                None => {
                    assert(parse_u64_spec(parts[i as int]) is None);
                    assert(!core_parses(value@));
                    return Err(invalid_version(field, value));
                },
            }
            i = i + 1;
        }
        assert(core_parses(value@));
        assert(values@ =~= core_values(value@));
        let pre_release = match dash {
            None => {
                assert(pre_text(value@) is None);
                None
            },
            Some(d) => {
                let pre = slice_chars(body.as_slice(), d + 1, body.len());
                assert(pre_text(value@) == Some(pre@));
                if pre.len() == 0 {
                    return Err(invalid_version(field, value));
                }
                let ids = split_chars(pre.as_slice(), '.');
                let ghost idparts = split_spec(pre@, '.');
                let mut out: Vec<VersionIdentifier> = Vec::new();
                let mut k: usize = 0;
                while k < ids.len()
                    invariant
                        pieces_match(ids@, idparts),
                        idparts == split_spec(pre@, '.'),
                        pre_text(value@) == Some(pre@),
                        pre@.len() > 0,
                        k <= ids@.len(),
                        out@.len() == k,
                        forall|j: int| 0 <= j < k ==> valid_identifier(#[trigger] idparts[j]),
                        forall|j: int| 0 <= j < k ==> #[trigger] out@[j]@ == identifier_model(idparts[j]),
                    decreases ids@.len() - k,
                {
                    assert(ids@[k as int]@ == idparts[k as int]);
                    if !identifier_chars_valid(&ids[k]) {
                        assert(!valid_identifier(idparts[k as int]));
                        assert(!valid_identifier(split_spec(pre@, '.')[k as int]));
                        assert(!pre_parses(value@));
                        return Err(invalid_version(field, value));
                    }
                    let ident = match parse_u64(ids[k].as_slice()) {
                        Some(n) => VersionIdentifier::Numeric(n),
                        None => VersionIdentifier::Text(string_of(ids[k].as_slice())),
                    };
                    out.push(ident);
                    k = k + 1;
                }
                assert(pre_parses(value@));
                assert(out@.map_values(|i: VersionIdentifier| i@) =~= idparts.map_values(
                    |t: Seq<char>| identifier_model(t),
                ));
                Some(out)
            },
        };
        let v = ParsedVersion { core: values, pre_release };
        Ok(v)
    }
}


/// Orders two version texts by release order.
pub(crate) fn compare_store_versions(left: &str, right: &str) -> (r: Result<Ordering, StoreConnectionError>)
    ensures
        match r {
            Ok(o) => version_model(left@) is Some && version_model(right@) is Some && o == version_order(
                version_model(left@).unwrap(),
                version_model(right@).unwrap(),
            ),
            Err(e) => (version_model(left@) is None && is_invalid_version(e, "version", left@)) || (
            version_model(left@) is Some && version_model(right@) is None && is_invalid_version(
                e,
                "version",
                right@,
            )),
        },
{
    let a = ParsedVersion::parse("version", left)?;
    let b = ParsedVersion::parse("version", right)?;
    Ok(order_versions(&a, &b))
}

/// The floor a writer must meet: the higher of the reader and writer
/// floors, raised to the recorded binary version unless a downgrade is
/// allowed. The three texts are parsed in that order; the first invalid
/// one is reported.
pub(crate) fn required_writer_version<'a>(
    minimum_reader: &'a str,
    minimum_writer: &'a str,
    recorded_binary: &'a str,
    allow_downgrade: bool,
) -> (r: Result<&'a str, StoreConnectionError>)
    ensures
        match r {
            Ok(v) => {
                let reader = version_model(minimum_reader@).unwrap();
                let writer = version_model(minimum_writer@).unwrap();
                let recorded = version_model(recorded_binary@).unwrap();
                let use_reader = version_order(reader, writer) != Ordering::Less;
                let minimum = if use_reader { reader } else { writer };
                &&& version_model(minimum_reader@) is Some
                &&& version_model(minimum_writer@) is Some
                &&& version_model(recorded_binary@) is Some
                &&& v@ == (if allow_downgrade || version_order(minimum, recorded) != Ordering::Less {
                    if use_reader { minimum_reader@ } else { minimum_writer@ }
                } else {
                    recorded_binary@
                })
            },
            Err(e) => {
                ||| version_model(minimum_reader@) is None && is_invalid_version(e, "min_reader_version", minimum_reader@)
                ||| version_model(minimum_reader@) is Some && version_model(minimum_writer@) is None
                    && is_invalid_version(e, "min_writer_version", minimum_writer@)
                ||| version_model(minimum_reader@) is Some && version_model(minimum_writer@) is Some
                    && version_model(recorded_binary@) is None && is_invalid_version(e, "binary_version", recorded_binary@)
            },
        },
{
    let reader = ParsedVersion::parse("min_reader_version", minimum_reader)?;
    let writer = ParsedVersion::parse("min_writer_version", minimum_writer)?;
    let recorded = ParsedVersion::parse("binary_version", recorded_binary)?;
    let use_reader = match order_versions(&reader, &writer) {
        Ordering::Less => false,
        _ => true,
    };
    let minimum_at_least_recorded = if use_reader {
        match order_versions(&reader, &recorded) {
            Ordering::Less => false,
            _ => true,
        }
    } else {
        match order_versions(&writer, &recorded) {
            Ordering::Less => false,
            _ => true,
        }
    };
    if allow_downgrade || minimum_at_least_recorded {
        if use_reader {
            Ok(minimum_reader)
        } else {
            Ok(minimum_writer)
        }
    } else {
        Ok(recorded_binary)
    }
}

proof fn lemma_core_order(a: Seq<u64>, b: Seq<u64>, c: Seq<u64>, i: int)
    ensures
        core_order_from(a, a, i) == Ordering::Equal,
        core_order_from(a, b, i) == flip(core_order_from(b, a, i)),
        core_order_from(a, b, i) == Ordering::Equal && core_order_from(b, c, i) == Ordering::Equal
            ==> core_order_from(a, c, i) == Ordering::Equal,
        core_order_from(a, b, i) == Ordering::Less && core_order_from(b, c, i) != Ordering::Greater
            ==> core_order_from(a, c, i) == Ordering::Less,
        core_order_from(a, b, i) != Ordering::Greater && core_order_from(b, c, i) == Ordering::Less
            ==> core_order_from(a, c, i) == Ordering::Less,
    decreases a.len() + b.len() + c.len() - i,
{
    if i < a.len() || i < b.len() || i < c.len() {
        lemma_core_order(a, b, c, i + 1);
    }
}

proof fn lemma_text_order(a: Seq<char>, b: Seq<char>, c: Seq<char>, i: int)
    ensures
        text_order_from(a, a, i) == Ordering::Equal,
        text_order_from(a, b, i) == flip(text_order_from(b, a, i)),
        text_order_from(a, b, i) == Ordering::Equal && text_order_from(b, c, i) == Ordering::Equal
            ==> text_order_from(a, c, i) == Ordering::Equal,
        text_order_from(a, b, i) == Ordering::Less && text_order_from(b, c, i) != Ordering::Greater
            ==> text_order_from(a, c, i) == Ordering::Less,
        text_order_from(a, b, i) != Ordering::Greater && text_order_from(b, c, i) == Ordering::Less
            ==> text_order_from(a, c, i) == Ordering::Less,
    decreases a.len() + b.len() + c.len() - i,
{
    if i < a.len() || i < b.len() || i < c.len() {
        lemma_text_order(a, b, c, i + 1);
    }
}

proof fn lemma_identifier_order(x: IdentifierModel, y: IdentifierModel, z: IdentifierModel)
    ensures
        identifier_order(x, x) == Ordering::Equal,
        identifier_order(x, y) == flip(identifier_order(y, x)),
        identifier_order(x, y) == Ordering::Equal && identifier_order(y, z) == Ordering::Equal
            ==> identifier_order(x, z) == Ordering::Equal,
        identifier_order(x, y) == Ordering::Less && identifier_order(y, z) != Ordering::Greater
            ==> identifier_order(x, z) == Ordering::Less,
        identifier_order(x, y) != Ordering::Greater && identifier_order(y, z) == Ordering::Less
            ==> identifier_order(x, z) == Ordering::Less,
{
    match (x, y, z) {
        (IdentifierModel::Text(s), IdentifierModel::Text(t), IdentifierModel::Text(u)) => {
            lemma_text_order(s, t, u, 0);
        },
        (IdentifierModel::Text(s), IdentifierModel::Text(t), _) => {
            lemma_text_order(s, t, t, 0);
            lemma_text_order(s, s, s, 0);
        },
        (IdentifierModel::Text(s), _, IdentifierModel::Text(u)) => {
            lemma_text_order(s, u, u, 0);
            lemma_text_order(s, s, s, 0);
        },
        (_, IdentifierModel::Text(t), IdentifierModel::Text(u)) => {
            lemma_text_order(t, u, u, 0);
        },
        (IdentifierModel::Text(s), _, _) => {
            lemma_text_order(s, s, s, 0);
        },
        _ => {},
    }
}

proof fn lemma_identifiers_order(
    a: Seq<IdentifierModel>,
    b: Seq<IdentifierModel>,
    c: Seq<IdentifierModel>,
    i: int,
)
    ensures
        identifiers_order_from(a, a, i) == Ordering::Equal,
        identifiers_order_from(a, b, i) == flip(identifiers_order_from(b, a, i)),
        identifiers_order_from(a, b, i) == Ordering::Equal && identifiers_order_from(b, c, i)
            == Ordering::Equal ==> identifiers_order_from(a, c, i) == Ordering::Equal,
        identifiers_order_from(a, b, i) == Ordering::Less && identifiers_order_from(b, c, i)
            != Ordering::Greater ==> identifiers_order_from(a, c, i) == Ordering::Less,
        identifiers_order_from(a, b, i) != Ordering::Greater && identifiers_order_from(b, c, i)
            == Ordering::Less ==> identifiers_order_from(a, c, i) == Ordering::Less,
    decreases a.len() + b.len() + c.len() - i,
{
    lemma_identifier_order(a[i], a[i], a[i]);
    lemma_identifier_order(a[i], b[i], b[i]);
    lemma_identifier_order(a[i], b[i], c[i]);
    if i < a.len() || i < b.len() || i < c.len() {
        lemma_identifiers_order(a, b, c, i + 1);
    }
}

/// Identifier runs that agree before position `i` order as they do from
/// `i` on.
proof fn lemma_identifiers_common_prefix(a: Seq<IdentifierModel>, b: Seq<IdentifierModel>, k: int, i: int)
    requires
        0 <= k <= i,
        i < a.len(),
        i < b.len(),
        forall|j: int| 0 <= j < i ==> a[j] == b[j],
    ensures
        identifiers_order_from(a, b, k) == identifiers_order_from(a, b, i),
    decreases i - k,
{
    if k < i {
        lemma_identifier_order(a[k], a[k], a[k]);
        lemma_identifiers_common_prefix(a, b, k + 1, i);
    }
}

/// Law: numeric pre-release identifiers ascend by value. Two versions with
/// the same core whose pre-release identifiers agree before position `i`
/// and hold the numbers `m < n` at `i` order the one with `m` first, for
/// instance `1.0.0-rc.1` before `1.0.0-rc.2`.
pub proof fn lemma_numeric_prerelease_ascends(
    a: VersionModel,
    b: VersionModel,
    x: Seq<IdentifierModel>,
    y: Seq<IdentifierModel>,
    i: int,
    m: u64,
    n: u64,
)
    requires
        a.core == b.core,
        a.pre == Some(x),
        b.pre == Some(y),
        0 <= i < x.len(),
        i < y.len(),
        forall|j: int| 0 <= j < i ==> x[j] == y[j],
        x[i] == IdentifierModel::Numeric(m),
        y[i] == IdentifierModel::Numeric(n),
        m < n,
    ensures
        version_order(a, b) == Ordering::Less,
        version_order(b, a) == Ordering::Greater,
{
    lemma_core_order(a.core, a.core, a.core, 0);
    lemma_identifiers_common_prefix(x, y, 0, i);
    assert forall|j: int| 0 <= j < i implies y[j] == x[j] by {}
    lemma_identifiers_common_prefix(y, x, 0, i);
}

/// Law: a numeric pre-release identifier sorts before a text one. Two
/// versions with the same core whose pre-release identifiers agree before
/// position `i`, and hold a number and a text at `i`, order the one with
/// the number first, for instance `1.0.0-1` before `1.0.0-alpha`.
pub proof fn lemma_numeric_prerelease_before_text(
    a: VersionModel,
    b: VersionModel,
    x: Seq<IdentifierModel>,
    y: Seq<IdentifierModel>,
    i: int,
    m: u64,
    t: Seq<char>,
)
    requires
        a.core == b.core,
        a.pre == Some(x),
        b.pre == Some(y),
        0 <= i < x.len(),
        i < y.len(),
        forall|j: int| 0 <= j < i ==> x[j] == y[j],
        x[i] == IdentifierModel::Numeric(m),
        y[i] == IdentifierModel::Text(t),
    ensures
        version_order(a, b) == Ordering::Less,
        version_order(b, a) == Ordering::Greater,
{
    lemma_core_order(a.core, a.core, a.core, 0);
    lemma_identifiers_common_prefix(x, y, 0, i);
    assert forall|j: int| 0 <= j < i implies y[j] == x[j] by {}
    lemma_identifiers_common_prefix(y, x, 0, i);
}

/// Law: at equal cores a release sorts after any of its pre-releases.
pub proof fn lemma_release_after_prerelease(a: VersionModel, b: VersionModel)
    requires
        a.core == b.core,
        a.pre is None,
        b.pre is Some,
    ensures
        version_order(a, b) == Ordering::Greater,
        version_order(b, a) == Ordering::Less,
{
    lemma_core_order(a.core, a.core, a.core, 0);
}

/// The release order is a total order on versions up to equivalence: every
/// version is equal to itself, swapping the operands reverses the result,
/// and it is transitive.
pub proof fn lemma_version_order_total(a: VersionModel, b: VersionModel, c: VersionModel)
    ensures
        version_order(a, a) == Ordering::Equal,
        version_order(a, b) == flip(version_order(b, a)),
        version_order(a, b) == Ordering::Equal && version_order(b, c) == Ordering::Equal
            ==> version_order(a, c) == Ordering::Equal,
        version_order(a, b) == Ordering::Less && version_order(b, c) != Ordering::Greater
            ==> version_order(a, c) == Ordering::Less,
        version_order(a, b) != Ordering::Greater && version_order(b, c) == Ordering::Less
            ==> version_order(a, c) == Ordering::Less,
{
    lemma_core_order(a.core, b.core, c.core, 0);
    lemma_core_order(a.core, a.core, a.core, 0);
    match (a.pre, b.pre, c.pre) {
        (Some(x), Some(y), Some(z)) => {
            lemma_identifiers_order(x, y, z, 0);
        },
        (Some(x), Some(y), None) => {
            lemma_identifiers_order(x, y, y, 0);
        },
        (Some(x), None, Some(z)) => {
            lemma_identifiers_order(x, z, z, 0);
        },
        (None, Some(y), Some(z)) => {
            lemma_identifiers_order(y, z, z, 0);
        },
        (Some(x), None, None) => {
            lemma_identifiers_order(x, x, x, 0);
        },
        _ => {},
    }
}

} // verus!

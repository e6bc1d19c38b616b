//! Generation lifecycle rules: the promotion policy, generation numbering
//! (`gen-NNN`), which generation follows or precedes another, which
//! retired generations a cleanup may remove, who owns a partial
//! generation, and the statements and progress of the windowed logical
//! copy into a new generation.

use vstd::prelude::*;

use crate::store::connection::StoreConnectionError;
use crate::store::layout::{is_generation_name, valid_generation_name, PartialGenerationOwner, StoreLayoutError};
use crate::store::maintenance::{error_code, MaintenanceAction, MaintenanceError, MaintenanceRun};
use crate::num::{clamp_i64, saturating_add_i64};
use crate::text::{
    chars_of, digit_char, nat_text, owned, parse_i64, parse_i64_spec, parse_u64, parse_u64_spec,
    push_char, push_str, str_eq, strip_prefix, u64_text, without_prefix,
};

verus! {

const DEFAULT_COPY_WINDOW: usize = 512;

const MAX_COPY_WINDOW: usize = 2_000;

/// Seven days.
const DEFAULT_ROLLBACK_SAFETY_MS: i64 = 604_800_000;

/// How a promotion copies and how many retired generations it keeps.
#[derive(Debug, Clone, PartialEq, Eq)]
pub struct GenerationPolicy {
    pub copy_window: usize,
    pub retained_generation_limit: usize,
    pub rollback_safety_ms: i64,
}

impl Default for GenerationPolicy {
    fn default() -> (r: Self)
        ensures
            r.copy_window == 512,
            r.retained_generation_limit == 2,
            r.rollback_safety_ms == 604_800_000,
    {
        GenerationPolicy {
            copy_window: DEFAULT_COPY_WINDOW,
            retained_generation_limit: 2,
            rollback_safety_ms: DEFAULT_ROLLBACK_SAFETY_MS,
        }
    }
}

/// What a promotion, rollback or repair did.
#[derive(Debug, Clone, PartialEq, Eq)]
pub struct GenerationApplyReport {
    pub source_generation: String,
    pub destination_generation: String,
    pub selected_generation: Option<String>,
    pub copied_file_versions: usize,
    pub copied_rows: usize,
    pub max_observed_copy_window: usize,
    pub copied_base_files: usize,
    pub removed_generations: Vec<String>,
    pub recovered_partial: bool,
    pub repair_disposition: Option<RepairDisposition>,
}

/// How a repair ended.
#[derive(Debug, Clone, Copy, PartialEq, Eq, Structural)]
pub enum RepairDisposition {
    CheckpointRecovered,
    TornStateRecovered,
    GenerationRebuilt,
}

/// A generation lifecycle failure.
#[derive(Debug)]
pub enum GenerationError {
    InvalidAction(MaintenanceAction),
    InvalidPolicy { field: &'static str, value: usize },
    DestinationExists(String),
    InvalidGenerationName(String),
    GenerationOverflow,
    PartialOwned(String),
    InvalidBasePath(String),
    BaseIdentityMismatch { path: String },
    IdentityConflict { table: String, key: String },
    Validation { check: &'static str, detail: String },
    Layout(StoreLayoutError),
    Maintenance(MaintenanceError),
    Connection(StoreConnectionError),
}

/// The stable code of a generation failure.
pub open spec fn generation_code(e: GenerationError) -> Seq<char> {
    match e {
        GenerationError::InvalidAction(_) => "generation_invalid_action"@,
        GenerationError::InvalidPolicy { .. } => "generation_invalid_policy"@,
        GenerationError::DestinationExists(_) => "generation_destination_exists"@,
        GenerationError::InvalidGenerationName(_) => "generation_invalid_name"@,
        GenerationError::GenerationOverflow => "generation_out_of_range"@,
        GenerationError::PartialOwned(_) => "generation_partial_owned"@,
        GenerationError::InvalidBasePath(_) => "generation_invalid_base_path"@,
        GenerationError::BaseIdentityMismatch { .. } => "generation_base_identity_mismatch"@,
        GenerationError::IdentityConflict { .. } => "generation_identity_conflict"@,
        GenerationError::Validation { .. } => "generation_validation_failed"@,
        GenerationError::Layout(_) | GenerationError::Connection(_) => "generation_io_failed"@,
        GenerationError::Maintenance(m) => error_code(m),
    }
}

impl GenerationError {
    pub fn code(&self) -> (r: &'static str)
        ensures
            r@ == generation_code(*self),
    {
        proof {
            reveal_strlit("generation_invalid_action");
            reveal_strlit("generation_invalid_policy");
            reveal_strlit("generation_destination_exists");
            reveal_strlit("generation_invalid_name");
            reveal_strlit("generation_out_of_range");
            reveal_strlit("generation_partial_owned");
            reveal_strlit("generation_invalid_base_path");
            reveal_strlit("generation_base_identity_mismatch");
            reveal_strlit("generation_identity_conflict");
            reveal_strlit("generation_validation_failed");
            reveal_strlit("generation_io_failed");
        }
        match self {
            GenerationError::InvalidAction(_) => "generation_invalid_action",
            GenerationError::InvalidPolicy { .. } => "generation_invalid_policy",
            GenerationError::DestinationExists(_) => "generation_destination_exists",
            GenerationError::InvalidGenerationName(_) => "generation_invalid_name",
            GenerationError::GenerationOverflow => "generation_out_of_range",
            GenerationError::PartialOwned(_) => "generation_partial_owned",
            GenerationError::InvalidBasePath(_) => "generation_invalid_base_path",
            GenerationError::BaseIdentityMismatch { .. } => "generation_base_identity_mismatch",
            GenerationError::IdentityConflict { .. } => "generation_identity_conflict",
            GenerationError::Validation { .. } => "generation_validation_failed",
            GenerationError::Layout(_) | GenerationError::Connection(_) => "generation_io_failed",
            GenerationError::Maintenance(m) => m.code(),
        }
    }
}

/// The magnitude of `x` as an unsigned 64-bit value.
pub open spec fn magnitude(x: i64) -> u64 {
    if x < 0 {
        (-(x as int)) as u64
    } else {
        x as u64
    }
}

/// The policy is usable: a copy window in `1..=2000`, at least one
/// retained generation, and a rollback safety period that is not
/// negative. The first broken rule is reported, with its value.
pub fn validate_policy(policy: &GenerationPolicy) -> (r: Result<(), GenerationError>)
    ensures
        (policy.copy_window == 0 || policy.copy_window > 2_000) ==> (r matches Err(
            GenerationError::InvalidPolicy { field, value },
        ) && field@ == "copy_window"@ && value == policy.copy_window),
        !(policy.copy_window == 0 || policy.copy_window > 2_000) && policy.retained_generation_limit
            == 0 ==> (r matches Err(GenerationError::InvalidPolicy { field, value }) && field@
            == "retained_generation_limit"@ && value == 0),
        !(policy.copy_window == 0 || policy.copy_window > 2_000) && policy.retained_generation_limit
            != 0 && policy.rollback_safety_ms < 0 ==> (r matches Err(
            GenerationError::InvalidPolicy { field, value },
        ) && field@ == "rollback_safety_ms"@ && value == magnitude(policy.rollback_safety_ms) as usize),
        r is Ok <==> (1 <= policy.copy_window <= 2_000 && policy.retained_generation_limit > 0
            && policy.rollback_safety_ms >= 0),
{
    proof {
        reveal_strlit("copy_window");
        reveal_strlit("retained_generation_limit");
        reveal_strlit("rollback_safety_ms");
    }
    if policy.copy_window == 0 || policy.copy_window > MAX_COPY_WINDOW {
        return Err(GenerationError::InvalidPolicy { field: "copy_window", value: policy.copy_window });
    }
    if policy.retained_generation_limit == 0 {
        return Err(
            GenerationError::InvalidPolicy {
                field: "retained_generation_limit",
                value: policy.retained_generation_limit,
            },
        );
    }
    if policy.rollback_safety_ms < 0 {
        let ms = policy.rollback_safety_ms;
        let abs: u64 = if ms == i64::MIN {
            0x8000_0000_0000_0000u64
        } else {
            (-ms) as u64
        };
        return Err(GenerationError::InvalidPolicy { field: "rollback_safety_ms", value: abs as usize });
    }
    Ok(())
}

// ---------------------------------------------------------------------
// Generation numbers.

/// The number a generation name carries: `gen-` and then what the
/// standard unsigned parser accepts.
pub open spec fn gen_number(name: Seq<char>) -> Option<u64> {
    match without_prefix(name, "gen-"@) {
        Some(rest) => parse_u64_spec(rest),
        None => None,
    }
}

/// `k` zero digits.
pub open spec fn zeros(k: int) -> Seq<char> {
    Seq::new(if k < 0 { 0 } else { k as nat }, |i: int| '0')
}

/// The name of generation `n`: `gen-` and its decimal digits, padded with
/// zeros to at least three.
pub open spec fn gen_name(n: nat) -> Seq<char> {
    let digits = nat_text(n);
    "gen-"@ + zeros(3 - digits.len()) + digits
}

/// The number of generation `name`.
pub fn generation_number(name: &str) -> (r: Result<u64, GenerationError>)
    ensures
        match r {
            Ok(n) => gen_number(name@) == Some(n),
            Err(e) => gen_number(name@) is None && (e matches GenerationError::InvalidGenerationName(
                v,
            ) && v@ == name@),
        },
{
    let cs = chars_of(name);
    match strip_prefix(cs.as_slice(), "gen-") {
        Some(rest) => match parse_u64(rest.as_slice()) {
            Some(n) => Ok(n),
            None => Err(GenerationError::InvalidGenerationName(owned(name))),
        },
        None => Err(GenerationError::InvalidGenerationName(owned(name))),
    }
}

/// The name of generation `n`.
pub fn generation_name(n: u64) -> (r: String)
    ensures
        r@ == gen_name(n as nat),
{
    let digits = u64_text(n);
    let mut out = String::new();
    push_str(&mut out, "gen-");
    proof {
        reveal_strlit("gen-");
    }
    let mut pad: usize = digits.len();
    while pad < 3
        invariant
            digits@ == nat_text(n as nat),
            digits@.len() <= pad <= 3 || (pad == digits@.len() && pad > 3),
            out@ == "gen-"@ + zeros(pad - digits@.len()),
        decreases 3 - pad,
    {
        push_char(&mut out, '0');
        proof {
            assert(zeros(pad + 1 - digits@.len()) =~= zeros(pad - digits@.len()).push('0'));
        }
        pad = pad + 1;
    }
    assert(zeros(pad - digits@.len()) =~= zeros(3 - digits@.len()));
    let mut i: usize = 0;
    while i < digits.len()
        invariant
            i <= digits@.len(),
            out@ == "gen-"@ + zeros(3 - digits@.len()) + digits@.take(i as int),
        decreases digits@.len() - i,
    {
        push_char(&mut out, digits[i]);
        proof {
            assert(digits@.take(i + 1) =~= digits@.take(i as int).push(digits@[i as int]));
        }
        i = i + 1;
    }
    assert(digits@.take(digits@.len() as int) =~= digits@);
    out
}

/// Law: the number of generation `n`'s name is `n`; names and numbers
/// correspond one to one.
pub proof fn lemma_generation_name_number(n: u64)
    ensures
        gen_number(gen_name(n as nat)) == Some(n),
{
    let digits = nat_text(n as nat);
    crate::text::lemma_nat_text_value(n as nat);
    let z = zeros(3 - digits.len());
    let name = gen_name(n as nat);
    assert(name == "gen-"@ + (z + digits));
    reveal_strlit("gen-");
    assert(crate::text::has_prefix(name, "gen-"@)) by {
        assert(name.take(4) =~= "gen-"@);
    }
    let rest = name.skip(4);
    assert(rest =~= z + digits);
    crate::text::lemma_leading_zeros_value(z, digits);
    assert(rest.len() > 0);
    assert(rest[0] != '+') by {
        if z.len() > 0 {
            assert(rest[0] == '0');
        } else {
            assert(rest[0] == digits[0]);
            assert(crate::text::is_digit(digits[0]));
        }
    }
    assert(crate::text::all_digits(rest)) by {
        assert forall|i: int| 0 <= i < rest.len() implies crate::text::is_digit(#[trigger] rest[i]) by {
            if i < z.len() {
                assert(rest[i] == '0');
            } else {
                assert(rest[i] == digits[i - z.len()]);
            }
        }
    }
}

/// Law: the name a promotion gives the next generation carries a number
/// above every named generation's.
pub proof fn lemma_next_generation_is_newest(names: Seq<Seq<char>>, i: int)
    requires
        first_unnumbered(names, 0) is None,
        0 <= i < names.len(),
        max_number(names, names.len() as int) + 1 <= u64::MAX,
    ensures
        gen_number(gen_name(max_number(names, names.len() as int) + 1)).unwrap() > gen_number(names[i]).unwrap(),
{
    lemma_first_unnumbered_none(names, 0, i);
    lemma_max_number_bounds(names, names.len() as int, i);
    lemma_generation_name_number((max_number(names, names.len() as int) + 1) as u64);
}

proof fn lemma_max_number_bounds(names: Seq<Seq<char>>, n: int, i: int)
    requires
        0 <= i < n <= names.len(),
    ensures
        gen_number(names[i]).unwrap() <= max_number(names, n),
    decreases n,
{
    if i < n - 1 {
        lemma_max_number_bounds(names, n - 1, i);
    }
}

/// The texts of a list of strings.
pub open spec fn texts(v: Seq<String>) -> Seq<Seq<char>> {
    v.map_values(|s: String| s@)
}

/// The index of the first name in `names` (from `i` on) that is not a
/// generation name.
pub open spec fn first_unnumbered(names: Seq<Seq<char>>, i: int) -> Option<int>
    decreases names.len() - i,
{
    if i < 0 || i >= names.len() {
        None
    } else if gen_number(names[i]) is None {
        Some(i)
    } else {
        first_unnumbered(names, i + 1)
    }
}

/// The largest number among the first `n` names (zero when there are
/// none); meaningful when all of them are numbered.
pub open spec fn max_number(names: Seq<Seq<char>>, n: int) -> nat
    decreases n,
{
    if n <= 0 {
        0
    } else {
        let rest = max_number(names, n - 1);
        let here = gen_number(names[n - 1]).unwrap() as nat;
        if here > rest { here } else { rest }
    }
}

proof fn lemma_first_unnumbered_none(names: Seq<Seq<char>>, i: int, k: int)
    requires
        0 <= i <= k < names.len(),
        first_unnumbered(names, i) is None,
    ensures
        gen_number(names[k]) is Some,
    decreases k - i,
{
    if i < k {
        lemma_first_unnumbered_none(names, i + 1, k);
    }
}

proof fn lemma_first_unnumbered_skip(names: Seq<Seq<char>>, i: int, j: int)
    requires
        0 <= i <= j <= names.len(),
        forall|k: int| i <= k < j ==> gen_number(#[trigger] names[k]) is Some,
    ensures
        first_unnumbered(names, i) == first_unnumbered(names, j),
    decreases j - i,
{
    if i < j {
        lemma_first_unnumbered_skip(names, i + 1, j);
    }
}

/// Scans the names: the first unnumbered one, else the largest number.
fn scan_numbers(names: &Vec<String>) -> (r: Result<u64, GenerationError>)
    ensures
        match first_unnumbered(texts(names@), 0) {
            Some(i) => r matches Err(GenerationError::InvalidGenerationName(v)) && v@ == names@[i]@,
            None => r == Ok::<u64, GenerationError>(max_number(texts(names@), names@.len() as int) as u64)
                && max_number(texts(names@), names@.len() as int) <= u64::MAX,
        },
{
    let ghost ts = texts(names@);
    let mut maximum: u64 = 0;
    let mut i: usize = 0;
    while i < names.len()
        invariant
            i <= names@.len(),
            ts == texts(names@),
            ts.len() == names@.len(),
            forall|k: int| 0 <= k < i ==> gen_number(#[trigger] ts[k]) is Some,
            maximum == max_number(ts, i as int),
        decreases names@.len() - i,
    {
        assert(ts[i as int] == names@[i as int]@);
        match generation_number(names[i].as_str()) {
            Ok(n) => {
                if n > maximum {
                    maximum = n;
                }
            },
            Err(e) => {
                proof {
                    lemma_first_unnumbered_skip(ts, 0, i as int);
                }
                return Err(e);
            },
        }
        i = i + 1;
    }
    proof {
        lemma_first_unnumbered_skip(ts, 0, names@.len() as int);
    }
    Ok(maximum)
}

/// The name of the generation that follows every named one: one past the
/// largest number. An unnumbered name is reported first; a largest number
/// of `u64::MAX` overflows.
pub fn next_generation_name(names: &Vec<String>) -> (r: Result<String, GenerationError>)
    ensures
        match first_unnumbered(texts(names@), 0) {
            Some(i) => r matches Err(GenerationError::InvalidGenerationName(v)) && v@ == names@[i]@,
            None => {
                let m = max_number(texts(names@), names@.len() as int);
                if m + 1 > u64::MAX {
                    r matches Err(GenerationError::GenerationOverflow)
                } else {
                    r matches Ok(s) && s@ == gen_name(m + 1)
                }
            },
        },
{
    let maximum = scan_numbers(names)?;
    match maximum.checked_add(1) {
        Some(next) => Ok(generation_name(next)),
        None => Err(GenerationError::GenerationOverflow),
    }
}

/// Among the numbered names whose number satisfies `below`-ness (numbers
/// strictly under `bound`), `i` holds the largest, and the last of those
/// that share it.
pub open spec fn is_last_max_below(names: Seq<Seq<char>>, bound: u64, i: int) -> bool {
    &&& 0 <= i < names.len()
    &&& gen_number(names[i]) matches Some(n) && n < bound
    &&& forall|j: int|
        0 <= j < names.len() && (gen_number(#[trigger] names[j]) matches Some(m) && m < bound) ==> {
            let m = gen_number(names[j]).unwrap();
            let n = gen_number(names[i]).unwrap();
            m <= n && (j > i ==> m < n)
        }
}

/// Among the numbered names with numbers strictly above `bound`, `i` holds
/// the smallest, and the first of those that share it.
pub open spec fn is_first_min_above(names: Seq<Seq<char>>, bound: u64, i: int) -> bool {
    &&& 0 <= i < names.len()
    &&& gen_number(names[i]) matches Some(n) && n > bound
    &&& forall|j: int|
        0 <= j < names.len() && (gen_number(#[trigger] names[j]) matches Some(m) && m > bound) ==> {
            let m = gen_number(names[j]).unwrap();
            let n = gen_number(names[i]).unwrap();
            m >= n && (j < i ==> m > n)
        }
}

/// Some numbered name has a number strictly under `bound`.
pub open spec fn any_below(names: Seq<Seq<char>>, bound: u64) -> bool {
    exists|j: int| 0 <= j < names.len() && (gen_number(#[trigger] names[j]) matches Some(m) && m < bound)
}

/// Some numbered name has a number strictly above `bound`.
pub open spec fn any_above(names: Seq<Seq<char>>, bound: u64) -> bool {
    exists|j: int| 0 <= j < names.len() && (gen_number(#[trigger] names[j]) matches Some(m) && m > bound)
}

/// The generation that precedes `current`: the named generation with the
/// largest number below it (the last such name on ties). Unnumbered names
/// are passed over; an unnumbered `current` has none.
pub fn previous_generation_name(names: &Vec<String>, current: &str) -> (r: Option<String>)
    ensures
        match gen_number(current@) {
            None => r is None,
            Some(c) => match r {
                None => !any_below(texts(names@), c),
                Some(s) => exists|i: int| is_last_max_below(texts(names@), c, i) && s@ == names@[i]@,
            },
        },
{
    let ghost ts = texts(names@);
    let c = match generation_number(current) {
        Ok(c) => c,
        Err(_) => return None,
    };
    let mut best: Option<usize> = None;
    let mut best_number: u64 = 0;
    let mut i: usize = 0;
    while i < names.len()
        invariant
            i <= names@.len(),
            ts == texts(names@),
            ts.len() == names@.len(),
            gen_number(current@) == Some(c),
            match best {
                None => forall|j: int|
                    0 <= j < i ==> !(gen_number(#[trigger] ts[j]) matches Some(m) && m < c),
                Some(b) => {
                    &&& b < i
                    &&& gen_number(ts[b as int]) == Some(best_number)
                    &&& best_number < c
                    &&& forall|j: int|
                        0 <= j < i && (gen_number(#[trigger] ts[j]) matches Some(m) && m < c) ==> {
                            let m = gen_number(ts[j]).unwrap();
                            m <= best_number && (j > b ==> m < best_number)
                        }
                },
            },
        decreases names@.len() - i,
    {
        assert(ts[i as int] == names@[i as int]@);
        match generation_number(names[i].as_str()) {
            Ok(n) => {
                if n < c {
                    let take = match best {
                        None => true,
                        Some(_) => n >= best_number,
                    };
                    if take {
                        best = Some(i);
                        best_number = n;
                    }
                }
            },
            Err(_) => {},
        }
        i = i + 1;
    }
    match best {
        None => None,
        Some(b) => {
            assert(is_last_max_below(ts, c, b as int));
            Some(owned(names[b].as_str()))
        },
    }
}

/// The named generation that follows `source`: the smallest number above
/// it (the first such name on ties), if any. An unnumbered `source` is an
/// error; unnumbered names are passed over.
pub fn named_successor(names: &Vec<String>, source: &str) -> (r: Result<Option<String>, GenerationError>)
    ensures
        match gen_number(source@) {
            None => r matches Err(GenerationError::InvalidGenerationName(v)) && v@ == source@,
            Some(c) => match r {
                Ok(None) => !any_above(texts(names@), c),
                Ok(Some(s)) => exists|i: int| is_first_min_above(texts(names@), c, i) && s@ == names@[i]@,
                Err(_) => false,
            },
        },
{
    let ghost ts = texts(names@);
    let c = generation_number(source)?;
    let mut best: Option<usize> = None;
    let mut best_number: u64 = 0;
    let mut i: usize = 0;
    while i < names.len()
        invariant
            i <= names@.len(),
            ts == texts(names@),
            ts.len() == names@.len(),
            gen_number(source@) == Some(c),
            match best {
                None => forall|j: int|
                    0 <= j < i ==> !(gen_number(#[trigger] ts[j]) matches Some(m) && m > c),
                Some(b) => {
                    &&& b < i
                    &&& gen_number(ts[b as int]) == Some(best_number)
                    &&& best_number > c
                    &&& forall|j: int|
                        0 <= j < i && (gen_number(#[trigger] ts[j]) matches Some(m) && m > c) ==> {
                            let m = gen_number(ts[j]).unwrap();
                            m >= best_number && (j < b ==> m > best_number)
                        }
                },
            },
        decreases names@.len() - i,
    {
        assert(ts[i as int] == names@[i as int]@);
        match generation_number(names[i].as_str()) {
            Ok(n) => {
                if n > c {
                    let take = match best {
                        None => true,
                        Some(_) => n < best_number,
                    };
                    if take {
                        best = Some(i);
                        best_number = n;
                    }
                }
            },
            Err(_) => {},
        }
        i = i + 1;
    }
    match best {
        None => Ok(None),
        Some(b) => {
            assert(is_first_min_above(ts, c, b as int));
            Ok(Some(owned(names[b].as_str())))
        },
    }
}

/// Whether some named generation has a number above `current`'s; an
/// unnumbered `current` is an error.
pub fn has_named_successor(names: &Vec<String>, current: &str) -> (r: Result<bool, GenerationError>)
    ensures
        match gen_number(current@) {
            None => r matches Err(GenerationError::InvalidGenerationName(v)) && v@ == current@,
            Some(c) => r == Ok::<bool, GenerationError>(any_above(texts(names@), c)),
        },
{
    match named_successor(names, current)? {
        Some(_) => Ok(true),
        None => Ok(false),
    }
}


// ---------------------------------------------------------------------
// Retired-generation cleanup.

/// The texts among the first `n` that differ from `current`, in order.
pub open spec fn others(ts: Seq<Seq<char>>, current: Seq<char>, n: int) -> Seq<Seq<char>>
    decreases n,
{
    if n <= 0 || n > ts.len() {
        seq![]
    } else {
        let before = others(ts, current, n - 1);
        if ts[n - 1] == current {
            before
        } else {
            before.push(ts[n - 1])
        }
    }
}

/// Where a stable insertion by key puts `key`: before the first entry
/// from `i` on whose key is strictly larger.
pub open spec fn keyed_position(sorted: Seq<(u64, usize)>, key: u64, i: int) -> int
    decreases sorted.len() - i,
{
    if i < 0 || i >= sorted.len() {
        sorted.len() as int
    } else if key < sorted[i].0 {
        i
    } else {
        keyed_position(sorted, key, i + 1)
    }
}

/// The first `n` entries, stably sorted by key.
pub open spec fn keyed_stable(ps: Seq<(u64, usize)>, n: int) -> Seq<(u64, usize)>
    decreases n,
{
    if n <= 0 {
        seq![]
    } else {
        let before = keyed_stable(ps, n - 1);
        before.insert(keyed_position(before, ps[n - 1].0, 0), ps[n - 1])
    }
}

proof fn lemma_keyed_position_range(sorted: Seq<(u64, usize)>, key: u64, i: int)
    requires
        0 <= i <= sorted.len(),
    ensures
        i <= keyed_position(sorted, key, i) <= sorted.len(),
    decreases sorted.len() - i,
{
    if i < sorted.len() && !(key < sorted[i].0) {
        lemma_keyed_position_range(sorted, key, i + 1);
    }
}

/// A stable sort keeps the entries: each sorted entry is one of the first
/// `n` given ones.
proof fn lemma_keyed_stable(ps: Seq<(u64, usize)>, n: int)
    requires
        0 <= n <= ps.len(),
    ensures
        keyed_stable(ps, n).len() == n,
        forall|k: int|
            0 <= k < n ==> exists|j: int| 0 <= j < n && #[trigger] keyed_stable(ps, n)[k] == ps[j],
    decreases n,
{
    if n > 0 {
        lemma_keyed_stable(ps, n - 1);
        let before = keyed_stable(ps, n - 1);
        let p = keyed_position(before, ps[n - 1].0, 0);
        lemma_keyed_position_range(before, ps[n - 1].0, 0);
        let after = keyed_stable(ps, n);
        assert(after == before.insert(p, ps[n - 1]));
        assert forall|k: int| 0 <= k < n implies exists|j: int| 0 <= j < n && #[trigger] after[k] == ps[j] by {
            if k < p {
                assert(after[k] == before[k]);
                let j = choose|j: int| 0 <= j < n - 1 && #[trigger] before[k] == ps[j];
                assert(after[k] == ps[j]);
            } else if k == p {
                assert(after[k] == ps[n - 1]);
            } else {
                assert(after[k] == before[k - 1]);
                let j = choose|j: int| 0 <= j < n - 1 && #[trigger] before[k - 1] == ps[j];
                assert(after[k] == ps[j]);
            }
        }
    }
}

/// Each text paired with its number and its position.
pub open spec fn numbered(ts: Seq<Seq<char>>) -> Seq<(u64, usize)> {
    Seq::new(ts.len(), |i: int| (gen_number(ts[i]).unwrap(), i as usize))
}

/// The retired generations a cleanup considers for removal: those other
/// than `current`, in ascending number order (stable), all but the newest
/// `limit`.
pub open spec fn cleanup_candidates(ts: Seq<Seq<char>>, current: Seq<char>, limit: nat) -> Seq<Seq<char>> {
    let rs = others(ts, current, ts.len() as int);
    let sorted = keyed_stable(numbered(rs), rs.len() as int);
    if rs.len() <= limit {
        seq![]
    } else {
        Seq::new((rs.len() - limit) as nat, |k: int| rs[sorted[k].1 as int])
    }
}

fn stable_sort_keyed(ps: &Vec<(u64, usize)>) -> (out: Vec<(u64, usize)>)
    ensures
        out@ == keyed_stable(ps@, ps@.len() as int),
{
    let mut out: Vec<(u64, usize)> = Vec::new();
    let mut n: usize = 0;
    while n < ps.len()
        invariant
            n <= ps@.len(),
            out@ == keyed_stable(ps@, n as int),
        decreases ps@.len() - n,
    {
        let entry = ps[n];
        let mut i: usize = 0;
        while i < out.len() && !(entry.0 < out[i].0)
            invariant
                i <= out@.len(),
                entry == ps@[n as int],
                keyed_position(out@, entry.0, 0) == keyed_position(out@, entry.0, i as int),
            decreases out@.len() - i,
        {
            i = i + 1;
        }
        out.insert(i, entry);
        n = n + 1;
    }
    out
}

/// The names among `names` other than `current`, in order.
fn other_names(names: &Vec<String>, current: &str) -> (out: Vec<String>)
    ensures
        texts(out@) == others(texts(names@), current@, names@.len() as int),
{
    let ghost ts = texts(names@);
    let mut out: Vec<String> = Vec::new();
    let mut i: usize = 0;
    while i < names.len()
        invariant
            i <= names@.len(),
            ts == texts(names@),
            texts(out@) == others(ts, current@, i as int),
        decreases names@.len() - i,
    {
        assert(ts[i as int] == names@[i as int]@);
        if !str_eq(names[i].as_str(), current) {
            let copy = owned(names[i].as_str());
            out.push(copy);
            assert(texts(out@) =~= others(ts, current@, i as int).push(ts[i as int]));
        }
        i = i + 1;
    }
    out
}

/// The retired generations a cleanup may remove, oldest first: every
/// named generation other than `current`, ordered by number (stably), all
/// but the newest `retained_limit`. An unnumbered retired name is
/// reported first.
#[verifier::spinoff_prover]
pub fn cleanup_candidates_of(names: &Vec<String>, current: &str, retained_limit: usize) -> (r: Result<
    Vec<String>,
    GenerationError,
>)
    ensures
        match first_unnumbered(others(texts(names@), current@, names@.len() as int), 0) {
            Some(i) => r matches Err(GenerationError::InvalidGenerationName(v)) && v@ == others(
                texts(names@),
                current@,
                names@.len() as int,
            )[i],
            None => r matches Ok(v) && texts(v@) == cleanup_candidates(
                texts(names@),
                current@,
                retained_limit as nat,
            ),
        },
{
    let retired = other_names(names, current);
    let ghost rs = texts(retired@);
    let mut pairs: Vec<(u64, usize)> = Vec::new();
    let mut i: usize = 0;
    while i < retired.len()
        invariant
            i <= retired@.len(),
            rs == texts(retired@),
            rs == others(texts(names@), current@, names@.len() as int),
            rs.len() == retired@.len(),
            forall|k: int| 0 <= k < i ==> gen_number(#[trigger] rs[k]) is Some,
            pairs@ == numbered(rs).take(i as int),
        decreases retired@.len() - i,
    {
        assert(rs[i as int] == retired@[i as int]@);
        match generation_number(retired[i].as_str()) {
            Ok(n) => {
                pairs.push((n, i));
                assert(pairs@ =~= numbered(rs).take(i + 1));
            },
            Err(e) => {
                proof {
                    lemma_first_unnumbered_skip(rs, 0, i as int);
                }
                return Err(e);
            },
        }
        i = i + 1;
    }
    proof {
        lemma_first_unnumbered_skip(rs, 0, rs.len() as int);
        assert(pairs@ =~= numbered(rs));
    }
    if retired.len() <= retained_limit {
        let empty: Vec<String> = Vec::new();
        assert(texts(empty@) =~= cleanup_candidates(texts(names@), current@, retained_limit as nat));
        return Ok(empty);
    }
    let sorted = stable_sort_keyed(&pairs);
    proof {
        lemma_keyed_stable(numbered(rs), rs.len() as int);
    }
    let remove_count = retired.len() - retained_limit;
    let mut out: Vec<String> = Vec::new();
    let mut k: usize = 0;
    while k < remove_count
        invariant
            k <= remove_count,
            remove_count == retired@.len() - retained_limit,
            rs == texts(retired@),
            rs.len() == retired@.len(),
            sorted@ == keyed_stable(numbered(rs), rs.len() as int),
            sorted@.len() == rs.len(),
            forall|q: int|
                0 <= q < rs.len() ==> exists|j: int|
                    0 <= j < rs.len() && #[trigger] sorted@[q] == numbered(rs)[j],
            texts(out@) == Seq::new(k as nat, |q: int| rs[sorted@[q].1 as int]),
        decreases remove_count - k,
    {
        let ghost j = choose|j: int| 0 <= j < rs.len() && #[trigger] sorted@[k as int] == numbered(rs)[j];
        assert(numbered(rs)[j] == (gen_number(rs[j]).unwrap(), j as usize));
        assert(sorted@[k as int].1 == j);
        let index = sorted[k].1;
        let copy = owned(retired[index].as_str());
        assert(copy@ == rs[index as int]);
        let ghost before = texts(out@);
        out.push(copy);
        assert(texts(out@) =~= before.push(rs[index as int]));
        assert(texts(out@) =~= Seq::new((k + 1) as nat, |q: int| rs[sorted@[q].1 as int]));
        k = k + 1;
    }
    Ok(out)
}

/// Whether a retired generation may be removed: no live resolution pins,
/// and a recorded retirement time (a signed decimal) at least the safety
/// period before `now_ms`; a missing clock reading keeps it.
pub fn generation_removable(
    live_pins: i64,
    retired_at: Option<&str>,
    now_ms: Option<i64>,
    rollback_safety_ms: i64,
) -> (r: bool)
    ensures
        r == (live_pins == 0 && match retired_at {
            Some(t) => match parse_i64_spec(t@) {
                Some(at) => match now_ms {
                    Some(now) => now >= clamp_i64(at + rollback_safety_ms),
                    None => false,
                },
                None => false,
            },
            None => false,
        }),
{
    let safety_elapsed = match retired_at {
        Some(t) => {
            let cs = chars_of(t);
            match parse_i64(cs.as_slice()) {
                Some(at) => match now_ms {
                    Some(now) => now >= saturating_add_i64(at, rollback_safety_ms),
                    None => false,
                },
                None => false,
            }
        },
        None => false,
    };
    live_pins == 0 && safety_elapsed
}

// ---------------------------------------------------------------------
// Partial generations.

/// The owner record names this run and token.
pub open spec fn owns_partial(owner: PartialGenerationOwner, run: MaintenanceRun, fencing_token: i64) -> bool {
    &&& owner.run_id@ == run.run_id@
    &&& owner.owner_id@ == run.owner_id@
    &&& owner.owner_pid == run.owner_pid
    &&& owner.fencing_token == fencing_token
}

/// Whether an existing partial generation at `partial` may be discarded
/// and recreated by this run: its owner record must be readable
/// (`owner`), and name this run and token unless its owner process is
/// dead.
pub fn check_partial_owner(
    owner: Option<&PartialGenerationOwner>,
    owner_dead: bool,
    partial: &str,
    run: &MaintenanceRun,
    fencing_token: i64,
) -> (r: Result<(), GenerationError>)
    ensures
        r is Ok <==> match owner {
            Some(o) => owns_partial(*o, *run, fencing_token) || owner_dead,
            None => false,
        },
        r matches Err(e) ==> (e matches GenerationError::PartialOwned(p) && p@ == partial@),
{
    match owner {
        None => Err(GenerationError::PartialOwned(owned(partial))),
        Some(o) => {
            let same = str_eq(o.run_id.as_str(), run.run_id.as_str()) && str_eq(
                o.owner_id.as_str(),
                run.owner_id.as_str(),
            ) && o.owner_pid == run.owner_pid && o.fencing_token == fencing_token;
            if !same && !owner_dead {
                Err(GenerationError::PartialOwned(owned(partial)))
            } else {
                Ok(())
            }
        },
    }
}

/// The owner record a run writes into a partial generation it creates:
/// its identity and token, expiring one lease after `now_ms` (saturating).
pub fn partial_owner_record(run: &MaintenanceRun, fencing_token: i64, now_ms: i64) -> (r: PartialGenerationOwner)
    ensures
        r.run_id@ == run.run_id@,
        r.owner_id@ == run.owner_id@,
        r.owner_pid == run.owner_pid,
        r.fencing_token == fencing_token,
        r.expires_at == clamp_i64(now_ms + run.lease_duration_ms),
{
    PartialGenerationOwner {
        run_id: owned(run.run_id.as_str()),
        owner_id: owned(run.owner_id.as_str()),
        owner_pid: run.owner_pid,
        fencing_token,
        expires_at: saturating_add_i64(now_ms, run.lease_duration_ms),
    }
}

/// Whether an owner record left in the current generation marks a
/// publication still to finish (the record of layout creation does not).
pub fn owner_marks_publication(owner_run_id: &str) -> (r: bool)
    ensures
        r == (owner_run_id@ != "layout-create"@),
{
    !str_eq(owner_run_id, "layout-create")
}


// ---------------------------------------------------------------------
// Logical copy.

/// `s` with every double quote doubled.
pub open spec fn doubled_quotes(s: Seq<char>) -> Seq<char>
    decreases s.len(),
{
    if s.len() == 0 {
        seq![]
    } else {
        doubled_quotes(s.drop_last()) + if s.last() == '"' {
            seq!['"', '"']
        } else {
            seq![s.last()]
        }
    }
}

/// An SQL identifier in double quotes, its own quotes doubled.
pub open spec fn quoted_identifier(s: Seq<char>) -> Seq<char> {
    seq!['"'] + doubled_quotes(s) + seq!['"']
}

/// Quotes an SQL identifier.
pub fn quote_identifier(value: &str) -> (r: String)
    ensures
        r@ == quoted_identifier(value@),
{
    let cs = chars_of(value);
    let mut out = String::new();
    push_char(&mut out, '"');
    let mut i: usize = 0;
    while i < cs.len()
        invariant
            i <= cs@.len(),
            cs@ == value@,
            out@ == seq!['"'] + doubled_quotes(cs@.take(i as int)),
        decreases cs@.len() - i,
    {
        let c = cs[i];
        assert(cs@.take(i + 1).drop_last() =~= cs@.take(i as int));
        if c == '"' {
            push_char(&mut out, '"');
            push_char(&mut out, '"');
        } else {
            push_char(&mut out, c);
        }
        assert(out@ =~= seq!['"'] + doubled_quotes(cs@.take(i + 1)));
        i = i + 1;
    }
    push_char(&mut out, '"');
    assert(cs@.take(cs@.len() as int) =~= cs@);
    out
}

/// The parts joined by `sep`.
pub open spec fn joined(parts: Seq<Seq<char>>, sep: Seq<char>) -> Seq<char>
    decreases parts.len(),
{
    if parts.len() == 0 {
        seq![]
    } else if parts.len() == 1 {
        parts[0]
    } else {
        joined(parts.drop_last(), sep) + sep + parts.last()
    }
}

/// Joins the texts of `parts` with `sep`.
pub fn join_strings(parts: &Vec<String>, sep: &str) -> (r: String)
    ensures
        r@ == joined(texts(parts@), sep@),
{
    let ghost ts = texts(parts@);
    let mut out = String::new();
    let mut i: usize = 0;
    while i < parts.len()
        invariant
            i <= parts@.len(),
            ts == texts(parts@),
            ts.len() == parts@.len(),
            out@ == joined(ts.take(i as int), sep@),
        decreases parts@.len() - i,
    {
        assert(ts[i as int] == parts@[i as int]@);
        assert(ts.take(i + 1).drop_last() =~= ts.take(i as int));
        if i > 0 {
            push_str(&mut out, sep);
        }
        push_str(&mut out, parts[i].as_str());
        proof {
            if i == 0 {
                assert(out@ =~= ts.take(1)[0]);
            } else {
                assert(out@ =~= joined(ts.take(i as int), sep@) + sep@ + ts.take(i + 1).last());
            }
        }
        i = i + 1;
    }
    assert(ts.take(ts.len() as int) =~= ts);
    out
}

/// One column of a table, as `PRAGMA table_info` lists it.
#[derive(Debug, Clone, PartialEq, Eq)]
pub struct TableColumn {
    pub name: String,
    pub primary_key: i64,
}

/// The statements that copy one table in windows: the windowed select
/// (ordered by the primary key, or by every column), the insert, and,
/// when conflicts are ignored, the lookup by primary key that checks a
/// skipped row; with the primary-key column positions in key order.
#[derive(Debug, Clone, PartialEq, Eq)]
pub struct CopyStatements {
    pub select: String,
    pub insert: String,
    pub lookup: Option<String>,
    pub key_columns: Vec<usize>,
}

/// The quoted names of the columns.
pub open spec fn quoted_columns(cols: Seq<TableColumn>) -> Seq<Seq<char>> {
    Seq::new(cols.len(), |i: int| quoted_identifier(cols[i].name@))
}

/// The primary-key columns among the first `n`: their key position and
/// their index, in column order.
pub open spec fn key_pairs(cols: Seq<TableColumn>, n: int) -> Seq<(u64, usize)>
    decreases n,
{
    if n <= 0 || n > cols.len() {
        seq![]
    } else {
        let before = key_pairs(cols, n - 1);
        if cols[n - 1].primary_key > 0 {
            before.push((cols[n - 1].primary_key as u64, (n - 1) as usize))
        } else {
            before
        }
    }
}

/// The primary-key columns, stably ordered by key position.
pub open spec fn copy_keys(cols: Seq<TableColumn>) -> Seq<(u64, usize)> {
    let ps = key_pairs(cols, cols.len() as int);
    keyed_stable(ps, ps.len() as int)
}

/// The quoted names of the key columns, in key order.
pub open spec fn key_names(cols: Seq<TableColumn>, keys: Seq<(u64, usize)>) -> Seq<Seq<char>> {
    Seq::new(keys.len(), |k: int| quoted_identifier(cols[keys[k].1 as int].name@))
}

/// `?1` to `?n`.
pub open spec fn placeholder_list(n: nat) -> Seq<Seq<char>> {
    Seq::new(n, |i: int| "?"@ + nat_text((i + 1) as nat))
}

/// `key=?k` for each key column, numbered from one.
pub open spec fn lookup_terms(cols: Seq<TableColumn>, keys: Seq<(u64, usize)>) -> Seq<Seq<char>> {
    Seq::new(
        keys.len(),
        |k: int| quoted_identifier(cols[keys[k].1 as int].name@) + "=?"@ + nat_text((k + 1) as nat),
    )
}

/// The windowed select of a table.
pub open spec fn select_text(table: Seq<char>, cols: Seq<TableColumn>) -> Seq<char> {
    let column_list = joined(quoted_columns(cols), ","@);
    let keys = copy_keys(cols);
    let order = if keys.len() == 0 {
        column_list
    } else {
        joined(key_names(cols, keys), ","@)
    };
    "SELECT "@ + column_list + " FROM "@ + quoted_identifier(table) + " ORDER BY "@ + order
        + " LIMIT ?1 OFFSET ?2"@
}

/// The insert of one row.
pub open spec fn insert_text(table: Seq<char>, cols: Seq<TableColumn>, ignore_conflicts: bool) -> Seq<char> {
    let mode = if ignore_conflicts { "INSERT OR IGNORE"@ } else { "INSERT"@ };
    mode + " INTO "@ + quoted_identifier(table) + "("@ + joined(quoted_columns(cols), ","@)
        + ") VALUES ("@ + joined(placeholder_list(cols.len()), ","@) + ")"@
}

/// The lookup by primary key, when conflicts are ignored and there is a
/// key.
pub open spec fn lookup_text(table: Seq<char>, cols: Seq<TableColumn>, ignore_conflicts: bool) -> Option<
    Seq<char>,
> {
    let keys = copy_keys(cols);
    if ignore_conflicts && keys.len() > 0 {
        Some(
            "SELECT "@ + joined(quoted_columns(cols), ","@) + " FROM "@ + quoted_identifier(table)
                + " WHERE "@ + joined(lookup_terms(cols, keys), " AND "@),
        )
    } else {
        None
    }
}

proof fn lemma_key_pairs(cols: Seq<TableColumn>, n: int)
    requires
        0 <= n <= cols.len(),
    ensures
        key_pairs(cols, n).len() <= n,
        forall|k: int| 0 <= k < key_pairs(cols, n).len() ==> (#[trigger] key_pairs(cols, n)[k]).1 < n,
    decreases n,
{
    if n > 0 {
        lemma_key_pairs(cols, n - 1);
    }
}

proof fn lemma_copy_keys(cols: Seq<TableColumn>)
    ensures
        forall|k: int| 0 <= k < copy_keys(cols).len() ==> (#[trigger] copy_keys(cols)[k]).1 < cols.len(),
{
    let ps = key_pairs(cols, cols.len() as int);
    lemma_key_pairs(cols, cols.len() as int);
    lemma_keyed_stable(ps, ps.len() as int);
    assert forall|k: int| 0 <= k < copy_keys(cols).len() implies (#[trigger] copy_keys(cols)[k]).1 < cols.len() by {
        let j = choose|j: int| 0 <= j < ps.len() && #[trigger] keyed_stable(ps, ps.len() as int)[k] == ps[j];
        assert(ps[j].1 < cols.len());
    }
}

/// The quoted names of the given columns, by position.
fn quoted_names(columns: &Vec<TableColumn>, positions: &Vec<(u64, usize)>) -> (r: Vec<String>)
    requires
        forall|k: int| 0 <= k < positions@.len() ==> (#[trigger] positions@[k]).1 < columns@.len(),
    ensures
        texts(r@) == key_names(columns@, positions@),
{
    let mut out: Vec<String> = Vec::new();
    let mut k: usize = 0;
    while k < positions.len()
        invariant
            k <= positions@.len(),
            forall|q: int| 0 <= q < positions@.len() ==> (#[trigger] positions@[q]).1 < columns@.len(),
            texts(out@) == key_names(columns@, positions@).take(k as int),
        decreases positions@.len() - k,
    {
        let name = quote_identifier(columns[positions[k].1].name.as_str());
        let ghost before = texts(out@);
        out.push(name);
        assert(texts(out@) =~= before.push(name@));
        assert(texts(out@) =~= key_names(columns@, positions@).take(k + 1));
        k = k + 1;
    }
    assert(key_names(columns@, positions@).take(k as int) =~= key_names(columns@, positions@));
    out
}

/// The statements that copy `table` with `columns` in windows; none when
/// the table has no columns.
pub fn copy_statements(table: &str, columns: &Vec<TableColumn>, ignore_conflicts: bool) -> (r: Option<
    CopyStatements,
>)
    ensures
        match r {
            None => columns@.len() == 0,
            Some(st) => {
                &&& columns@.len() > 0
                &&& st.select@ == select_text(table@, columns@)
                &&& st.insert@ == insert_text(table@, columns@, ignore_conflicts)
                &&& opt_str(st.lookup) == lookup_text(table@, columns@, ignore_conflicts)
                &&& st.key_columns@ == Seq::new(copy_keys(columns@).len(), |k: int| copy_keys(columns@)[k].1)
            },
        },
{
    if columns.len() == 0 {
        return None;
    }
    proof {
        reveal_strlit(",");
        reveal_strlit("SELECT ");
        reveal_strlit(" FROM ");
        reveal_strlit(" ORDER BY ");
        reveal_strlit(" LIMIT ?1 OFFSET ?2");
        reveal_strlit("INSERT OR IGNORE");
        reveal_strlit("INSERT");
        reveal_strlit(" INTO ");
        reveal_strlit("(");
        reveal_strlit(") VALUES (");
        reveal_strlit(")");
        reveal_strlit(" WHERE ");
        reveal_strlit(" AND ");
        reveal_strlit("=?");
        reveal_strlit("?");
    }
    // Column names and the primary-key order.
    let mut all: Vec<(u64, usize)> = Vec::new();
    let mut pairs: Vec<(u64, usize)> = Vec::new();
    let mut i: usize = 0;
    while i < columns.len()
        invariant
            i <= columns@.len(),
            all@ == Seq::new(i as nat, |q: int| (0u64, q as usize)),
            pairs@ == key_pairs(columns@, i as int),
        decreases columns@.len() - i,
    {
        all.push((0, i));
        assert(all@ =~= Seq::new((i + 1) as nat, |q: int| (0u64, q as usize)));
        if columns[i].primary_key > 0 {
            pairs.push((columns[i].primary_key as u64, i));
        }
        i = i + 1;
    }
    let names = quoted_names(columns, &all);
    assert(key_names(columns@, all@) =~= quoted_columns(columns@));
    let column_list = join_strings(&names, ",");
    let keys = stable_sort_keyed(&pairs);
    proof {
        lemma_copy_keys(columns@);
        assert(keys@ == copy_keys(columns@));
    }
    let table_name = quote_identifier(table);
    let order = if keys.len() == 0 {
        owned(column_list.as_str())
    } else {
        let key_list = quoted_names(columns, &keys);
        join_strings(&key_list, ",")
    };
    let mut select = String::new();
    push_str(&mut select, "SELECT ");
    push_str(&mut select, column_list.as_str());
    push_str(&mut select, " FROM ");
    push_str(&mut select, table_name.as_str());
    push_str(&mut select, " ORDER BY ");
    push_str(&mut select, order.as_str());
    push_str(&mut select, " LIMIT ?1 OFFSET ?2");
    // The placeholders ?1..?n.
    let mut marks: Vec<String> = Vec::new();
    let mut p: usize = 0;
    while p < columns.len()
        invariant
            p <= columns@.len(),
            texts(marks@) == placeholder_list(columns@.len()).take(p as int),
        decreases columns@.len() - p,
    {
        let mut mark = String::new();
        push_str(&mut mark, "?");
        let digits = u64_text((p + 1) as u64);
        crate::text::push_chars(&mut mark, digits.as_slice());
        let ghost before = texts(marks@);
        marks.push(mark);
        assert(texts(marks@) =~= before.push(mark@));
        assert(texts(marks@) =~= placeholder_list(columns@.len()).take(p + 1));
        p = p + 1;
    }
    assert(placeholder_list(columns@.len()).take(p as int) =~= placeholder_list(columns@.len()));
    let placeholders = join_strings(&marks, ",");
    let mut insert = String::new();
    if ignore_conflicts {
        push_str(&mut insert, "INSERT OR IGNORE");
    } else {
        push_str(&mut insert, "INSERT");
    }
    push_str(&mut insert, " INTO ");
    push_str(&mut insert, table_name.as_str());
    push_str(&mut insert, "(");
    push_str(&mut insert, column_list.as_str());
    push_str(&mut insert, ") VALUES (");
    push_str(&mut insert, placeholders.as_str());
    push_str(&mut insert, ")");
    let lookup = if ignore_conflicts && keys.len() > 0 {
        let mut terms: Vec<String> = Vec::new();
        let mut k: usize = 0;
        while k < keys.len()
            invariant
                k <= keys@.len(),
                keys@ == copy_keys(columns@),
                forall|q: int| 0 <= q < keys@.len() ==> (#[trigger] keys@[q]).1 < columns@.len(),
                texts(terms@) == lookup_terms(columns@, keys@).take(k as int),
            decreases keys@.len() - k,
        {
            let mut term = quote_identifier(columns[keys[k].1].name.as_str());
            push_str(&mut term, "=?");
            let digits = u64_text((k + 1) as u64);
            crate::text::push_chars(&mut term, digits.as_slice());
            let ghost before = texts(terms@);
            terms.push(term);
            assert(texts(terms@) =~= before.push(term@));
            assert(texts(terms@) =~= lookup_terms(columns@, keys@).take(k + 1));
            k = k + 1;
        }
        assert(lookup_terms(columns@, keys@).take(k as int) =~= lookup_terms(columns@, keys@));
        let conditions = join_strings(&terms, " AND ");
        let mut text = String::new();
        push_str(&mut text, "SELECT ");
        push_str(&mut text, column_list.as_str());
        push_str(&mut text, " FROM ");
        push_str(&mut text, table_name.as_str());
        push_str(&mut text, " WHERE ");
        push_str(&mut text, conditions.as_str());
        Some(text)
    } else {
        None
    };
    let mut key_columns: Vec<usize> = Vec::new();
    let mut k: usize = 0;
    while k < keys.len()
        invariant
            k <= keys@.len(),
            key_columns@ == Seq::new(k as nat, |q: int| keys@[q].1),
        decreases keys@.len() - k,
    {
        key_columns.push(keys[k].1);
        assert(key_columns@ =~= Seq::new((k + 1) as nat, |q: int| keys@[q].1));
        k = k + 1;
    }
    Some(CopyStatements { select, insert, lookup, key_columns })
}

/// The text an optional string holds.
pub open spec fn opt_str(o: Option<String>) -> Option<Seq<char>> {
    match o {
        Some(s) => Some(s@),
        None => None,
    }
}


/// How far the windowed copy of one table has come: rows copied, the
/// largest window seen, and the offset of the next window.
#[derive(Debug, Clone, Copy, PartialEq, Eq)]
pub struct TableCopyProgress {
    pub rows: usize,
    pub max_observed_window: usize,
    pub offset: i64,
}

impl TableCopyProgress {
    pub fn new() -> (r: Self)
        ensures
            r.rows == 0,
            r.max_observed_window == 0,
            r.offset == 0,
    {
        TableCopyProgress { rows: 0, max_observed_window: 0, offset: 0 }
    }

    /// Records a copied window of `row_count` rows: the largest window
    /// grows to it, the rows add up, and the offset moves past it, which
    /// fails when it leaves the `i64` range.
    pub fn record_window(&mut self, row_count: usize) -> (r: Result<(), GenerationError>)
        requires
            old(self).rows + row_count <= usize::MAX,
        ensures
            final(self).max_observed_window == if row_count > old(self).max_observed_window {
                row_count
            } else {
                old(self).max_observed_window
            },
            final(self).rows == old(self).rows + row_count,
            r is Ok <==> i64::MIN <= old(self).offset + (row_count as i64) <= i64::MAX,
            r is Ok ==> final(self).offset == old(self).offset + (row_count as i64),
            r is Err ==> (r matches Err(GenerationError::GenerationOverflow) && final(self).offset
                == old(self).offset),
    {
        if row_count > self.max_observed_window {
            self.max_observed_window = row_count;
        }
        self.rows = self.rows + row_count;
        match self.offset.checked_add(row_count as i64) {
            Some(next) => {
                self.offset = next;
                Ok(())
            },
            None => Err(GenerationError::GenerationOverflow),
        }
    }
}

/// What a logical copy of a whole generation copied.
#[derive(Debug, Clone, Copy, PartialEq, Eq, Default)]
pub struct CopyCounts {
    pub rows: usize,
    pub file_versions: usize,
    pub max_observed_window: usize,
}

impl CopyCounts {
    pub fn new() -> (r: Self)
        ensures
            r.rows == 0,
            r.file_versions == 0,
            r.max_observed_window == 0,
    {
        CopyCounts { rows: 0, file_versions: 0, max_observed_window: 0 }
    }

    /// Adds the copy of `table`: its rows count, its largest window
    /// counts, and for `file_versions` its rows are the copied versions.
    pub fn add_table(&mut self, table: &str, copied: &TableCopyProgress)
        requires
            old(self).rows + copied.rows <= usize::MAX,
        ensures
            final(self).rows == old(self).rows + copied.rows,
            final(self).max_observed_window == if copied.max_observed_window > old(
                self,
            ).max_observed_window {
                copied.max_observed_window
            } else {
                old(self).max_observed_window
            },
            final(self).file_versions == if table@ == "file_versions"@ {
                copied.rows
            } else {
                old(self).file_versions
            },
    {
        self.rows = self.rows + copied.rows;
        if copied.max_observed_window > self.max_observed_window {
            self.max_observed_window = copied.max_observed_window;
        }
        if str_eq(table, "file_versions") {
            self.file_versions = copied.rows;
        }
    }
}

/// A table of the retired resolution store.
pub open spec fn retired_resolution_table(table: Seq<char>) -> bool {
    crate::text::has_prefix(table, "resolution_"@)
}

pub fn is_retired_resolution_table(table: &str) -> (r: bool)
    ensures
        r == retired_resolution_table(table@),
{
    let cs = chars_of(table);
    let prefix = chars_of("resolution_");
    crate::text::starts_with(cs.as_slice(), prefix.as_slice())
}

/// The texts among the first `n` that `keep` accepts, in order.
pub open spec fn kept(ts: Seq<Seq<char>>, n: int, keep: spec_fn(Seq<char>) -> bool) -> Seq<Seq<char>>
    decreases n,
{
    if n <= 0 || n > ts.len() {
        seq![]
    } else {
        let before = kept(ts, n - 1, keep);
        if keep(ts[n - 1]) {
            before.push(ts[n - 1])
        } else {
            before
        }
    }
}

/// A table a logical copy carries over: any but the metadata table and
/// the retired resolution tables.
pub open spec fn copied_table(t: Seq<char>) -> bool {
    t != "store_meta"@ && !retired_resolution_table(t)
}

/// A table a rollback merges from the selected generation: any but the
/// metadata, views, manifests, log and chunk tables, and the retired
/// resolution tables.
pub open spec fn merged_table(t: Seq<char>) -> bool {
    &&& t != "store_meta"@
    &&& t != "views"@
    &&& t != "manifests"@
    &&& t != "manifest_entries"@
    &&& t != "store_log"@
    &&& t != "request_chunks"@
    &&& !retired_resolution_table(t)
}

/// The tables a logical copy carries over, in order.
pub fn copied_tables(tables: &Vec<String>) -> (r: Vec<String>)
    ensures
        texts(r@) == kept(texts(tables@), tables@.len() as int, |t: Seq<char>| copied_table(t)),
{
    let ghost ts = texts(tables@);
    let mut out: Vec<String> = Vec::new();
    let mut i: usize = 0;
    while i < tables.len()
        invariant
            i <= tables@.len(),
            ts == texts(tables@),
            texts(out@) == kept(ts, i as int, |t: Seq<char>| copied_table(t)),
        decreases tables@.len() - i,
    {
        assert(ts[i as int] == tables@[i as int]@);
        let t = tables[i].as_str();
        if !str_eq(t, "store_meta") && !is_retired_resolution_table(t) {
            let copy = owned(t);
            let ghost before = texts(out@);
            out.push(copy);
            assert(texts(out@) =~= before.push(ts[i as int]));
        }
        i = i + 1;
    }
    out
}

/// The tables a rollback merges from the selected generation, in order.
pub fn merged_tables(tables: &Vec<String>) -> (r: Vec<String>)
    ensures
        texts(r@) == kept(texts(tables@), tables@.len() as int, |t: Seq<char>| merged_table(t)),
{
    let ghost ts = texts(tables@);
    let mut out: Vec<String> = Vec::new();
    let mut i: usize = 0;
    while i < tables.len()
        invariant
            i <= tables@.len(),
            ts == texts(tables@),
            texts(out@) == kept(ts, i as int, |t: Seq<char>| merged_table(t)),
        decreases tables@.len() - i,
    {
        assert(ts[i as int] == tables@[i as int]@);
        let t = tables[i].as_str();
        let excluded = str_eq(t, "store_meta") || str_eq(t, "views") || str_eq(t, "manifests")
            || str_eq(t, "manifest_entries") || str_eq(t, "store_log") || str_eq(t, "request_chunks");
        if !excluded && !is_retired_resolution_table(t) {
            let copy = owned(t);
            let ghost before = texts(out@);
            out.push(copy);
            assert(texts(out@) =~= before.push(ts[i as int]));
        }
        i = i + 1;
    }
    out
}

/// The metadata rows a new generation takes from its source, among the
/// first `n`: every key but the generation state and the temporary
/// maintenance mirrors, with the writer floor replaced by the source's
/// floor from before maintenance.
pub open spec fn copied_metadata(rows: Seq<(String, String)>, n: int, floor: Seq<char>) -> Seq<
    (Seq<char>, Seq<char>),
>
    decreases n,
{
    if n <= 0 || n > rows.len() {
        seq![]
    } else {
        let before = copied_metadata(rows, n - 1, floor);
        let key = rows[n - 1].0@;
        if key == "generation_state"@ || crate::text::has_prefix(key, "maintenance_tmp_"@) {
            before
        } else if key == "min_writer_version"@ {
            before.push((key, floor))
        } else {
            before.push((key, rows[n - 1].1@))
        }
    }
}

/// The texts of a list of key-value rows.
pub open spec fn row_texts(rows: Seq<(String, String)>) -> Seq<(Seq<char>, Seq<char>)> {
    rows.map_values(|r: (String, String)| (r.0@, r.1@))
}

/// The metadata rows to upsert into a new generation.
pub fn copied_metadata_rows(rows: &Vec<(String, String)>, source_min_writer_version: &str) -> (r: Vec<
    (String, String),
>)
    ensures
        row_texts(r@) == copied_metadata(rows@, rows@.len() as int, source_min_writer_version@),
{
    let prefix = chars_of("maintenance_tmp_");
    let mut out: Vec<(String, String)> = Vec::new();
    let mut i: usize = 0;
    while i < rows.len()
        invariant
            i <= rows@.len(),
            prefix@ == "maintenance_tmp_"@,
            row_texts(out@) == copied_metadata(rows@, i as int, source_min_writer_version@),
        decreases rows@.len() - i,
    {
        let key = rows[i].0.as_str();
        let key_chars = chars_of(key);
        let temporary = crate::text::starts_with(key_chars.as_slice(), prefix.as_slice());
        if !str_eq(key, "generation_state") && !temporary {
            let value = if str_eq(key, "min_writer_version") {
                owned(source_min_writer_version)
            } else {
                owned(rows[i].1.as_str())
            };
            let entry = (owned(key), value);
            let ghost before = row_texts(out@);
            out.push(entry);
            assert(row_texts(out@) =~= before.push((entry.0@, entry.1@)));
        }
        i = i + 1;
    }
    out
}

/// The autoincrement table an allocator mark raises, if any.
pub fn allocator_sequence_table(kind: &str) -> (r: Option<&'static str>)
    ensures
        kind@ == "file_version"@ ==> (r matches Some(t) && t@ == "file_versions"@),
        kind@ == "store_log"@ ==> (r matches Some(t) && t@ == "store_log"@),
        kind@ != "file_version"@ && kind@ != "store_log"@ ==> r is None,
{
    proof {
        reveal_strlit("file_versions");
        reveal_strlit("file_version");
        reveal_strlit("store_log");
    }
    if str_eq(kind, "file_version") {
        Some("file_versions")
    } else if str_eq(kind, "store_log") {
        Some("store_log")
    } else {
        None
    }
}

// ---------------------------------------------------------------------
// The plan of a generation build.

/// What a build that publishes a new generation works from and towards:
/// the generation it copies, the one it builds (the new value of
/// `CURRENT` once published), the hidden directory it stages in, the
/// generation a rollback takes rows from, and the tables it copies and
/// merges.
#[derive(Debug, Clone, PartialEq, Eq)]
pub struct GenerationBuildPlan {
    pub source_generation: String,
    pub destination_generation: String,
    pub partial_name: String,
    pub selected_generation: Option<String>,
    pub copied_tables: Vec<String>,
    pub merged_tables: Vec<String>,
}

/// The name of the hidden directory a generation is staged in.
pub open spec fn partial_text(destination: Seq<char>) -> Seq<char> {
    "."@ + destination + ".partial"@
}

/// The first rule a generation policy breaks, as the field and the value
/// reported.
pub open spec fn policy_fault(p: GenerationPolicy) -> Option<(Seq<char>, usize)> {
    if p.copy_window == 0 || p.copy_window > 2_000 {
        Some(("copy_window"@, p.copy_window))
    } else if p.retained_generation_limit == 0 {
        Some(("retained_generation_limit"@, 0usize))
    } else if p.rollback_safety_ms < 0 {
        Some(("rollback_safety_ms"@, magnitude(p.rollback_safety_ms) as usize))
    } else {
        None
    }
}

/// Whether `e` reports the broken policy rule `f`.
pub open spec fn reports_policy_fault(e: GenerationError, f: (Seq<char>, usize)) -> bool {
    e matches GenerationError::InvalidPolicy { field, value } && field@ == f.0 && value == f.1
}

/// Whether `plan` builds generation `destination` from `current`, with
/// the tables of `tables` that a copy carries over and, for a rollback
/// from `selected`, those it merges.
pub open spec fn plans_build(
    plan: GenerationBuildPlan,
    current: Seq<char>,
    destination: Seq<char>,
    tables: Seq<String>,
    selected: Option<Seq<char>>,
) -> bool {
    &&& plan.source_generation@ == current
    &&& plan.destination_generation@ == destination
    &&& plan.partial_name@ == partial_text(destination)
    &&& opt_str(plan.selected_generation) == selected
    &&& texts(plan.copied_tables@) == kept(texts(tables), tables.len() as int, |t: Seq<char>| copied_table(t))
    &&& texts(plan.merged_tables@) == (if selected is Some {
        kept(texts(tables), tables.len() as int, |t: Seq<char>| merged_table(t))
    } else {
        seq![]
    })
}

/// What a build's checks give: the policy's first broken rule, else the
/// first name that is no generation name, else an overflow of the
/// numbering, else the plan of a build into the generation after every
/// named one.
pub open spec fn build_outcome(
    r: Result<GenerationBuildPlan, GenerationError>,
    p: GenerationPolicy,
    current: Seq<char>,
    names: Seq<String>,
    tables: Seq<String>,
    selected: Option<Seq<char>>,
) -> bool {
    match policy_fault(p) {
        Some(f) => r matches Err(e) && reports_policy_fault(e, f),
        None => match first_unnumbered(texts(names), 0) {
            Some(i) => r matches Err(GenerationError::InvalidGenerationName(v)) && v@ == names[i]@,
            None => {
                let m = max_number(texts(names), names.len() as int);
                if m + 1 > u64::MAX {
                    r matches Err(GenerationError::GenerationOverflow)
                } else {
                    r matches Ok(plan) && plans_build(plan, current, gen_name(m + 1), tables, selected)
                }
            },
        },
    }
}

/// The checks and plan of a build from `current`, merging from `selected`
/// when it is a rollback.
fn build_plan(
    policy: &GenerationPolicy,
    current: &str,
    names: &Vec<String>,
    tables: &Vec<String>,
    selected: Option<&str>,
) -> (r: Result<GenerationBuildPlan, GenerationError>)
    ensures
        build_outcome(
            r,
            *policy,
            current@,
            names@,
            tables@,
            match selected {
                Some(s) => Some(s@),
                None => None,
            },
        ),
{
    proof {
        reveal_strlit("copy_window");
        reveal_strlit("retained_generation_limit");
        reveal_strlit("rollback_safety_ms");
    }
    match validate_policy(policy) {
        Ok(()) => {},
        Err(e) => {
            return Err(e);
        },
    }
    let destination = next_generation_name(names)?;
    let mut partial = String::new();
    push_str(&mut partial, ".");
    push_str(&mut partial, destination.as_str());
    push_str(&mut partial, ".partial");
    proof {
        reveal_strlit(".");
        reveal_strlit(".partial");
    }
    let copied = copied_tables(tables);
    let (selected_generation, merged) = match selected {
        Some(s) => (Some(owned(s)), merged_tables(tables)),
        None => (None, Vec::new()),
    };
    proof {
        if selected is None {
            assert(texts(merged@) =~= seq![]);
        }
    }
    Ok(
        GenerationBuildPlan {
            source_generation: owned(current),
            destination_generation: destination,
            partial_name: partial,
            selected_generation,
            copied_tables: copied,
            merged_tables: merged,
        },
    )
}

// The lifecycle of one generation action.

/// A generation action under way: promotion, rollback or repair.
#[derive(Debug, Clone, Copy, PartialEq, Eq)]
pub struct GenerationLifecycle {
    action: MaintenanceAction,
}

impl View for GenerationLifecycle {
    type V = MaintenanceAction;

    closed spec fn view(&self) -> MaintenanceAction {
        self.action
    }
}

/// What a repair does next.
#[derive(Debug, Clone, Copy, PartialEq, Eq, Structural)]
pub enum RepairStep {
    /// Checkpoint and vacuum the current generation, then check it.
    Checkpoint,
    /// Build and publish a new generation, ending as the disposition says.
    Rebuild(RepairDisposition),
    /// The checked generation is sound: the repair is done.
    Finished(RepairDisposition),
}

impl GenerationLifecycle {
    /// A lifecycle for `action`; garbage collection is no generation
    /// action.
    pub fn for_action(action: MaintenanceAction) -> (r: Result<Self, GenerationError>)
        ensures
            action == MaintenanceAction::Gc ==> (r matches Err(GenerationError::InvalidAction(a)) && a
                == action),
            action != MaintenanceAction::Gc ==> (r matches Ok(l) && l@ == action),
    {
        if action == MaintenanceAction::Gc {
            return Err(GenerationError::InvalidAction(action));
        }
        Ok(GenerationLifecycle { action })
    }

    pub fn action(&self) -> (r: MaintenanceAction)
        ensures
            r == self@,
    {
        self.action
    }

    /// A promotion (or the rebuild of a repair): after the action and the
    /// policy are checked, the plan of a build from `current_generation` to
    /// the generation after every one in `generation_names`, copying the
    /// carried-over tables of `store_tables`.
    pub fn promote(
        &self,
        policy: &GenerationPolicy,
        current_generation: &str,
        generation_names: &Vec<String>,
        store_tables: &Vec<String>,
    ) -> (r: Result<GenerationBuildPlan, GenerationError>)
        ensures
            !(self@ == MaintenanceAction::Promote || self@ == MaintenanceAction::Repair) ==> (r matches Err(
                GenerationError::InvalidAction(a),
            ) && a == self@),
            (self@ == MaintenanceAction::Promote || self@ == MaintenanceAction::Repair) ==> build_outcome(
                r,
                *policy,
                current_generation@,
                generation_names@,
                store_tables@,
                None,
            ),
    {
        if !(self.action == MaintenanceAction::Promote || self.action == MaintenanceAction::Repair) {
            return Err(GenerationError::InvalidAction(self.action));
        }
        build_plan(policy, current_generation, generation_names, store_tables, None)
    }

    /// A rollback to `selected_generation`, whose recorded state is
    /// `selected_state`: the action must be a rollback, the selected name a
    /// generation name, and the selected generation another one than the
    /// current and retired; then the plan of a build that also merges the
    /// selected generation's rows.
    pub fn rollback(
        &self,
        policy: &GenerationPolicy,
        current_generation: &str,
        selected_generation: &str,
        selected_state: &str,
        generation_names: &Vec<String>,
        store_tables: &Vec<String>,
    ) -> (r: Result<GenerationBuildPlan, GenerationError>)
        ensures
            self@ != MaintenanceAction::Rollback ==> (r matches Err(GenerationError::InvalidAction(a)) && a
                == self@),
            self@ == MaintenanceAction::Rollback && !is_generation_name(selected_generation@) ==> (r matches Err(
                GenerationError::Layout(StoreLayoutError::InvalidGeneration { value }),
            ) && value@ == selected_generation@),
            self@ == MaintenanceAction::Rollback && is_generation_name(selected_generation@) && (
            selected_generation@ == current_generation@ || selected_state@ != "retired"@) ==> (r matches Err(
                GenerationError::Validation { check, detail },
            ) && check@ == "rollback_generation_state"@ && detail@ == selected_generation@),
            self@ == MaintenanceAction::Rollback && is_generation_name(selected_generation@)
                && selected_generation@ != current_generation@ && selected_state@ == "retired"@
                ==> build_outcome(
                r,
                *policy,
                current_generation@,
                generation_names@,
                store_tables@,
                Some(selected_generation@),
            ),
    {
        proof {
            reveal_strlit("rollback_generation_state");
        }
        if self.action != MaintenanceAction::Rollback {
            return Err(GenerationError::InvalidAction(self.action));
        }
        if !valid_generation_name(selected_generation) {
            return Err(
                GenerationError::Layout(StoreLayoutError::InvalidGeneration { value: owned(selected_generation) }),
            );
        }
        if str_eq(selected_generation, current_generation) || !str_eq(selected_state, "retired") {
            return Err(
                GenerationError::Validation {
                    check: "rollback_generation_state",
                    detail: owned(selected_generation),
                },
            );
        }
        build_plan(policy, current_generation, generation_names, store_tables, Some(selected_generation))
    }

    /// The first step of a repair: a torn state (an owner record in the
    /// current generation, or a named successor) is rebuilt; otherwise the
    /// current generation is checkpointed and checked.
    pub fn repair(&self, torn: bool) -> (r: Result<RepairStep, GenerationError>)
        ensures
            self@ != MaintenanceAction::Repair ==> (r matches Err(GenerationError::InvalidAction(a)) && a
                == self@),
            self@ == MaintenanceAction::Repair ==> r == Ok::<RepairStep, GenerationError>(
                if torn {
                    RepairStep::Rebuild(RepairDisposition::TornStateRecovered)
                } else {
                    RepairStep::Checkpoint
                },
            ),
    {
        if self.action != MaintenanceAction::Repair {
            return Err(GenerationError::InvalidAction(self.action));
        }
        if torn {
            Ok(RepairStep::Rebuild(RepairDisposition::TornStateRecovered))
        } else {
            Ok(RepairStep::Checkpoint)
        }
    }

    /// The step after a checkpoint: a sound generation finishes the
    /// repair; otherwise it is rebuilt, when a promotion fits.
    pub fn repair_after_checkpoint(&self, valid: bool, promotion_fits: bool) -> (r: Result<
        RepairStep,
        GenerationError,
    >)
        ensures
            valid ==> r == Ok::<RepairStep, GenerationError>(
                RepairStep::Finished(RepairDisposition::CheckpointRecovered),
            ),
            !valid && !promotion_fits ==> (r matches Err(
                GenerationError::Maintenance(MaintenanceError::CapacityInsufficient),
            )),
            !valid && promotion_fits ==> r == Ok::<RepairStep, GenerationError>(
                RepairStep::Rebuild(RepairDisposition::GenerationRebuilt),
            ),
    {
        if valid {
            return Ok(RepairStep::Finished(RepairDisposition::CheckpointRecovered));
        }
        if !promotion_fits {
            return Err(GenerationError::Maintenance(MaintenanceError::CapacityInsufficient));
        }
        Ok(RepairStep::Rebuild(RepairDisposition::GenerationRebuilt))
    }
}

/// The report of a repair that only checkpointed `generation`.
pub fn checkpoint_report(generation: &str) -> (r: GenerationApplyReport)
    ensures
        r.source_generation@ == generation@,
        r.destination_generation@ == generation@,
        r.selected_generation is None,
        r.copied_file_versions == 0,
        r.copied_rows == 0,
        r.max_observed_copy_window == 0,
        r.copied_base_files == 0,
        r.removed_generations@.len() == 0,
        !r.recovered_partial,
        r.repair_disposition == Some(RepairDisposition::CheckpointRecovered),
{
    GenerationApplyReport {
        source_generation: owned(generation),
        destination_generation: owned(generation),
        selected_generation: None,
        copied_file_versions: 0,
        copied_rows: 0,
        max_observed_copy_window: 0,
        copied_base_files: 0,
        removed_generations: Vec::new(),
        recovered_partial: false,
        repair_disposition: Some(RepairDisposition::CheckpointRecovered),
    }
}

} // verus!

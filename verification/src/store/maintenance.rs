//! Store maintenance planning: which file versions each root protects at
//! each projection level, which historical manifests may be retired, how
//! much logical and physical space the store holds against its retention
//! targets, which versions to demote first, and whether the disk has room
//! for the work.

use vstd::prelude::*;

use crate::json::{sha256, sha256_of};
use crate::num::{
    clamp_i64, clamp_u64, saturating_add_u64, saturating_mul_i64, saturating_mul_u64,
    saturating_sub_i64,
};
use crate::sorted::{insert_sorted, keys, scoped_key_lt, sorted_unique, strictly_sorted, SortedKey};
use crate::store::connection::StoreConnectionError;
use crate::store::coordinator::CoordinatorError;
use crate::text::{
    hex_text, int_text, lemma_text_lt_order, owned, push_char, push_chars, push_hex, push_str,
    scoped_name, scoped_text, str_less, text_lt,
};

verus! {

/// One day in milliseconds.
pub const DAY_MS: i64 = 86_400_000;

/// The most versions one demotion cohort holds.
pub const MAX_DEMOTION_VERSIONS: usize = 100;

/// The most estimated dirty bytes one demotion cohort holds.
pub const MAX_DEMOTION_BYTES: u64 = 67_108_864;

/// The smallest dirty-byte estimate of one demoted version.
pub const MIN_DEMOTION_ESTIMATE: u64 = 4096;

/// Journal space kept free for a generation promotion.
pub const JOURNAL_RETENTION_BYTES: u64 = 268_435_456;

/// Space kept free for a checkpoint.
pub const CHECKPOINT_HEADROOM_BYTES: u64 = 16_777_216;

/// The physical breach streak after which compaction is required.
pub const DEFAULT_PHYSICAL_BREACH_LIMIT: u32 = 3;

#[derive(Debug, Clone, Copy, PartialEq, Eq, Structural, PartialOrd, Ord, Hash)]
pub enum MaintenanceLevel {
    L1,
    L2,
    L3,
}

/// The position of a level: 0 for L1, 1 for L2, 2 for L3.
pub open spec fn level_index(level: MaintenanceLevel) -> int {
    match level {
        MaintenanceLevel::L1 => 0,
        MaintenanceLevel::L2 => 1,
        MaintenanceLevel::L3 => 2,
    }
}

#[derive(Debug, Clone, Copy, PartialEq, Eq, Structural, PartialOrd, Ord, Hash)]
pub enum MaintenanceRootKind {
    CurrentManifest,
    HistoricalManifest,
    RetentionWindow,
    PathCap,
    ResolutionBase,
    IdentifierDeltaSource,
    IdentifierDeltaTarget,
    PendingDeltaSource,
    PendingDeltaTarget,
    ViewBinding,
    Pin,
    Request,
    Scratch,
    ConsumerCursor,
    CurrentGeneration,
    RollbackGeneration,
}

/// The position of a root kind in declaration order, which is its order.
pub open spec fn kind_rank(kind: MaintenanceRootKind) -> int {
    match kind {
        MaintenanceRootKind::CurrentManifest => 0,
        MaintenanceRootKind::HistoricalManifest => 1,
        MaintenanceRootKind::RetentionWindow => 2,
        MaintenanceRootKind::PathCap => 3,
        MaintenanceRootKind::ResolutionBase => 4,
        MaintenanceRootKind::IdentifierDeltaSource => 5,
        MaintenanceRootKind::IdentifierDeltaTarget => 6,
        MaintenanceRootKind::PendingDeltaSource => 7,
        MaintenanceRootKind::PendingDeltaTarget => 8,
        MaintenanceRootKind::ViewBinding => 9,
        MaintenanceRootKind::Pin => 10,
        MaintenanceRootKind::Request => 11,
        MaintenanceRootKind::Scratch => 12,
        MaintenanceRootKind::ConsumerCursor => 13,
        MaintenanceRootKind::CurrentGeneration => 14,
        MaintenanceRootKind::RollbackGeneration => 15,
    }
}

fn kind_rank_of(kind: MaintenanceRootKind) -> (r: u8)
    ensures
        r == kind_rank(kind),
{
    match kind {
        MaintenanceRootKind::CurrentManifest => 0,
        MaintenanceRootKind::HistoricalManifest => 1,
        MaintenanceRootKind::RetentionWindow => 2,
        MaintenanceRootKind::PathCap => 3,
        MaintenanceRootKind::ResolutionBase => 4,
        MaintenanceRootKind::IdentifierDeltaSource => 5,
        MaintenanceRootKind::IdentifierDeltaTarget => 6,
        MaintenanceRootKind::PendingDeltaSource => 7,
        MaintenanceRootKind::PendingDeltaTarget => 8,
        MaintenanceRootKind::ViewBinding => 9,
        MaintenanceRootKind::Pin => 10,
        MaintenanceRootKind::Request => 11,
        MaintenanceRootKind::Scratch => 12,
        MaintenanceRootKind::ConsumerCursor => 13,
        MaintenanceRootKind::CurrentGeneration => 14,
        MaintenanceRootKind::RollbackGeneration => 15,
    }
}

/// Roots that only keep history around: they count towards retention,
/// not towards what the current view needs.
pub open spec fn is_retention_only(kind: MaintenanceRootKind) -> bool {
    kind == MaintenanceRootKind::HistoricalManifest || kind == MaintenanceRootKind::RetentionWindow
        || kind == MaintenanceRootKind::PathCap
}

fn retention_only(kind: MaintenanceRootKind) -> (r: bool)
    ensures
        r == is_retention_only(kind),
{
    match kind {
        MaintenanceRootKind::HistoricalManifest
        | MaintenanceRootKind::RetentionWindow
        | MaintenanceRootKind::PathCap => true,
        _ => false,
    }
}

/// A root that protects a version: its kind and the text naming it.
#[derive(Debug, Clone, PartialEq, Eq, PartialOrd, Ord)]
pub struct ProtectionReason {
    pub kind: MaintenanceRootKind,
    pub reference: String,
}

/// A reason as a value: its kind and its reference text.
pub type ReasonModel = (MaintenanceRootKind, Seq<char>);

pub open spec fn reason_model(r: ProtectionReason) -> ReasonModel {
    (r.kind, r.reference@)
}

/// Reasons order by kind, then by reference text.
pub open spec fn reason_lt(a: ReasonModel, b: ReasonModel) -> bool {
    kind_rank(a.0) < kind_rank(b.0) || (kind_rank(a.0) == kind_rank(b.0) && text_lt(a.1, b.1))
}

/// The reason models of a run of reasons.
pub open spec fn reason_models(rs: Seq<ProtectionReason>) -> Seq<ReasonModel> {
    rs.map_values(|r: ProtectionReason| reason_model(r))
}

/// A run strictly ascending under `reason_lt`.
pub open spec fn reasons_sorted(rs: Seq<ReasonModel>) -> bool {
    forall|i: int, j: int| 0 <= i < j < rs.len() ==> reason_lt(#[trigger] rs[i], #[trigger] rs[j])
}

#[derive(Debug, Clone, PartialEq, Eq)]
pub struct VersionFact {
    pub version_id: i64,
    pub path: String,
    pub logical_bytes: u64,
    pub complete_l1: bool,
    pub complete_l2: bool,
    pub complete_l3: bool,
}

#[derive(Debug, Clone, PartialEq, Eq)]
pub struct ManifestFact {
    pub view_id: String,
    pub generation: i64,
    pub created_at_ms: i64,
    pub current: bool,
}

#[derive(Debug, Clone, PartialEq, Eq)]
pub struct ManifestVersionFact {
    pub view_id: String,
    pub generation: i64,
    pub version_id: i64,
    pub path: String,
    pub failed_preserved: bool,
}

#[derive(Debug, Clone, PartialEq, Eq)]
pub struct FailedPathFact {
    pub view_id: String,
    pub generation: i64,
    pub path: String,
    pub language: String,
    pub current: bool,
}

#[derive(Debug, Clone, PartialEq, Eq)]
pub struct BaseVersionFact {
    pub base_id: String,
    pub version_id: i64,
}

#[derive(Debug, Clone, PartialEq, Eq)]
pub struct DeltaVersionFact {
    pub view_id: String,
    pub delta_generation: i64,
    pub source_version_id: i64,
    pub target_version_id: Option<i64>,
}

#[derive(Debug, Clone, PartialEq, Eq)]
pub struct VersionRootFact {
    pub version_id: i64,
    pub max_level: MaintenanceLevel,
    pub kind: MaintenanceRootKind,
    pub reference: String,
}

#[derive(Debug, Clone, PartialEq, Eq)]
pub struct AllocatorMark {
    pub kind: String,
    pub scope_id: String,
    pub high_water: i64,
}

#[derive(Debug, Clone, PartialEq, Eq)]
pub struct CoordinatorRequestFact {
    pub request_id: String,
    pub state: String,
    pub claim_owner: Option<String>,
    pub terminal_log_sequence: Option<i64>,
    pub updated_at: i64,
}

#[derive(Debug, Clone, PartialEq, Eq)]
pub struct ConsumerCursorFact {
    pub consumer_id: String,
    pub generation_name: String,
    pub store_log_sequence: i64,
    pub updated_at: i64,
}

#[derive(Debug, Clone, PartialEq, Eq, Default)]
pub struct PlanBinding {
    pub family_id: String,
    pub current_generation: String,
    pub store_root_fingerprint: String,
    pub coordinator_root_fingerprint: String,
    pub store_log_max: i64,
    pub request_watermark: i64,
    pub allocator_marks: Vec<AllocatorMark>,
}

#[derive(Debug, Clone, Copy, PartialEq, Eq, Default)]
pub struct MaintenanceCapacity {
    pub free_bytes: u64,
    pub store_page_bytes: u64,
    pub store_freelist_bytes: u64,
    pub store_wal_bytes: u64,
    pub base_bytes: u64,
    pub scratch_bytes: u64,
    pub staged_generation_bytes: u64,
    pub retention_baseline_bytes: u64,
    pub retention_breach_streak: u32,
}

#[derive(Debug, Clone, PartialEq, Eq, Default)]
pub struct MaintenanceSnapshot {
    pub binding: PlanBinding,
    pub now_ms: i64,
    pub capacity: MaintenanceCapacity,
    pub versions: Vec<VersionFact>,
    pub manifests: Vec<ManifestFact>,
    pub manifest_versions: Vec<ManifestVersionFact>,
    pub failed_paths: Vec<FailedPathFact>,
    pub base_versions: Vec<BaseVersionFact>,
    pub identifier_delta_versions: Vec<DeltaVersionFact>,
    pub pending_delta_versions: Vec<DeltaVersionFact>,
    pub additional_version_roots: Vec<VersionRootFact>,
    pub protected_bases: Vec<String>,
    pub eligible_bases: Vec<String>,
    pub protected_deltas: Vec<String>,
    pub eligible_deltas: Vec<String>,
    pub protected_pins: Vec<String>,
    pub expired_pins: Vec<String>,
    pub protected_requests: Vec<String>,
    pub request_facts: Vec<CoordinatorRequestFact>,
    pub protected_scratch: Vec<String>,
    pub protected_cursors: Vec<String>,
    pub cursor_facts: Vec<ConsumerCursorFact>,
    pub protected_generations: Vec<String>,
}

#[derive(Debug, Clone, Copy, PartialEq, Eq)]
pub struct MaintenancePolicy {
    pub retention_window_days: i64,
    pub retention_path_cap: usize,
    pub target_numerator: u64,
    pub target_denominator: u64,
    pub ceiling_numerator: u64,
    pub ceiling_denominator: u64,
    pub physical_breach_limit: u32,
}

impl Default for MaintenancePolicy {
    /// A week of history, up to 24 historical manifests per path, a 120%
    /// target and a 125% ceiling, and compaction after 3 breaches.
    fn default() -> (r: Self)
        ensures
            r.retention_window_days == 7,
            r.retention_path_cap == 24,
            r.target_numerator == 120,
            r.target_denominator == 100,
            r.ceiling_numerator == 125,
            r.ceiling_denominator == 100,
            r.physical_breach_limit == DEFAULT_PHYSICAL_BREACH_LIMIT,
    {
        MaintenancePolicy {
            retention_window_days: 7,
            retention_path_cap: 24,
            target_numerator: 120,
            target_denominator: 100,
            ceiling_numerator: 125,
            ceiling_denominator: 100,
            physical_breach_limit: DEFAULT_PHYSICAL_BREACH_LIMIT,
        }
    }
}

#[derive(Debug, Clone, PartialEq, Eq)]
pub struct VersionDecision {
    pub version_id: i64,
    pub path: String,
    pub logical_bytes: u64,
    pub l1_reasons: Vec<ProtectionReason>,
    pub l2_reasons: Vec<ProtectionReason>,
    pub l3_reasons: Vec<ProtectionReason>,
}

/// The reasons a decision records at a level.
pub open spec fn decision_reasons(d: VersionDecision, level: int) -> Seq<ProtectionReason> {
    if level == 0 {
        d.l1_reasons@
    } else if level == 1 {
        d.l2_reasons@
    } else {
        d.l3_reasons@
    }
}

impl VersionDecision {
    /// The reasons that protect this version at `level`.
    pub fn reasons(&self, level: MaintenanceLevel) -> (r: &[ProtectionReason])
        ensures
            r@ == decision_reasons(*self, level_index(level)),
    {
        match level {
            MaintenanceLevel::L1 => self.l1_reasons.as_slice(),
            MaintenanceLevel::L2 => self.l2_reasons.as_slice(),
            MaintenanceLevel::L3 => self.l3_reasons.as_slice(),
        }
    }
}

#[derive(Debug, Clone, Copy, PartialEq, Eq)]
pub struct DemotionCandidate {
    pub version_id: i64,
    pub estimated_dirty_bytes: u64,
    pub drop_l3: bool,
    pub drop_l2: bool,
}

#[derive(Debug, Clone, Copy, PartialEq, Eq)]
pub struct RetentionPlan {
    pub protected_current_bytes: u64,
    pub retained_logical_bytes: u64,
    pub eligible_bytes: u64,
    pub target_bytes: u64,
    pub ceiling_bytes: u64,
    pub pressure: bool,
    pub physical_current_bytes: u64,
    pub physical_baseline_bytes: u64,
    pub physical_target_bytes: u64,
    pub physical_ceiling_bytes: u64,
    pub physical_target_breached: bool,
    pub physical_ceiling_breached: bool,
    pub physical_breach_limit: u32,
    pub physical_breach_streak: u32,
    pub compaction_required: bool,
}

#[derive(Debug, Clone, Copy, PartialEq, Eq)]
pub struct CapacityPlan {
    pub facts: MaintenanceCapacity,
    pub measured_bytes: u64,
    pub free_bytes: u64,
    pub demotion_wal_headroom_bytes: u64,
    pub gc_required_bytes: u64,
    pub promotion_required_bytes: u64,
    pub gc_fits: bool,
    pub promotion_fits: bool,
}

#[derive(Debug, Clone, PartialEq, Eq)]
pub struct MaintenancePlan {
    pub binding: PlanBinding,
    pub fingerprint: String,
    pub versions: Vec<VersionDecision>,
    pub eligible_manifests: Vec<(String, i64)>,
    pub pressure_only_manifests: Vec<(String, i64)>,
    pub demotion_cohort: Vec<DemotionCandidate>,
    pub protected_bases: Vec<String>,
    pub eligible_bases: Vec<String>,
    pub protected_deltas: Vec<String>,
    pub eligible_deltas: Vec<String>,
    pub protected_pins: Vec<String>,
    pub expired_pins: Vec<String>,
    pub protected_requests: Vec<String>,
    pub protected_scratch: Vec<String>,
    pub protected_cursors: Vec<String>,
    pub protected_generations: Vec<String>,
    pub protected_failed_paths: Vec<String>,
    pub retention: RetentionPlan,
    pub capacity: CapacityPlan,
    pub max_observed_window: usize,
}

#[derive(Debug, Clone, PartialEq, Eq)]
pub struct MaintenanceRun {
    pub run_id: String,
    pub owner_id: String,
    pub owner_pid: u32,
    pub now_ms: i64,
    pub lease_duration_ms: i64,
}

impl MaintenanceRun {
    pub fn new(
        run_id: String,
        owner_id: String,
        owner_pid: u32,
        now_ms: i64,
        lease_duration_ms: i64,
    ) -> (r: Self)
        ensures
            r.run_id == run_id,
            r.owner_id == owner_id,
            r.owner_pid == owner_pid,
            r.now_ms == now_ms,
            r.lease_duration_ms == lease_duration_ms,
    {
        MaintenanceRun { run_id, owner_id, owner_pid, now_ms, lease_duration_ms }
    }
}

#[derive(Debug, Clone, PartialEq, Eq, Default)]
pub struct MaintenanceApplyReport {
    pub demoted_l3: usize,
    pub demoted_l2: usize,
    pub purged_versions: usize,
    pub removed_manifests: usize,
    pub removed_deltas: usize,
    pub removed_bases: usize,
    pub removed_base_files: usize,
    pub removed_pins: usize,
    pub removed_scratch_files: usize,
    pub archived_requests: usize,
    pub pruned_log_rows: usize,
    pub last_version_cursor: Option<i64>,
    pub checkpoint_order: Vec<String>,
    pub store_bytes_before_vacuum: u64,
    pub store_bytes_after_vacuum: u64,
    pub freelist_pages_before_vacuum: u64,
    pub freelist_pages_after_vacuum: u64,
    pub vacuum_pages: u64,
    pub physical_bytes_before: u64,
    pub physical_bytes_after: u64,
    pub physical_baseline_bytes: u64,
    pub physical_target_bytes: u64,
    pub physical_ceiling_bytes: u64,
    pub physical_target_breached: bool,
    pub physical_ceiling_breached: bool,
    pub physical_breach_streak: u32,
    pub compaction_required: bool,
}

#[derive(Debug, Clone, Copy, PartialEq, Eq)]
pub struct MaintenanceApplyPolicy {
    pub request_safety_ms: i64,
    pub receipt_limit: usize,
    pub incremental_vacuum_pages: usize,
}

impl Default for MaintenanceApplyPolicy {
    /// Requests are kept a week, receipts are archived a hundred at a
    /// time, and vacuum frees 64 pages per step.
    fn default() -> (r: Self)
        ensures
            r.request_safety_ms == 7 * DAY_MS,
            r.receipt_limit == 100,
            r.incremental_vacuum_pages == 64,
    {
        MaintenanceApplyPolicy {
            request_safety_ms: 7 * DAY_MS,
            receipt_limit: 100,
            incremental_vacuum_pages: 64,
        }
    }
}

/// The kind of work a maintenance run performs.
#[derive(Debug, Clone, Copy, PartialEq, Eq, Structural)]
pub enum MaintenanceAction {
    Gc,
    Repair,
    Promote,
    Rollback,
}

/// The stored name of an action.
pub open spec fn action_text(a: MaintenanceAction) -> Seq<char> {
    match a {
        MaintenanceAction::Gc => "gc"@,
        MaintenanceAction::Repair => "repair"@,
        MaintenanceAction::Promote => "promote"@,
        MaintenanceAction::Rollback => "rollback"@,
    }
}

impl MaintenanceAction {
    pub fn as_str(self) -> (r: &'static str)
        ensures
            r@ == action_text(self),
    {
        proof {
            reveal_strlit("gc");
            reveal_strlit("repair");
            reveal_strlit("promote");
            reveal_strlit("rollback");
        }
        match self {
            MaintenanceAction::Gc => "gc",
            MaintenanceAction::Repair => "repair",
            MaintenanceAction::Promote => "promote",
            MaintenanceAction::Rollback => "rollback",
        }
    }
}

#[derive(Debug)]
pub enum MaintenanceError {
    InspectionRaced { database: &'static str },
    UnknownRoot { kind: &'static str, id: String },
    InvalidPolicy { field: &'static str },
    InvalidMetadata { field: &'static str, value: String },
    StalePlan,
    MaintenanceBusy,
    CapacityInsufficient,
    MaintenanceFenceLost,
    Connection(StoreConnectionError),
    Coordinator(CoordinatorError),
}

/// What an error says, as texts: its code, then the name it carries (a
/// kind, a field or a database), then the value or identifier it carries.
pub type Fault = (Seq<char>, Seq<char>, Seq<char>);

/// The code of an error.
pub open spec fn error_code(e: MaintenanceError) -> Seq<char> {
    match e {
        MaintenanceError::InspectionRaced { .. } => "maintenance_inspection_raced"@,
        MaintenanceError::UnknownRoot { .. } => "unknown_maintenance_root"@,
        MaintenanceError::InvalidPolicy { .. } => "invalid_maintenance_policy"@,
        MaintenanceError::InvalidMetadata { .. } => "invalid_maintenance_metadata"@,
        MaintenanceError::StalePlan => "maintenance_plan_stale"@,
        MaintenanceError::MaintenanceBusy => "maintenance_busy"@,
        MaintenanceError::CapacityInsufficient => "capacity_insufficient"@,
        MaintenanceError::MaintenanceFenceLost => "maintenance_fence_lost"@,
        MaintenanceError::Connection(_) => "store_connection_error"@,
        MaintenanceError::Coordinator(_) => "maintenance_coordinator_error"@,
    }
}

/// What an error says.
pub open spec fn fault_of(e: MaintenanceError) -> Fault {
    match e {
        MaintenanceError::InspectionRaced { database } => (error_code(e), database@, seq![]),
        MaintenanceError::UnknownRoot { kind, id } => (error_code(e), kind@, id@),
        MaintenanceError::InvalidPolicy { field } => (error_code(e), field@, seq![]),
        MaintenanceError::InvalidMetadata { field, value } => (error_code(e), field@, value@),
        _ => (error_code(e), seq![], seq![]),
    }
}

impl MaintenanceError {
    /// The stable code of this error.
    pub fn code(&self) -> (r: &'static str)
        ensures
            r@ == error_code(*self),
    {
        proof {
            reveal_strlit("maintenance_inspection_raced");
            reveal_strlit("unknown_maintenance_root");
            reveal_strlit("invalid_maintenance_policy");
            reveal_strlit("invalid_maintenance_metadata");
            reveal_strlit("maintenance_plan_stale");
            reveal_strlit("maintenance_busy");
            reveal_strlit("capacity_insufficient");
            reveal_strlit("maintenance_fence_lost");
            reveal_strlit("store_connection_error");
            reveal_strlit("maintenance_coordinator_error");
        }
        match self {
            MaintenanceError::InspectionRaced { .. } => "maintenance_inspection_raced",
            MaintenanceError::UnknownRoot { .. } => "unknown_maintenance_root",
            MaintenanceError::InvalidPolicy { .. } => "invalid_maintenance_policy",
            MaintenanceError::InvalidMetadata { .. } => "invalid_maintenance_metadata",
            MaintenanceError::StalePlan => "maintenance_plan_stale",
            MaintenanceError::MaintenanceBusy => "maintenance_busy",
            MaintenanceError::CapacityInsufficient => "capacity_insufficient",
            MaintenanceError::MaintenanceFenceLost => "maintenance_fence_lost",
            MaintenanceError::Connection(_) => "store_connection_error",
            MaintenanceError::Coordinator(_) => "maintenance_coordinator_error",
        }
    }
}

fn invalid_policy(field: &'static str) -> (e: MaintenanceError)
    ensures
        fault_of(e) == ("invalid_maintenance_policy"@, field@, Seq::<char>::empty()),
{
    proof {
        reveal_strlit("invalid_maintenance_policy");
    }
    MaintenanceError::InvalidPolicy { field }
}

fn invalid_metadata(field: &'static str, value: String) -> (e: MaintenanceError)
    ensures
        fault_of(e) == ("invalid_maintenance_metadata"@, field@, value@),
        e == (MaintenanceError::InvalidMetadata { field, value }),
{
    proof {
        reveal_strlit("invalid_maintenance_metadata");
    }
    MaintenanceError::InvalidMetadata { field, value }
}

fn unknown_root(kind: &'static str, id: String) -> (e: MaintenanceError)
    ensures
        fault_of(e) == ("unknown_maintenance_root"@, kind@, id@),
{
    proof {
        reveal_strlit("unknown_maintenance_root");
    }
    MaintenanceError::UnknownRoot { kind, id }
}

/// The first rule a policy breaks, by the name of the field at fault.
pub open spec fn policy_fault(p: MaintenancePolicy) -> Option<Seq<char>> {
    if p.retention_window_days < 0 {
        Some("retention_window_days"@)
    } else if p.retention_path_cap == 0 {
        Some("retention_path_cap"@)
    } else if p.physical_breach_limit == 0 {
        Some("physical_breach_limit"@)
    } else if p.target_denominator == 0 || p.ceiling_denominator == 0 {
        Some("ratio_denominator"@)
    } else if clamp_u64(p.target_numerator * p.ceiling_denominator) > clamp_u64(
        p.ceiling_numerator * p.target_denominator,
    ) {
        Some("retention_ratios"@)
    } else {
        None
    }
}

/// Checks a retention policy: a non-negative window, a positive path cap
/// and breach limit, non-zero denominators, and a target ratio no larger
/// than the ceiling ratio (compared by saturating cross products).
pub fn validate_policy(policy: &MaintenancePolicy) -> (r: Result<(), MaintenanceError>)
    ensures
        policy_fault(*policy) is None <==> r is Ok,
        r matches Err(e) ==> fault_of(e) == (
            "invalid_maintenance_policy"@,
            policy_fault(*policy)->0,
            Seq::<char>::empty(),
        ),
{
    proof {
        reveal_strlit("retention_window_days");
        reveal_strlit("retention_path_cap");
        reveal_strlit("physical_breach_limit");
        reveal_strlit("ratio_denominator");
        reveal_strlit("retention_ratios");
    }
    if policy.retention_window_days < 0 {
        return Err(invalid_policy("retention_window_days"));
    }
    if policy.retention_path_cap == 0 {
        return Err(invalid_policy("retention_path_cap"));
    }
    if policy.physical_breach_limit == 0 {
        return Err(invalid_policy("physical_breach_limit"));
    }
    if policy.target_denominator == 0 || policy.ceiling_denominator == 0 {
        return Err(invalid_policy("ratio_denominator"));
    }
    let target = saturating_mul_u64(policy.target_numerator, policy.ceiling_denominator);
    let ceiling = saturating_mul_u64(policy.ceiling_numerator, policy.target_denominator);
    if target > ceiling {
        return Err(invalid_policy("retention_ratios"));
    }
    Ok(())
}

/// `bytes * numerator / denominator`, or `None` when the product
/// overflows.
pub open spec fn ratio_of(bytes: u64, numerator: u64, denominator: u64) -> Option<u64> {
    if bytes * numerator > u64::MAX {
        None
    } else {
        Some(((bytes * numerator) as u64 / denominator) as u64)
    }
}

fn ratio_bytes(bytes: u64, numerator: u64, denominator: u64) -> (r: Result<u64, MaintenanceError>)
    requires
        denominator > 0,
    ensures
        r matches Ok(v) ==> ratio_of(bytes, numerator, denominator) == Some(v),
        r is Err ==> ratio_of(bytes, numerator, denominator) is None,
        r matches Err(e) ==> fault_of(e) == (
            "invalid_maintenance_metadata"@,
            "retention_ratio"@,
            "overflow"@,
        ),
{
    match bytes.checked_mul(numerator) {
        Some(v) => Ok(v / denominator),
        None => {
            proof {
                reveal_strlit("overflow");
            }
            Err(invalid_metadata("retention_ratio", owned("overflow")))
        },
    }
}


// ---------------------------------------------------------------------
// The snapshot as the planner reads it.

/// No two version facts share an identifier.
pub open spec fn version_ids_distinct(s: MaintenanceSnapshot) -> bool {
    forall|i: int, j: int|
        0 <= i < j < s.versions@.len() ==> #[trigger] s.versions@[i].version_id
            != #[trigger] s.versions@[j].version_id
}

/// Some version fact has identifier `id`.
pub open spec fn has_version(s: MaintenanceSnapshot, id: i64) -> bool {
    exists|i: int| 0 <= i < s.versions@.len() && #[trigger] s.versions@[i].version_id == id
}

/// The version fact with identifier `id`.
pub open spec fn fact_for(s: MaintenanceSnapshot, id: i64) -> VersionFact {
    s.versions@[choose|i: int| 0 <= i < s.versions@.len() && #[trigger] s.versions@[i].version_id == id]
}

/// The last manifest fact below `n` with key `(view, generation)`, or -1.
/// A later fact for the same key replaces an earlier one.
pub open spec fn manifest_index_below(
    ms: Seq<ManifestFact>,
    view: Seq<char>,
    generation: i64,
    n: int,
) -> int
    decreases n,
{
    if n <= 0 {
        -1
    } else if ms[n - 1].view_id@ == view && ms[n - 1].generation == generation {
        n - 1
    } else {
        manifest_index_below(ms, view, generation, n - 1)
    }
}

/// The manifest fact that stands for key `(view, generation)`, or -1.
pub open spec fn manifest_index(s: MaintenanceSnapshot, view: Seq<char>, generation: i64) -> int {
    manifest_index_below(s.manifests@, view, generation, s.manifests@.len() as int)
}

/// Whether manifest fact `mi` is the one that stands for its key.
pub open spec fn stands_for_key(s: MaintenanceSnapshot, mi: int) -> bool {
    manifest_index(s, s.manifests@[mi].view_id@, s.manifests@[mi].generation) == mi
}

proof fn lemma_manifest_index_below(ms: Seq<ManifestFact>, view: Seq<char>, generation: i64, n: int)
    requires
        0 <= n <= ms.len(),
    ensures
        manifest_index_below(ms, view, generation, n) < n,
        manifest_index_below(ms, view, generation, n) >= 0 ==> ({
            let i = manifest_index_below(ms, view, generation, n);
            &&& ms[i].view_id@ == view
            &&& ms[i].generation == generation
            &&& forall|k: int|
                i < k < n ==> !(#[trigger] ms[k].view_id@ == view && ms[k].generation == generation)
        }),
        manifest_index_below(ms, view, generation, n) < 0 ==> forall|k: int|
            0 <= k < n ==> !(#[trigger] ms[k].view_id@ == view && ms[k].generation == generation),
    decreases n,
{
    if n > 0 {
        lemma_manifest_index_below(ms, view, generation, n - 1);
    }
}

/// The manifest entry at `j` names the manifest fact's key.
pub open spec fn entry_of(s: MaintenanceSnapshot, j: int, mi: int) -> bool {
    s.manifest_versions@[j].view_id@ == s.manifests@[mi].view_id@
        && s.manifest_versions@[j].generation == s.manifests@[mi].generation
}

/// The manifest fact standing for entry `j`'s key, or -1.
pub open spec fn entry_manifest(s: MaintenanceSnapshot, j: int) -> int {
    manifest_index(s, s.manifest_versions@[j].view_id@, s.manifest_versions@[j].generation)
}

/// The first manifest entry from `j` on that names an unknown version or
/// an unknown manifest.
pub open spec fn entry_fault_from(s: MaintenanceSnapshot, j: int) -> Option<Fault>
    decreases s.manifest_versions@.len() - j,
{
    if j < 0 || j >= s.manifest_versions@.len() {
        None
    } else {
        let e = s.manifest_versions@[j];
        if !has_version(s, e.version_id) {
            Some(("unknown_maintenance_root"@, "manifest version"@, int_text(e.version_id as int)))
        } else if entry_manifest(s, j) < 0 {
            Some(("unknown_maintenance_root"@, "manifest"@, scoped_text(e.view_id@, e.generation as int)))
        } else {
            entry_fault_from(s, j + 1)
        }
    }
}

/// The first resolution base from `j` on that names an unknown version.
pub open spec fn base_fault_from(s: MaintenanceSnapshot, j: int) -> Option<Fault>
    decreases s.base_versions@.len() - j,
{
    if j < 0 || j >= s.base_versions@.len() {
        None
    } else if !has_version(s, s.base_versions@[j].version_id) {
        Some(
            (
                "unknown_maintenance_root"@,
                "resolution base"@,
                int_text(s.base_versions@[j].version_id as int),
            ),
        )
    } else {
        base_fault_from(s, j + 1)
    }
}

/// The first resolution delta from `j` on whose source or target version
/// is unknown.
pub open spec fn delta_fault_from(s: MaintenanceSnapshot, ds: Seq<DeltaVersionFact>, j: int) -> Option<
    Fault,
>
    decreases ds.len() - j,
{
    if j < 0 || j >= ds.len() {
        None
    } else if !has_version(s, ds[j].source_version_id) {
        Some(
            (
                "unknown_maintenance_root"@,
                "delta source version"@,
                int_text(ds[j].source_version_id as int),
            ),
        )
    } else if ds[j].target_version_id is Some && !has_version(s, ds[j].target_version_id->0) {
        Some(
            (
                "unknown_maintenance_root"@,
                "delta target version"@,
                int_text(ds[j].target_version_id->0 as int),
            ),
        )
    } else {
        delta_fault_from(s, ds, j + 1)
    }
}

/// The first additional root from `j` on that names an unknown version.
pub open spec fn extra_fault_from(s: MaintenanceSnapshot, j: int) -> Option<Fault>
    decreases s.additional_version_roots@.len() - j,
{
    if j < 0 || j >= s.additional_version_roots@.len() {
        None
    } else if !has_version(s, s.additional_version_roots@[j].version_id) {
        Some(
            (
                "unknown_maintenance_root"@,
                "version protection"@,
                int_text(s.additional_version_roots@[j].version_id as int),
            ),
        )
    } else {
        extra_fault_from(s, j + 1)
    }
}

/// The first root, in the order the planner reads them, that names an
/// unknown version or manifest.
pub open spec fn root_fault(s: MaintenanceSnapshot) -> Option<Fault> {
    if entry_fault_from(s, 0) is Some {
        entry_fault_from(s, 0)
    } else if base_fault_from(s, 0) is Some {
        base_fault_from(s, 0)
    } else if delta_fault_from(s, s.identifier_delta_versions@, 0) is Some {
        delta_fault_from(s, s.identifier_delta_versions@, 0)
    } else if delta_fault_from(s, s.pending_delta_versions@, 0) is Some {
        delta_fault_from(s, s.pending_delta_versions@, 0)
    } else {
        extra_fault_from(s, 0)
    }
}

fn version_index(versions: &Vec<VersionFact>, id: i64) -> (r: Option<usize>)
    ensures
        r matches Some(i) ==> i < versions@.len() && versions@[i as int].version_id == id,
        r is None ==> forall|i: int| 0 <= i < versions@.len() ==> #[trigger] versions@[i].version_id != id,
{
    let mut i: usize = 0;
    while i < versions.len()
        invariant
            i <= versions@.len(),
            forall|k: int| 0 <= k < i ==> #[trigger] versions@[k].version_id != id,
        decreases versions@.len() - i,
    {
        if versions[i].version_id == id {
            return Some(i);
        }
        i = i + 1;
    }
    None
}

fn version_known(s: &MaintenanceSnapshot, id: i64) -> (r: bool)
    ensures
        r == has_version(*s, id),
{
    match version_index(&s.versions, id) {
        Some(i) => {
            assert(s.versions@[i as int].version_id == id);
            true
        },
        None => false,
    }
}

fn find_manifest(s: &MaintenanceSnapshot, view: &str, generation: i64) -> (r: Option<usize>)
    ensures
        r matches Some(i) ==> i == manifest_index(*s, view@, generation) && i < s.manifests@.len(),
        r is None ==> manifest_index(*s, view@, generation) < 0,
{
    let mut i: usize = s.manifests.len();
    while i > 0
        invariant
            i <= s.manifests@.len(),
            manifest_index(*s, view@, generation) == manifest_index_below(
                s.manifests@,
                view@,
                generation,
                i as int,
            ),
        decreases i,
    {
        let k = i - 1;
        if s.manifests[k].generation == generation && crate::text::str_eq(
            s.manifests[k].view_id.as_str(),
            view,
        ) {
            return Some(k);
        }
        i = k;
    }
    None
}

fn check_entries(s: &MaintenanceSnapshot) -> (r: Result<(), MaintenanceError>)
    ensures
        r is Ok <==> entry_fault_from(*s, 0) is None,
        r matches Err(e) ==> Some(fault_of(e)) == entry_fault_from(*s, 0),
{
    let mut j: usize = 0;
    while j < s.manifest_versions.len()
        invariant
            j <= s.manifest_versions@.len(),
            entry_fault_from(*s, 0) == entry_fault_from(*s, j as int),
        decreases s.manifest_versions@.len() - j,
    {
        let e = &s.manifest_versions[j];
        if !version_known(s, e.version_id) {
            let id = crate::text::string_of(crate::text::i64_text(e.version_id).as_slice());
            proof {
                reveal_strlit("manifest version");
            }
            return Err(unknown_root("manifest version", id));
        }
        if find_manifest(s, e.view_id.as_str(), e.generation).is_none() {
            let id = scoped_name(e.view_id.as_str(), e.generation);
            proof {
                reveal_strlit("manifest");
            }
            return Err(unknown_root("manifest", id));
        }
        j = j + 1;
    }
    Ok(())
}

fn check_bases(s: &MaintenanceSnapshot) -> (r: Result<(), MaintenanceError>)
    ensures
        r is Ok <==> base_fault_from(*s, 0) is None,
        r matches Err(e) ==> Some(fault_of(e)) == base_fault_from(*s, 0),
{
    let mut j: usize = 0;
    while j < s.base_versions.len()
        invariant
            j <= s.base_versions@.len(),
            base_fault_from(*s, 0) == base_fault_from(*s, j as int),
        decreases s.base_versions@.len() - j,
    {
        let id = s.base_versions[j].version_id;
        if !version_known(s, id) {
            let text = crate::text::string_of(crate::text::i64_text(id).as_slice());
            proof {
                reveal_strlit("resolution base");
            }
            return Err(unknown_root("resolution base", text));
        }
        j = j + 1;
    }
    Ok(())
}

fn check_deltas(s: &MaintenanceSnapshot, ds: &Vec<DeltaVersionFact>) -> (r: Result<(), MaintenanceError>)
    ensures
        r is Ok <==> delta_fault_from(*s, ds@, 0) is None,
        r matches Err(e) ==> Some(fault_of(e)) == delta_fault_from(*s, ds@, 0),
{
    let mut j: usize = 0;
    while j < ds.len()
        invariant
            j <= ds@.len(),
            delta_fault_from(*s, ds@, 0) == delta_fault_from(*s, ds@, j as int),
        decreases ds@.len() - j,
    {
        let source = ds[j].source_version_id;
        if !version_known(s, source) {
            let text = crate::text::string_of(crate::text::i64_text(source).as_slice());
            proof {
                reveal_strlit("delta source version");
            }
            return Err(unknown_root("delta source version", text));
        }
        if let Some(target) = ds[j].target_version_id {
            if !version_known(s, target) {
                let text = crate::text::string_of(crate::text::i64_text(target).as_slice());
                proof {
                    reveal_strlit("delta target version");
                }
                return Err(unknown_root("delta target version", text));
            }
        }
        j = j + 1;
    }
    Ok(())
}

fn check_extra_roots(s: &MaintenanceSnapshot) -> (r: Result<(), MaintenanceError>)
    ensures
        r is Ok <==> extra_fault_from(*s, 0) is None,
        r matches Err(e) ==> Some(fault_of(e)) == extra_fault_from(*s, 0),
{
    let mut j: usize = 0;
    while j < s.additional_version_roots.len()
        invariant
            j <= s.additional_version_roots@.len(),
            extra_fault_from(*s, 0) == extra_fault_from(*s, j as int),
        decreases s.additional_version_roots@.len() - j,
    {
        let id = s.additional_version_roots[j].version_id;
        if !version_known(s, id) {
            let text = crate::text::string_of(crate::text::i64_text(id).as_slice());
            proof {
                reveal_strlit("version protection");
            }
            return Err(unknown_root("version protection", text));
        }
        j = j + 1;
    }
    Ok(())
}

fn check_roots(s: &MaintenanceSnapshot) -> (r: Result<(), MaintenanceError>)
    ensures
        r is Ok <==> root_fault(*s) is None,
        r matches Err(e) ==> Some(fault_of(e)) == root_fault(*s),
{
    check_entries(s)?;
    check_bases(s)?;
    check_deltas(s, &s.identifier_delta_versions)?;
    check_deltas(s, &s.pending_delta_versions)?;
    check_extra_roots(s)
}

fn check_distinct_versions(s: &MaintenanceSnapshot) -> (r: bool)
    ensures
        r == version_ids_distinct(*s),
{
    let n = s.versions.len();
    let mut i: usize = 0;
    while i < n
        invariant
            n == s.versions@.len(),
            i <= n,
            forall|a: int, b: int|
                0 <= a < i && a < b < n ==> #[trigger] s.versions@[a].version_id
                    != #[trigger] s.versions@[b].version_id,
        decreases n - i,
    {
        let mut k: usize = i + 1;
        while k < n
            invariant
                n == s.versions@.len(),
                i < n,
                i < k <= n,
                forall|a: int, b: int|
                    0 <= a < i && a < b < n ==> #[trigger] s.versions@[a].version_id
                        != #[trigger] s.versions@[b].version_id,
                forall|b: int| i < b < k ==> s.versions@[i as int].version_id != #[trigger] s.versions@[b].version_id,
            decreases n - k,
        {
            if s.versions[i].version_id == s.versions[k].version_id {
                return false;
            }
            k = k + 1;
        }
        i = i + 1;
    }
    true
}


// ---------------------------------------------------------------------
// Historical manifests: how far back each path's history goes, and which
// manifests have fallen out of both the retention window and the path cap.

/// The instant before which a manifest is outside the retention window.
pub open spec fn retention_cutoff(s: MaintenanceSnapshot, p: MaintenancePolicy) -> i64 {
    clamp_i64(s.now_ms - clamp_i64(p.retention_window_days * DAY_MS))
}

/// Manifest `mi` was created inside the retention window.
pub open spec fn inside_window(s: MaintenanceSnapshot, p: MaintenancePolicy, mi: int) -> bool {
    s.manifests@[mi].created_at_ms > retention_cutoff(s, p)
}

/// The manifest entry at `j` belongs to a manifest that is not current.
pub open spec fn is_historical_entry(s: MaintenanceSnapshot, j: int) -> bool {
    entry_manifest(s, j) >= 0 && !s.manifests@[entry_manifest(s, j)].current
}

/// A path in a historical manifest: the path, the manifest's view and
/// generation, and when the manifest was created.
pub type HistoryRow = (Seq<char>, Seq<char>, i64, i64);

/// The history row of manifest entry `j`.
pub open spec fn history_row(s: MaintenanceSnapshot, j: int) -> HistoryRow {
    let e = s.manifest_versions@[j];
    (e.path@, e.view_id@, e.generation, s.manifests@[entry_manifest(s, j)].created_at_ms)
}

/// The distinct history rows of the entries below `n`, in first-seen order.
pub open spec fn history_rows(s: MaintenanceSnapshot, n: int) -> Seq<HistoryRow>
    decreases n,
{
    if n <= 0 {
        seq![]
    } else {
        let prev = history_rows(s, n - 1);
        if is_historical_entry(s, n - 1) && !prev.contains(history_row(s, n - 1)) {
            prev.push(history_row(s, n - 1))
        } else {
            prev
        }
    }
}

/// Row `a` comes from a newer manifest than row `b`: created later, or at
/// the same time with a higher generation, or with both equal and a view
/// that sorts after.
pub open spec fn row_newer(a: HistoryRow, b: HistoryRow) -> bool {
    a.3 > b.3 || (a.3 == b.3 && (a.2 > b.2 || (a.2 == b.2 && text_lt(b.1, a.1))))
}

/// How many of the first `n` rows hold the same path as `r` in a newer
/// manifest.
pub open spec fn newer_count(rows: Seq<HistoryRow>, r: HistoryRow, n: int) -> nat
    decreases n,
{
    if n <= 0 {
        0
    } else {
        newer_count(rows, r, n - 1) + if rows[n - 1].0 == r.0 && row_newer(rows[n - 1], r) {
            1nat
        } else {
            0nat
        }
    }
}

/// The rank of entry `j` in its path's history: how many distinct newer
/// historical manifests also hold the path.
pub open spec fn path_rank(s: MaintenanceSnapshot, j: int) -> nat {
    let rows = history_rows(s, s.manifest_versions@.len() as int);
    newer_count(rows, history_row(s, j), rows.len() as int)
}

/// Manifest `mi` may be retired: it is not current, it is older than the
/// retention window, it holds at least one entry, and every path it holds
/// has at least `retention_path_cap` newer historical manifests.
pub open spec fn retirable(s: MaintenanceSnapshot, p: MaintenancePolicy, mi: int) -> bool {
    &&& !s.manifests@[mi].current
    &&& !inside_window(s, p, mi)
    &&& exists|j: int| 0 <= j < s.manifest_versions@.len() && #[trigger] entry_of(s, j, mi)
    &&& forall|j: int|
        0 <= j < s.manifest_versions@.len() && #[trigger] entry_of(s, j, mi) ==> path_rank(s, j)
            >= p.retention_path_cap
}

/// The key `(view, generation)` names a manifest that may be retired.
pub open spec fn retired_key(s: MaintenanceSnapshot, p: MaintenancePolicy, key: (Seq<char>, i64)) -> bool {
    exists|mi: int|
        0 <= mi < s.manifests@.len() && stands_for_key(s, mi) && retirable(s, p, mi) && key == (
            #[trigger] s.manifests@[mi].view_id@,
            s.manifests@[mi].generation,
        )
}

proof fn lemma_entry_resolved(s: MaintenanceSnapshot, j: int, k: int)
    requires
        0 <= j <= k < s.manifest_versions@.len(),
        entry_fault_from(s, j) is None,
    ensures
        has_version(s, s.manifest_versions@[k].version_id),
        entry_manifest(s, k) >= 0,
    decreases k - j,
{
    if j < k {
        lemma_entry_resolved(s, j + 1, k);
    }
}

/// Entry `j`'s manifest, for every entry.
pub open spec fn entry_manifests_ok(s: MaintenanceSnapshot, em: Seq<usize>) -> bool {
    &&& em.len() == s.manifest_versions@.len()
    &&& forall|j: int|
        0 <= j < em.len() ==> #[trigger] em[j] as int == entry_manifest(s, j) && (em[j] as int)
            < s.manifests@.len()
}

fn entry_manifests(s: &MaintenanceSnapshot) -> (em: Vec<usize>)
    requires
        entry_fault_from(*s, 0) is None,
    ensures
        entry_manifests_ok(*s, em@),
{
    let mut em: Vec<usize> = Vec::new();
    let mut j: usize = 0;
    while j < s.manifest_versions.len()
        invariant
            j <= s.manifest_versions@.len(),
            em@.len() == j,
            entry_fault_from(*s, 0) is None,
            forall|k: int|
                0 <= k < j ==> #[trigger] em@[k] as int == entry_manifest(*s, k) && (em@[k] as int)
                    < s.manifests@.len(),
        decreases s.manifest_versions@.len() - j,
    {
        let e = &s.manifest_versions[j];
        let found = find_manifest(s, e.view_id.as_str(), e.generation);
        match found {
            Some(i) => {
                em.push(i);
            },
            None => {
                proof {
                    lemma_entry_resolved(*s, 0, j as int);
                }
                em.push(0);
            },
        }
        j = j + 1;
    }
    em
}

fn same_row(s: &MaintenanceSnapshot, em: &Vec<usize>, a: usize, b: usize) -> (r: bool)
    requires
        entry_manifests_ok(*s, em@),
        a < s.manifest_versions@.len(),
        b < s.manifest_versions@.len(),
    ensures
        r == (history_row(*s, a as int) == history_row(*s, b as int)),
{
    let ea = &s.manifest_versions[a];
    let eb = &s.manifest_versions[b];
    ea.generation == eb.generation && s.manifests[em[a]].created_at_ms
        == s.manifests[em[b]].created_at_ms && crate::text::str_eq(
        ea.path.as_str(),
        eb.path.as_str(),
    ) && crate::text::str_eq(ea.view_id.as_str(), eb.view_id.as_str())
}

/// The rows named by entry indices.
pub open spec fn rows_of(s: MaintenanceSnapshot, rows: Seq<usize>) -> Seq<HistoryRow> {
    rows.map_values(|j: usize| history_row(s, j as int))
}

fn history_row_entries(s: &MaintenanceSnapshot, em: &Vec<usize>) -> (rows: Vec<usize>)
    requires
        entry_manifests_ok(*s, em@),
    ensures
        rows_of(*s, rows@) == history_rows(*s, s.manifest_versions@.len() as int),
        forall|k: int| 0 <= k < rows@.len() ==> #[trigger] rows@[k] < s.manifest_versions@.len(),
{
    let mut rows: Vec<usize> = Vec::new();
    let mut j: usize = 0;
    while j < s.manifest_versions.len()
        invariant
            j <= s.manifest_versions@.len(),
            entry_manifests_ok(*s, em@),
            rows_of(*s, rows@) == history_rows(*s, j as int),
            forall|k: int| 0 <= k < rows@.len() ==> #[trigger] rows@[k] < s.manifest_versions@.len(),
        decreases s.manifest_versions@.len() - j,
    {
        let ghost prev = rows_of(*s, rows@);
        if !s.manifests[em[j]].current {
            let mut found = false;
            let mut k: usize = 0;
            while k < rows.len()
                invariant
                    j < s.manifest_versions@.len(),
                    k <= rows@.len(),
                    entry_manifests_ok(*s, em@),
                    prev == rows_of(*s, rows@),
                    forall|q: int| 0 <= q < rows@.len() ==> #[trigger] rows@[q] < s.manifest_versions@.len(),
                    found == exists|q: int| 0 <= q < k && prev[q] == history_row(*s, j as int),
                decreases rows@.len() - k,
            {
                assert(prev[k as int] == history_row(*s, rows@[k as int] as int));
                if same_row(s, em, rows[k], j) {
                    found = true;
                }
                k = k + 1;
            }
            if !found {
                rows.push(j);
                assert(rows_of(*s, rows@) =~= prev.push(history_row(*s, j as int)));
            }
        }
        j = j + 1;
    }
    rows
}

fn newer_row(s: &MaintenanceSnapshot, em: &Vec<usize>, a: usize, b: usize) -> (r: bool)
    requires
        entry_manifests_ok(*s, em@),
        a < s.manifest_versions@.len(),
        b < s.manifest_versions@.len(),
    ensures
        r == row_newer(history_row(*s, a as int), history_row(*s, b as int)),
{
    let ca = s.manifests[em[a]].created_at_ms;
    let cb = s.manifests[em[b]].created_at_ms;
    if ca != cb {
        return ca > cb;
    }
    let ga = s.manifest_versions[a].generation;
    let gb = s.manifest_versions[b].generation;
    if ga != gb {
        return ga > gb;
    }
    str_less(s.manifest_versions[b].view_id.as_str(), s.manifest_versions[a].view_id.as_str())
}

fn rank_of(s: &MaintenanceSnapshot, em: &Vec<usize>, rows: &Vec<usize>, j: usize) -> (r: usize)
    requires
        entry_manifests_ok(*s, em@),
        j < s.manifest_versions@.len(),
        rows_of(*s, rows@) == history_rows(*s, s.manifest_versions@.len() as int),
        forall|k: int| 0 <= k < rows@.len() ==> #[trigger] rows@[k] < s.manifest_versions@.len(),
    ensures
        r == path_rank(*s, j as int),
{
    let ghost all = rows_of(*s, rows@);
    let mut count: usize = 0;
    let mut k: usize = 0;
    while k < rows.len()
        invariant
            k <= rows@.len(),
            count <= k,
            j < s.manifest_versions@.len(),
            entry_manifests_ok(*s, em@),
            all == rows_of(*s, rows@),
            forall|q: int| 0 <= q < rows@.len() ==> #[trigger] rows@[q] < s.manifest_versions@.len(),
            count == newer_count(all, history_row(*s, j as int), k as int),
        decreases rows@.len() - k,
    {
        let q = rows[k];
        if crate::text::str_eq(
            s.manifest_versions[q].path.as_str(),
            s.manifest_versions[j].path.as_str(),
        ) && newer_row(s, em, q, j) {
            count = count + 1;
        }
        k = k + 1;
    }
    count
}

fn belongs_to(s: &MaintenanceSnapshot, j: usize, mi: usize) -> (r: bool)
    requires
        j < s.manifest_versions@.len(),
        mi < s.manifests@.len(),
    ensures
        r == entry_of(*s, j as int, mi as int),
{
    s.manifest_versions[j].generation == s.manifests[mi].generation && crate::text::str_eq(
        s.manifest_versions[j].view_id.as_str(),
        s.manifests[mi].view_id.as_str(),
    )
}

fn cutoff_of(s: &MaintenanceSnapshot, p: &MaintenancePolicy) -> (r: i64)
    ensures
        r == retention_cutoff(*s, *p),
{
    saturating_sub_i64(s.now_ms, saturating_mul_i64(p.retention_window_days, DAY_MS))
}

fn retirement_flags(
    s: &MaintenanceSnapshot,
    p: &MaintenancePolicy,
    em: &Vec<usize>,
    rows: &Vec<usize>,
) -> (flags: Vec<bool>)
    requires
        entry_manifests_ok(*s, em@),
        rows_of(*s, rows@) == history_rows(*s, s.manifest_versions@.len() as int),
        forall|k: int| 0 <= k < rows@.len() ==> #[trigger] rows@[k] < s.manifest_versions@.len(),
    ensures
        flags@.len() == s.manifests@.len(),
        forall|mi: int| 0 <= mi < flags@.len() ==> #[trigger] flags@[mi] == retirable(*s, *p, mi),
{
    let cutoff = cutoff_of(s, p);
    let mut flags: Vec<bool> = Vec::new();
    let mut mi: usize = 0;
    while mi < s.manifests.len()
        invariant
            mi <= s.manifests@.len(),
            flags@.len() == mi,
            cutoff == retention_cutoff(*s, *p),
            entry_manifests_ok(*s, em@),
            rows_of(*s, rows@) == history_rows(*s, s.manifest_versions@.len() as int),
            forall|k: int| 0 <= k < rows@.len() ==> #[trigger] rows@[k] < s.manifest_versions@.len(),
            forall|q: int| 0 <= q < mi ==> #[trigger] flags@[q] == retirable(*s, *p, q),
        decreases s.manifests@.len() - mi,
    {
        let m = &s.manifests[mi];
        let mut any = false;
        let mut all = true;
        let mut j: usize = 0;
        while j < s.manifest_versions.len()
            invariant
                j <= s.manifest_versions@.len(),
                mi < s.manifests@.len(),
                entry_manifests_ok(*s, em@),
                rows_of(*s, rows@) == history_rows(*s, s.manifest_versions@.len() as int),
                forall|k: int| 0 <= k < rows@.len() ==> #[trigger] rows@[k] < s.manifest_versions@.len(),
                any == exists|q: int| 0 <= q < j && #[trigger] entry_of(*s, q, mi as int),
                all == forall|q: int|
                    0 <= q < j && #[trigger] entry_of(*s, q, mi as int) ==> path_rank(*s, q)
                        >= p.retention_path_cap,
            decreases s.manifest_versions@.len() - j,
        {
            if belongs_to(s, j, mi) {
                any = true;
                let rank = rank_of(s, em, rows, j);
                if rank < p.retention_path_cap {
                    all = false;
                }
            }
            j = j + 1;
        }
        let flag = !m.current && !(m.created_at_ms > cutoff) && any && all;
        flags.push(flag);
        mi = mi + 1;
    }
    flags
}

fn stands_for_own_key(s: &MaintenanceSnapshot, mi: usize) -> (r: bool)
    requires
        mi < s.manifests@.len(),
    ensures
        r == stands_for_key(*s, mi as int),
{
    match find_manifest(s, s.manifests[mi].view_id.as_str(), s.manifests[mi].generation) {
        Some(k) => k == mi,
        None => false,
    }
}

fn retired_manifest_keys(
    s: &MaintenanceSnapshot,
    p: &MaintenancePolicy,
    flags: &Vec<bool>,
) -> (keys_out: Vec<(String, i64)>)
    requires
        flags@.len() == s.manifests@.len(),
        forall|mi: int| 0 <= mi < flags@.len() ==> #[trigger] flags@[mi] == retirable(*s, *p, mi),
    ensures
        strictly_sorted::<(String, i64)>(keys(keys_out@)),
        forall|k: (Seq<char>, i64)| #[trigger]
            keys(keys_out@).contains(k) <==> retired_key(*s, *p, k),
{
    let mut out: Vec<(String, i64)> = Vec::new();
    let mut mi: usize = 0;
    while mi < s.manifests.len()
        invariant
            mi <= s.manifests@.len(),
            flags@.len() == s.manifests@.len(),
            forall|q: int| 0 <= q < flags@.len() ==> #[trigger] flags@[q] == retirable(*s, *p, q),
            strictly_sorted::<(String, i64)>(keys(out@)),
            forall|k: (Seq<char>, i64)| #[trigger]
                keys(out@).contains(k) <==> exists|q: int|
                    0 <= q < mi && stands_for_key(*s, q) && retirable(*s, *p, q) && k == (
                        #[trigger] s.manifests@[q].view_id@,
                        s.manifests@[q].generation,
                    ),
        decreases s.manifests@.len() - mi,
    {
        if flags[mi] && stands_for_own_key(s, mi) {
            let key = (s.manifests[mi].view_id.clone(), s.manifests[mi].generation);
            insert_sorted(&mut out, key);
        }
        proof {
            assert forall|k: (Seq<char>, i64)| #[trigger]
                keys(out@).contains(k) <==> exists|q: int|
                    0 <= q < mi + 1 && stands_for_key(*s, q) && retirable(*s, *p, q) && k == (
                        #[trigger] s.manifests@[q].view_id@,
                        s.manifests@[q].generation,
                    ) by {
                if exists|q: int|
                    0 <= q < mi + 1 && stands_for_key(*s, q) && retirable(*s, *p, q) && k == (
                        #[trigger] s.manifests@[q].view_id@,
                        s.manifests@[q].generation,
                    ) {
                    let q = choose|q: int|
                        0 <= q < mi + 1 && stands_for_key(*s, q) && retirable(*s, *p, q) && k == (
                            #[trigger] s.manifests@[q].view_id@,
                            s.manifests@[q].generation,
                        );
                    if q < mi {
                        assert(exists|q: int|
                            0 <= q < mi && stands_for_key(*s, q) && retirable(*s, *p, q) && k == (
                                #[trigger] s.manifests@[q].view_id@,
                                s.manifests@[q].generation,
                            ));
                    }
                }
            }
        }
        mi = mi + 1;
    }
    out
}


// ---------------------------------------------------------------------
// What each root contributes: a version, a level, and a reason.

impl SortedKey for ProtectionReason {
    type Key = ReasonModel;

    open spec fn key(&self) -> ReasonModel {
        reason_model(*self)
    }

    open spec fn key_lt(a: ReasonModel, b: ReasonModel) -> bool {
        reason_lt(a, b)
    }

    proof fn lemma_key_order(a: ReasonModel, b: ReasonModel, c: ReasonModel) {
        lemma_text_lt_order(a.1, b.1, c.1);
    }

    fn key_less(&self, other: &Self) -> (r: bool) {
        let a = kind_rank_of(self.kind);
        let b = kind_rank_of(other.kind);
        if a != b {
            a < b
        } else {
            str_less(self.reference.as_str(), other.reference.as_str())
        }
    }
}

/// One protection: a version, a level index, and the reason.
pub type ContribModel = (i64, int, ReasonModel);

/// What a complete root gives a version: the root at each level the
/// version has completed.
pub open spec fn completed_contribs(
    f: VersionFact,
    kind: MaintenanceRootKind,
    reference: Seq<char>,
) -> Seq<ContribModel> {
    (if f.complete_l1 {
        seq![(f.version_id, 0int, (kind, reference))]
    } else {
        seq![]
    }) + (if f.complete_l2 {
        seq![(f.version_id, 1int, (kind, reference))]
    } else {
        seq![]
    }) + (if f.complete_l3 {
        seq![(f.version_id, 2int, (kind, reference))]
    } else {
        seq![]
    })
}

/// What manifest entry `j` gives its version. A current manifest protects
/// every level the version has completed. A historical manifest that
/// stays protects level one, as history and as inside the window or under
/// the path cap. A retirable manifest protects nothing.
pub open spec fn entry_contribs(s: MaintenanceSnapshot, p: MaintenancePolicy, j: int) -> Seq<
    ContribModel,
> {
    let e = s.manifest_versions@[j];
    let mi = entry_manifest(s, j);
    let reference = scoped_text(e.view_id@, e.generation as int);
    if s.manifests@[mi].current {
        completed_contribs(fact_for(s, e.version_id), MaintenanceRootKind::CurrentManifest, reference)
    } else if retirable(s, p, mi) {
        seq![]
    } else {
        seq![
            (e.version_id, 0int, (MaintenanceRootKind::HistoricalManifest, reference)),
            (e.version_id, 0int, (
                if inside_window(s, p, mi) {
                    MaintenanceRootKind::RetentionWindow
                } else {
                    MaintenanceRootKind::PathCap
                },
                reference,
            )),
        ]
    }
}

/// What the manifest entries below `n` give.
pub open spec fn manifest_contribs(s: MaintenanceSnapshot, p: MaintenancePolicy, n: int) -> Seq<
    ContribModel,
>
    decreases n,
{
    if n <= 0 {
        seq![]
    } else {
        manifest_contribs(s, p, n - 1) + entry_contribs(s, p, n - 1)
    }
}

/// A root that protects levels one and two.
pub open spec fn pair_contribs(id: i64, kind: MaintenanceRootKind, reference: Seq<char>) -> Seq<
    ContribModel,
> {
    seq![(id, 0int, (kind, reference)), (id, 1int, (kind, reference))]
}

/// What the resolution bases below `n` give.
pub open spec fn base_contribs(bs: Seq<BaseVersionFact>, n: int) -> Seq<ContribModel>
    decreases n,
{
    if n <= 0 {
        seq![]
    } else {
        base_contribs(bs, n - 1) + pair_contribs(
            bs[n - 1].version_id,
            MaintenanceRootKind::ResolutionBase,
            bs[n - 1].base_id@,
        )
    }
}

/// What one resolution delta gives its source and its target.
pub open spec fn delta_contrib(
    d: DeltaVersionFact,
    source_kind: MaintenanceRootKind,
    target_kind: MaintenanceRootKind,
) -> Seq<ContribModel> {
    let reference = scoped_text(d.view_id@, d.delta_generation as int);
    pair_contribs(d.source_version_id, source_kind, reference) + match d.target_version_id {
        Some(t) => pair_contribs(t, target_kind, reference),
        None => seq![],
    }
}

/// What the resolution deltas below `n` give.
pub open spec fn delta_contribs(
    ds: Seq<DeltaVersionFact>,
    source_kind: MaintenanceRootKind,
    target_kind: MaintenanceRootKind,
    n: int,
) -> Seq<ContribModel>
    decreases n,
{
    if n <= 0 {
        seq![]
    } else {
        delta_contribs(ds, source_kind, target_kind, n - 1) + delta_contrib(
            ds[n - 1],
            source_kind,
            target_kind,
        )
    }
}

/// An additional root protects every level up to its maximum.
pub open spec fn extra_contrib(r: VersionRootFact) -> Seq<ContribModel> {
    Seq::new(
        (level_index(r.max_level) + 1) as nat,
        |l: int| (r.version_id, l, (r.kind, r.reference@)),
    )
}

/// What the additional roots below `n` give.
pub open spec fn extra_contribs(rs: Seq<VersionRootFact>, n: int) -> Seq<ContribModel>
    decreases n,
{
    if n <= 0 {
        seq![]
    } else {
        extra_contribs(rs, n - 1) + extra_contrib(rs[n - 1])
    }
}

/// Every protection the snapshot's roots give.
pub open spec fn all_contribs(s: MaintenanceSnapshot, p: MaintenancePolicy) -> Seq<ContribModel> {
    manifest_contribs(s, p, s.manifest_versions@.len() as int) + base_contribs(
        s.base_versions@,
        s.base_versions@.len() as int,
    ) + delta_contribs(
        s.identifier_delta_versions@,
        MaintenanceRootKind::IdentifierDeltaSource,
        MaintenanceRootKind::IdentifierDeltaTarget,
        s.identifier_delta_versions@.len() as int,
    ) + delta_contribs(
        s.pending_delta_versions@,
        MaintenanceRootKind::PendingDeltaSource,
        MaintenanceRootKind::PendingDeltaTarget,
        s.pending_delta_versions@.len() as int,
    ) + extra_contribs(s.additional_version_roots@, s.additional_version_roots@.len() as int)
}

/// Some root protects version `id` at level `level` for reason `r`.
pub open spec fn protects(
    s: MaintenanceSnapshot,
    p: MaintenancePolicy,
    id: i64,
    level: int,
    r: ReasonModel,
) -> bool {
    all_contribs(s, p).contains((id, level, r))
}

struct Contribution {
    version_id: i64,
    level: usize,
    reason: ProtectionReason,
}

spec fn contribution_model(c: Contribution) -> ContribModel {
    (c.version_id, c.level as int, reason_model(c.reason))
}

spec fn contribution_models(cs: Seq<Contribution>) -> Seq<ContribModel> {
    cs.map_values(|c: Contribution| contribution_model(c))
}

fn push_contribution(
    cs: &mut Vec<Contribution>,
    version_id: i64,
    level: usize,
    kind: MaintenanceRootKind,
    reference: &String,
)
    ensures
        contribution_models(final(cs)@) == contribution_models(old(cs)@).push(
            (version_id, level as int, (kind, reference@)),
        ),
{
    cs.push(Contribution { version_id, level, reason: ProtectionReason { kind, reference: reference.clone() } });
    assert(contribution_models(cs@) =~= contribution_models(old(cs)@).push(
        (version_id, level as int, (kind, reference@)),
    ));
}

proof fn lemma_fact_for(s: MaintenanceSnapshot, i: int)
    requires
        version_ids_distinct(s),
        0 <= i < s.versions@.len(),
    ensures
        fact_for(s, s.versions@[i].version_id) == s.versions@[i],
{
    let id = s.versions@[i].version_id;
    let k = choose|k: int| 0 <= k < s.versions@.len() && #[trigger] s.versions@[k].version_id == id;
    assert(0 <= k < s.versions@.len() && s.versions@[k].version_id == id);
    if k != i {
        if k < i {
            assert(s.versions@[k].version_id != s.versions@[i].version_id);
        } else {
            assert(s.versions@[i].version_id != s.versions@[k].version_id);
        }
    }
}

fn gather_manifest_contributions(
    s: &MaintenanceSnapshot,
    p: &MaintenancePolicy,
    em: &Vec<usize>,
    flags: &Vec<bool>,
    cs: &mut Vec<Contribution>,
)
    requires
        version_ids_distinct(*s),
        entry_fault_from(*s, 0) is None,
        entry_manifests_ok(*s, em@),
        flags@.len() == s.manifests@.len(),
        forall|mi: int| 0 <= mi < flags@.len() ==> #[trigger] flags@[mi] == retirable(*s, *p, mi),
    ensures
        contribution_models(final(cs)@) == contribution_models(old(cs)@) + manifest_contribs(
            *s,
            *p,
            s.manifest_versions@.len() as int,
        ),
{
    let cutoff = cutoff_of(s, p);
    let mut j: usize = 0;
    while j < s.manifest_versions.len()
        invariant
            j <= s.manifest_versions@.len(),
            cutoff == retention_cutoff(*s, *p),
            version_ids_distinct(*s),
            entry_fault_from(*s, 0) is None,
            entry_manifests_ok(*s, em@),
            flags@.len() == s.manifests@.len(),
            forall|mi: int| 0 <= mi < flags@.len() ==> #[trigger] flags@[mi] == retirable(*s, *p, mi),
            contribution_models(cs@) == contribution_models(old(cs)@) + manifest_contribs(
                *s,
                *p,
                j as int,
            ),
        decreases s.manifest_versions@.len() - j,
    {
        let ghost before = contribution_models(cs@);
        let e = &s.manifest_versions[j];
        let mi = em[j];
        let m = &s.manifests[mi];
        let reference = scoped_name(e.view_id.as_str(), e.generation);
        proof {
            lemma_entry_resolved(*s, 0, j as int);
        }
        if m.current {
            match version_index(&s.versions, e.version_id) {
                Some(vi) => {
                    proof {
                        lemma_fact_for(*s, vi as int);
                    }
                    let f = &s.versions[vi];
                    if f.complete_l1 {
                        push_contribution(cs, f.version_id, 0, MaintenanceRootKind::CurrentManifest, &reference);
                    }
                    if f.complete_l2 {
                        push_contribution(cs, f.version_id, 1, MaintenanceRootKind::CurrentManifest, &reference);
                    }
                    if f.complete_l3 {
                        push_contribution(cs, f.version_id, 2, MaintenanceRootKind::CurrentManifest, &reference);
                    }
                    assert(contribution_models(cs@) =~= before + completed_contribs(
                        fact_for(*s, e.version_id),
                        MaintenanceRootKind::CurrentManifest,
                        reference@,
                    ));
                },
                None => {
                    assert(false);
                },
            }
        } else if flags[mi] {
            assert(contribution_models(cs@) =~= before + Seq::<ContribModel>::empty());
        } else {
            push_contribution(cs, e.version_id, 0, MaintenanceRootKind::HistoricalManifest, &reference);
            let kind = if m.created_at_ms > cutoff {
                MaintenanceRootKind::RetentionWindow
            } else {
                MaintenanceRootKind::PathCap
            };
            push_contribution(cs, e.version_id, 0, kind, &reference);
        }
        assert(contribution_models(cs@) =~= contribution_models(old(cs)@) + manifest_contribs(
            *s,
            *p,
            j + 1,
        ));
        j = j + 1;
    }
}


fn gather_base_contributions(bs: &Vec<BaseVersionFact>, cs: &mut Vec<Contribution>)
    ensures
        contribution_models(final(cs)@) == contribution_models(old(cs)@) + base_contribs(
            bs@,
            bs@.len() as int,
        ),
{
    let mut j: usize = 0;
    while j < bs.len()
        invariant
            j <= bs@.len(),
            contribution_models(cs@) == contribution_models(old(cs)@) + base_contribs(bs@, j as int),
        decreases bs@.len() - j,
    {
        let b = &bs[j];
        push_contribution(cs, b.version_id, 0, MaintenanceRootKind::ResolutionBase, &b.base_id);
        push_contribution(cs, b.version_id, 1, MaintenanceRootKind::ResolutionBase, &b.base_id);
        assert(contribution_models(cs@) =~= contribution_models(old(cs)@) + base_contribs(
            bs@,
            j + 1,
        ));
        j = j + 1;
    }
}

fn gather_delta_contributions(
    ds: &Vec<DeltaVersionFact>,
    source_kind: MaintenanceRootKind,
    target_kind: MaintenanceRootKind,
    cs: &mut Vec<Contribution>,
)
    ensures
        contribution_models(final(cs)@) == contribution_models(old(cs)@) + delta_contribs(
            ds@,
            source_kind,
            target_kind,
            ds@.len() as int,
        ),
{
    let mut j: usize = 0;
    while j < ds.len()
        invariant
            j <= ds@.len(),
            contribution_models(cs@) == contribution_models(old(cs)@) + delta_contribs(
                ds@,
                source_kind,
                target_kind,
                j as int,
            ),
        decreases ds@.len() - j,
    {
        let d = &ds[j];
        let reference = scoped_name(d.view_id.as_str(), d.delta_generation);
        push_contribution(cs, d.source_version_id, 0, source_kind, &reference);
        push_contribution(cs, d.source_version_id, 1, source_kind, &reference);
        if let Some(t) = d.target_version_id {
            push_contribution(cs, t, 0, target_kind, &reference);
            push_contribution(cs, t, 1, target_kind, &reference);
        }
        assert(contribution_models(cs@) =~= contribution_models(old(cs)@) + delta_contribs(
            ds@,
            source_kind,
            target_kind,
            j + 1,
        ));
        j = j + 1;
    }
}

fn gather_extra_contributions(rs: &Vec<VersionRootFact>, cs: &mut Vec<Contribution>)
    ensures
        contribution_models(final(cs)@) == contribution_models(old(cs)@) + extra_contribs(
            rs@,
            rs@.len() as int,
        ),
{
    let mut j: usize = 0;
    while j < rs.len()
        invariant
            j <= rs@.len(),
            contribution_models(cs@) == contribution_models(old(cs)@) + extra_contribs(rs@, j as int),
        decreases rs@.len() - j,
    {
        let r = &rs[j];
        let ghost before = contribution_models(cs@);
        let top: usize = match r.max_level {
            MaintenanceLevel::L1 => 0,
            MaintenanceLevel::L2 => 1,
            MaintenanceLevel::L3 => 2,
        };
        let mut l: usize = 0;
        while l <= top
            invariant
                l <= top + 1,
                top == level_index(r.max_level),
                contribution_models(cs@) == before + extra_contrib(*r).take(l as int),
            decreases top + 1 - l,
        {
            push_contribution(cs, r.version_id, l, r.kind, &r.reference);
            assert(extra_contrib(*r).take(l + 1) =~= extra_contrib(*r).take(l as int).push(
                (r.version_id, l as int, (r.kind, r.reference@)),
            ));
            l = l + 1;
        }
        assert(extra_contrib(*r).take(l as int) =~= extra_contrib(*r));
        assert(contribution_models(cs@) =~= contribution_models(old(cs)@) + extra_contribs(
            rs@,
            j + 1,
        ));
        j = j + 1;
    }
}

fn gather_contributions(
    s: &MaintenanceSnapshot,
    p: &MaintenancePolicy,
    em: &Vec<usize>,
    flags: &Vec<bool>,
) -> (cs: Vec<Contribution>)
    requires
        version_ids_distinct(*s),
        entry_fault_from(*s, 0) is None,
        entry_manifests_ok(*s, em@),
        flags@.len() == s.manifests@.len(),
        forall|mi: int| 0 <= mi < flags@.len() ==> #[trigger] flags@[mi] == retirable(*s, *p, mi),
    ensures
        contribution_models(cs@) == all_contribs(*s, *p),
{
    let mut cs: Vec<Contribution> = Vec::new();
    gather_manifest_contributions(s, p, em, flags, &mut cs);
    gather_base_contributions(&s.base_versions, &mut cs);
    gather_delta_contributions(
        &s.identifier_delta_versions,
        MaintenanceRootKind::IdentifierDeltaSource,
        MaintenanceRootKind::IdentifierDeltaTarget,
        &mut cs,
    );
    gather_delta_contributions(
        &s.pending_delta_versions,
        MaintenanceRootKind::PendingDeltaSource,
        MaintenanceRootKind::PendingDeltaTarget,
        &mut cs,
    );
    gather_extra_contributions(&s.additional_version_roots, &mut cs);
    assert(contribution_models(cs@) =~= all_contribs(*s, *p));
    cs
}


// ---------------------------------------------------------------------
// One decision per version, in identifier order, with its reasons.

/// A decision's reasons at `level` ascend and are exactly the reasons
/// that `cs` gives its version at that level.
pub open spec fn level_ok(d: VersionDecision, cs: Seq<ContribModel>, level: int) -> bool {
    &&& strictly_sorted::<ProtectionReason>(keys(decision_reasons(d, level)))
    &&& forall|m: ReasonModel|
        #![trigger keys(decision_reasons(d, level)).contains(m)]
        #![trigger cs.contains((d.version_id, level, m))]
        keys(decision_reasons(d, level)).contains(m) <==> cs.contains((d.version_id, level, m))
}

/// A decision's reasons at every level are those `cs` gives.
pub open spec fn reasons_ok(d: VersionDecision, cs: Seq<ContribModel>) -> bool {
    level_ok(d, cs, 0) && level_ok(d, cs, 1) && level_ok(d, cs, 2)
}

/// Some decision is about version `id`.
pub open spec fn decided(ds: Seq<VersionDecision>, id: i64) -> bool {
    exists|i: int| 0 <= i < ds.len() && #[trigger] ds[i].version_id == id
}

/// The decisions of a plan: one per version fact, in ascending identifier
/// order, each carrying its fact's path and size and the reasons the
/// snapshot's roots give it.
pub open spec fn decisions_ok(s: MaintenanceSnapshot, p: MaintenancePolicy, ds: Seq<VersionDecision>) -> bool {
    &&& forall|i: int, j: int|
        0 <= i < j < ds.len() ==> #[trigger] ds[i].version_id < #[trigger] ds[j].version_id
    &&& forall|k: int|
        0 <= k < s.versions@.len() ==> decided(ds, #[trigger] s.versions@[k].version_id)
    &&& forall|i: int|
        0 <= i < ds.len() ==> {
            &&& has_version(s, #[trigger] ds[i].version_id)
            &&& ds[i].path@ == fact_for(s, ds[i].version_id).path@
            &&& ds[i].logical_bytes == fact_for(s, ds[i].version_id).logical_bytes
            &&& reasons_ok(ds[i], all_contribs(s, p))
        }
}

fn first_at_least(ds: &Vec<VersionDecision>, id: i64) -> (r: usize)
    requires
        forall|i: int, j: int|
            0 <= i < j < ds@.len() ==> #[trigger] ds@[i].version_id < #[trigger] ds@[j].version_id,
    ensures
        r <= ds@.len(),
        forall|i: int| 0 <= i < r ==> #[trigger] ds@[i].version_id < id,
        forall|i: int| r <= i < ds@.len() ==> #[trigger] ds@[i].version_id >= id,
{
    let mut lo: usize = 0;
    let mut hi: usize = ds.len();
    while lo < hi
        invariant
            lo <= hi <= ds@.len(),
            forall|i: int, j: int|
                0 <= i < j < ds@.len() ==> #[trigger] ds@[i].version_id < #[trigger] ds@[j].version_id,
            forall|i: int| 0 <= i < lo ==> #[trigger] ds@[i].version_id < id,
            forall|i: int| hi <= i < ds@.len() ==> #[trigger] ds@[i].version_id >= id,
        decreases hi - lo,
    {
        let mid = lo + (hi - lo) / 2;
        if ds[mid].version_id < id {
            assert forall|i: int| 0 <= i < mid + 1 implies #[trigger] ds@[i].version_id < id by {
                if i < mid {
                    assert(ds@[i].version_id < ds@[mid as int].version_id);
                }
            }
            lo = mid + 1;
        } else {
            assert forall|i: int| mid <= i < ds@.len() implies #[trigger] ds@[i].version_id >= id by {
                if i > mid {
                    assert(ds@[mid as int].version_id < ds@[i].version_id);
                }
            }
            hi = mid;
        }
    }
    lo
}

fn empty_decision(f: &VersionFact) -> (d: VersionDecision)
    ensures
        d.version_id == f.version_id,
        d.path@ == f.path@,
        d.logical_bytes == f.logical_bytes,
        d.l1_reasons@.len() == 0,
        d.l2_reasons@.len() == 0,
        d.l3_reasons@.len() == 0,
{
    VersionDecision {
        version_id: f.version_id,
        path: f.path.clone(),
        logical_bytes: f.logical_bytes,
        l1_reasons: Vec::new(),
        l2_reasons: Vec::new(),
        l3_reasons: Vec::new(),
    }
}

/// Decision identifiers strictly ascend.
pub open spec fn ids_ascending(ds: Seq<VersionDecision>) -> bool {
    forall|i: int, j: int|
        0 <= i < j < ds.len() ==> #[trigger] ds[i].version_id < #[trigger] ds[j].version_id
}

spec fn covers_facts(s: MaintenanceSnapshot, ds: Seq<VersionDecision>, n: int) -> bool {
    forall|k: int| 0 <= k < n ==> decided(ds, #[trigger] s.versions@[k].version_id)
}

spec fn from_facts(s: MaintenanceSnapshot, ds: Seq<VersionDecision>, n: int) -> bool {
    forall|i: int|
        0 <= i < ds.len() ==> exists|k: int|
            0 <= k < n && #[trigger] s.versions@[k].version_id == #[trigger] ds[i].version_id
                && ds[i].path@ == s.versions@[k].path@ && ds[i].logical_bytes
                == s.versions@[k].logical_bytes
}

spec fn no_reasons_yet(ds: Seq<VersionDecision>) -> bool {
    forall|i: int|
        0 <= i < ds.len() ==> #[trigger] ds[i].l1_reasons@.len() == 0 && ds[i].l2_reasons@.len()
            == 0 && ds[i].l3_reasons@.len() == 0
}

/// The decision skeleton: one empty decision per fact, by identifier.
spec fn skeleton_ok(s: MaintenanceSnapshot, ds: Seq<VersionDecision>, n: int) -> bool {
    ids_ascending(ds) && covers_facts(s, ds, n) && from_facts(s, ds, n) && no_reasons_yet(ds)
}

proof fn lemma_insert_ascending(old_ds: Seq<VersionDecision>, d: VersionDecision, pos: int)
    requires
        ids_ascending(old_ds),
        0 <= pos <= old_ds.len(),
        forall|i: int| 0 <= i < pos ==> #[trigger] old_ds[i].version_id < d.version_id,
        forall|i: int| pos <= i < old_ds.len() ==> #[trigger] old_ds[i].version_id > d.version_id,
    ensures
        ids_ascending(old_ds.insert(pos, d)),
{
    let nd = old_ds.insert(pos, d);
    assert forall|i: int, j: int| 0 <= i < j < nd.len() implies #[trigger] nd[i].version_id
        < #[trigger] nd[j].version_id by {
        if j < pos {
            assert(nd[i] == old_ds[i] && nd[j] == old_ds[j]);
        } else if j == pos {
            assert(nd[i] == old_ds[i]);
        } else if i < pos {
            assert(nd[i] == old_ds[i] && nd[j] == old_ds[j - 1]);
        } else if i == pos {
            assert(nd[j] == old_ds[j - 1]);
        } else {
            assert(nd[i] == old_ds[i - 1] && nd[j] == old_ds[j - 1]);
        }
    }
}

proof fn lemma_insert_covers(
    s: MaintenanceSnapshot,
    old_ds: Seq<VersionDecision>,
    d: VersionDecision,
    pos: int,
    k: int,
)
    requires
        covers_facts(s, old_ds, k),
        0 <= k < s.versions@.len(),
        0 <= pos <= old_ds.len(),
        d.version_id == s.versions@[k].version_id,
    ensures
        covers_facts(s, old_ds.insert(pos, d), k + 1),
{
    let nd = old_ds.insert(pos, d);
    assert forall|q: int| 0 <= q < k + 1 implies decided(nd, #[trigger] s.versions@[q].version_id) by {
        if q == k {
            assert(nd[pos].version_id == s.versions@[q].version_id);
        } else {
            assert(decided(old_ds, s.versions@[q].version_id));
            let i = choose|i: int|
                0 <= i < old_ds.len() && #[trigger] old_ds[i].version_id
                    == s.versions@[q].version_id;
            if i < pos {
                assert(nd[i].version_id == s.versions@[q].version_id);
            } else {
                assert(nd[i + 1].version_id == s.versions@[q].version_id);
            }
        }
    }
}

proof fn lemma_insert_from_facts(
    s: MaintenanceSnapshot,
    old_ds: Seq<VersionDecision>,
    d: VersionDecision,
    pos: int,
    k: int,
)
    requires
        from_facts(s, old_ds, k),
        0 <= k < s.versions@.len(),
        0 <= pos <= old_ds.len(),
        d.version_id == s.versions@[k].version_id,
        d.path@ == s.versions@[k].path@,
        d.logical_bytes == s.versions@[k].logical_bytes,
    ensures
        from_facts(s, old_ds.insert(pos, d), k + 1),
{
    let nd = old_ds.insert(pos, d);
    assert forall|i: int| 0 <= i < nd.len() implies exists|q: int|
        0 <= q < k + 1 && #[trigger] s.versions@[q].version_id == #[trigger] nd[i].version_id
            && nd[i].path@ == s.versions@[q].path@ && nd[i].logical_bytes
            == s.versions@[q].logical_bytes by {
        if i == pos {
            assert(s.versions@[k].version_id == nd[i].version_id);
        } else {
            let oi = if i < pos {
                i
            } else {
                i - 1
            };
            assert(nd[i] == old_ds[oi]);
            let q = choose|q: int|
                0 <= q < k && #[trigger] s.versions@[q].version_id == #[trigger] old_ds[oi].version_id
                    && old_ds[oi].path@ == s.versions@[q].path@ && old_ds[oi].logical_bytes
                    == s.versions@[q].logical_bytes;
            assert(s.versions@[q].version_id == nd[i].version_id);
        }
    }
}

proof fn lemma_insert_no_reasons(old_ds: Seq<VersionDecision>, d: VersionDecision, pos: int)
    requires
        no_reasons_yet(old_ds),
        0 <= pos <= old_ds.len(),
        d.l1_reasons@.len() == 0,
        d.l2_reasons@.len() == 0,
        d.l3_reasons@.len() == 0,
    ensures
        no_reasons_yet(old_ds.insert(pos, d)),
{
    let nd = old_ds.insert(pos, d);
    assert forall|i: int| 0 <= i < nd.len() implies #[trigger] nd[i].l1_reasons@.len() == 0
        && nd[i].l2_reasons@.len() == 0 && nd[i].l3_reasons@.len() == 0 by {
        if i < pos {
            assert(nd[i] == old_ds[i]);
        } else if i > pos {
            assert(nd[i] == old_ds[i - 1]);
        }
    }
}

proof fn lemma_skeleton_insert(
    s: MaintenanceSnapshot,
    old_ds: Seq<VersionDecision>,
    d: VersionDecision,
    pos: int,
    k: int,
)
    requires
        0 <= k < s.versions@.len(),
        version_ids_distinct(s),
        skeleton_ok(s, old_ds, k),
        0 <= pos <= old_ds.len(),
        forall|i: int| 0 <= i < pos ==> #[trigger] old_ds[i].version_id < s.versions@[k].version_id,
        forall|i: int|
            pos <= i < old_ds.len() ==> #[trigger] old_ds[i].version_id >= s.versions@[k].version_id,
        d.version_id == s.versions@[k].version_id,
        d.path@ == s.versions@[k].path@,
        d.logical_bytes == s.versions@[k].logical_bytes,
        d.l1_reasons@.len() == 0,
        d.l2_reasons@.len() == 0,
        d.l3_reasons@.len() == 0,
    ensures
        skeleton_ok(s, old_ds.insert(pos, d), k + 1),
{
    assert forall|i: int| pos <= i < old_ds.len() implies #[trigger] old_ds[i].version_id
        > d.version_id by {
        let w = choose|w: int|
            0 <= w < k && #[trigger] s.versions@[w].version_id == #[trigger] old_ds[i].version_id
                && old_ds[i].path@ == s.versions@[w].path@ && old_ds[i].logical_bytes
                == s.versions@[w].logical_bytes;
        assert(s.versions@[w].version_id != s.versions@[k].version_id);
    }
    lemma_insert_ascending(old_ds, d, pos);
    lemma_insert_covers(s, old_ds, d, pos, k);
    lemma_insert_from_facts(s, old_ds, d, pos, k);
    lemma_insert_no_reasons(old_ds, d, pos);
}

fn decision_skeleton(s: &MaintenanceSnapshot) -> (ds: Vec<VersionDecision>)
    requires
        version_ids_distinct(*s),
    ensures
        skeleton_ok(*s, ds@, s.versions@.len() as int),
{
    let mut ds: Vec<VersionDecision> = Vec::new();
    let mut k: usize = 0;
    while k < s.versions.len()
        invariant
            k <= s.versions@.len(),
            version_ids_distinct(*s),
            skeleton_ok(*s, ds@, k as int),
        decreases s.versions@.len() - k,
    {
        let f = &s.versions[k];
        let pos = first_at_least(&ds, f.version_id);
        let d = empty_decision(f);
        proof {
            lemma_skeleton_insert(*s, ds@, d, pos as int, k as int);
        }
        ds.insert(pos, d);
        k = k + 1;
    }
    ds
}


proof fn lemma_take_push<A>(cs: Seq<A>, k: int, x: A)
    requires
        0 <= k < cs.len(),
    ensures
        cs.take(k + 1).contains(x) <==> (cs.take(k).contains(x) || x == cs[k]),
{
    if cs.take(k + 1).contains(x) {
        let w = choose|w: int| 0 <= w < k + 1 && #[trigger] cs.take(k + 1)[w] == x;
        if w < k {
            assert(cs.take(k)[w] == x);
        }
    }
    if cs.take(k).contains(x) {
        let w = choose|w: int| 0 <= w < k && #[trigger] cs.take(k)[w] == x;
        assert(cs.take(k + 1)[w] == x);
    }
    if x == cs[k] {
        assert(cs.take(k + 1)[k] == x);
    }
}

/// Frame of the reasons pass: identifiers, paths and sizes stay put.
spec fn same_frame(a: Seq<VersionDecision>, b: Seq<VersionDecision>) -> bool {
    &&& a.len() == b.len()
    &&& forall|i: int|
        0 <= i < a.len() ==> #[trigger] a[i].version_id == b[i].version_id && a[i].path == b[i].path
            && a[i].logical_bytes == b[i].logical_bytes
}

proof fn lemma_level_untouched(
    d_old: VersionDecision,
    d_new: VersionDecision,
    cms: Seq<ContribModel>,
    k: int,
    level: int,
)
    requires
        0 <= k < cms.len(),
        level_ok(d_old, cms.take(k), level),
        d_new.version_id == d_old.version_id,
        decision_reasons(d_new, level) == decision_reasons(d_old, level),
        cms[k].0 != d_old.version_id || cms[k].1 != level,
    ensures
        level_ok(d_new, cms.take(k + 1), level),
{
    assert forall|m: ReasonModel|
        #![trigger keys(decision_reasons(d_new, level)).contains(m)]
        #![trigger cms.take(k + 1).contains((d_new.version_id, level, m))]
        keys(decision_reasons(d_new, level)).contains(m) <==> cms.take(k + 1).contains(
            (d_new.version_id, level, m),
        ) by {
        lemma_take_push(cms, k, (d_new.version_id, level, m));
    }
}

proof fn lemma_level_extended(
    d_old: VersionDecision,
    d_new: VersionDecision,
    cms: Seq<ContribModel>,
    k: int,
    level: int,
    r: ReasonModel,
)
    requires
        0 <= k < cms.len(),
        level_ok(d_old, cms.take(k), level),
        d_new.version_id == d_old.version_id,
        cms[k] == (d_old.version_id, level, r),
        strictly_sorted::<ProtectionReason>(keys(decision_reasons(d_new, level))),
        forall|m: ReasonModel| #[trigger]
            keys(decision_reasons(d_new, level)).contains(m) <==> (keys(
                decision_reasons(d_old, level),
            ).contains(m) || m == r),
    ensures
        level_ok(d_new, cms.take(k + 1), level),
{
    assert forall|m: ReasonModel|
        #![trigger keys(decision_reasons(d_new, level)).contains(m)]
        #![trigger cms.take(k + 1).contains((d_new.version_id, level, m))]
        keys(decision_reasons(d_new, level)).contains(m) <==> cms.take(k + 1).contains(
            (d_new.version_id, level, m),
        ) by {
        lemma_take_push(cms, k, (d_new.version_id, level, m));
        assert(keys(decision_reasons(d_old, level)).contains(m) <==> cms.take(k).contains(
            (d_old.version_id, level, m),
        ));
    }
}

fn copy_reason(r: &ProtectionReason) -> (c: ProtectionReason)
    ensures
        c == *r,
{
    ProtectionReason { kind: r.kind, reference: r.reference.clone() }
}

fn attach_one(
    ds: &mut Vec<VersionDecision>,
    c: &Contribution,
    Ghost(cms): Ghost<Seq<ContribModel>>,
    Ghost(k): Ghost<int>,
)
    requires
        0 <= k < cms.len(),
        cms[k] == contribution_model(*c),
        ids_ascending(old(ds)@),
        forall|i: int| 0 <= i < old(ds)@.len() ==> reasons_ok(#[trigger] old(ds)@[i], cms.take(k)),
    ensures
        same_frame(final(ds)@, old(ds)@),
        ids_ascending(final(ds)@),
        forall|i: int|
            0 <= i < final(ds)@.len() ==> reasons_ok(#[trigger] final(ds)@[i], cms.take(k + 1)),
{
    let ghost before = ds@;
    let pos = first_at_least(ds, c.version_id);
    let hit = pos < ds.len() && ds[pos].version_id == c.version_id && c.level <= 2;
    if hit {
        let r = copy_reason(&c.reason);
        if c.level == 0 {
            insert_sorted(&mut ds[pos].l1_reasons, r);
        } else if c.level == 1 {
            insert_sorted(&mut ds[pos].l2_reasons, r);
        } else {
            insert_sorted(&mut ds[pos].l3_reasons, r);
        }
    }
    proof {
        assert forall|i: int| 0 <= i < ds@.len() implies #[trigger] ds@[i].version_id
            == before[i].version_id && ds@[i].path == before[i].path && ds@[i].logical_bytes
            == before[i].logical_bytes by {
            if !hit || i != pos {
                assert(ds@[i] == before[i]);
            }
        }
        assert forall|i: int| 0 <= i < ds@.len() implies reasons_ok(
            #[trigger] ds@[i],
            cms.take(k + 1),
        ) by {
            let d_old = before[i];
            let d_new = ds@[i];
            assert(reasons_ok(d_old, cms.take(k)));
            if hit && i == pos {
                let lv = c.level as int;
                let r = reason_model(c.reason);
                assert(cms[k] == (d_old.version_id, lv, r));
                assert(keys(seq![c.reason]) =~= seq![r]);
                if lv == 0 {
                    lemma_level_extended(d_old, d_new, cms, k, 0, r);
                    lemma_level_untouched(d_old, d_new, cms, k, 1);
                    lemma_level_untouched(d_old, d_new, cms, k, 2);
                } else if lv == 1 {
                    lemma_level_untouched(d_old, d_new, cms, k, 0);
                    lemma_level_extended(d_old, d_new, cms, k, 1, r);
                    lemma_level_untouched(d_old, d_new, cms, k, 2);
                } else {
                    lemma_level_untouched(d_old, d_new, cms, k, 0);
                    lemma_level_untouched(d_old, d_new, cms, k, 1);
                    lemma_level_extended(d_old, d_new, cms, k, 2, r);
                }
            } else {
                assert(d_new == d_old);
                if cms[k].0 == d_old.version_id && 0 <= cms[k].1 <= 2 {
                    if i < pos {
                        assert(before[i].version_id < c.version_id);
                    } else if i > pos {
                        assert(before[pos as int].version_id < before[i].version_id);
                    }
                }
                lemma_level_untouched(d_old, d_new, cms, k, 0);
                lemma_level_untouched(d_old, d_new, cms, k, 1);
                lemma_level_untouched(d_old, d_new, cms, k, 2);
            }
        }
    }
}


proof fn lemma_no_reasons_at(ds: Seq<VersionDecision>, i: int)
    requires
        no_reasons_yet(ds),
        0 <= i < ds.len(),
    ensures
        ds[i].l1_reasons@.len() == 0,
        ds[i].l2_reasons@.len() == 0,
        ds[i].l3_reasons@.len() == 0,
{
    assert(ds[i].l1_reasons@.len() == 0 && ds[i].l2_reasons@.len() == 0 && ds[i].l3_reasons@.len()
        == 0);
}

proof fn lemma_reasons_start(ds: Seq<VersionDecision>, cms: Seq<ContribModel>)
    requires
        no_reasons_yet(ds),
    ensures
        forall|i: int| 0 <= i < ds.len() ==> reasons_ok(#[trigger] ds[i], cms.take(0)),
{
    assert forall|i: int| 0 <= i < ds.len() implies reasons_ok(#[trigger] ds[i], cms.take(0)) by {
        lemma_no_reasons_at(ds, i);
        assert(cms.take(0) =~= Seq::<ContribModel>::empty());
        assert(keys(ds[i].l1_reasons@) =~= Seq::<ReasonModel>::empty());
        assert(keys(ds[i].l2_reasons@) =~= Seq::<ReasonModel>::empty());
        assert(keys(ds[i].l3_reasons@) =~= Seq::<ReasonModel>::empty());
    }
}

proof fn lemma_decisions_final(
    s: MaintenanceSnapshot,
    p: MaintenancePolicy,
    ds: Seq<VersionDecision>,
    skel: Seq<VersionDecision>,
)
    requires
        version_ids_distinct(s),
        ids_ascending(ds),
        same_frame(ds, skel),
        covers_facts(s, skel, s.versions@.len() as int),
        from_facts(s, skel, s.versions@.len() as int),
        forall|i: int| 0 <= i < ds.len() ==> reasons_ok(#[trigger] ds[i], all_contribs(s, p)),
    ensures
        decisions_ok(s, p, ds),
{
    assert forall|i: int| 0 <= i < ds.len() implies {
        &&& has_version(s, #[trigger] ds[i].version_id)
        &&& ds[i].path@ == fact_for(s, ds[i].version_id).path@
        &&& ds[i].logical_bytes == fact_for(s, ds[i].version_id).logical_bytes
        &&& reasons_ok(ds[i], all_contribs(s, p))
    } by {
        assert(skel[i].version_id == ds[i].version_id);
        let q = choose|q: int|
            0 <= q < s.versions@.len() && #[trigger] s.versions@[q].version_id
                == #[trigger] skel[i].version_id && skel[i].path@ == s.versions@[q].path@
                && skel[i].logical_bytes == s.versions@[q].logical_bytes;
        lemma_fact_for(s, q);
    }
    assert forall|q: int| 0 <= q < s.versions@.len() implies decided(
        ds,
        #[trigger] s.versions@[q].version_id,
    ) by {
        assert(decided(skel, s.versions@[q].version_id));
        let i = choose|i: int|
            0 <= i < skel.len() && #[trigger] skel[i].version_id == s.versions@[q].version_id;
        assert(ds[i].version_id == skel[i].version_id);
    }
}

fn plan_decisions(
    s: &MaintenanceSnapshot,
    p: &MaintenancePolicy,
    cs: &Vec<Contribution>,
) -> (ds: Vec<VersionDecision>)
    requires
        version_ids_distinct(*s),
        contribution_models(cs@) == all_contribs(*s, *p),
    ensures
        decisions_ok(*s, *p, ds@),
{
    let mut ds = decision_skeleton(s);
    let ghost skel = ds@;
    let ghost cms = contribution_models(cs@);
    proof {
        lemma_reasons_start(ds@, cms);
    }
    let mut k: usize = 0;
    while k < cs.len()
        invariant
            k <= cs@.len(),
            cms == contribution_models(cs@),
            ids_ascending(ds@),
            same_frame(ds@, skel),
            forall|i: int| 0 <= i < ds@.len() ==> reasons_ok(#[trigger] ds@[i], cms.take(k as int)),
        decreases cs@.len() - k,
    {
        let ghost mid = ds@;
        attach_one(&mut ds, &cs[k], Ghost(cms), Ghost(k as int));
        proof {
            assert forall|i: int| 0 <= i < ds@.len() implies #[trigger] ds@[i].version_id
                == skel[i].version_id && ds@[i].path == skel[i].path && ds@[i].logical_bytes
                == skel[i].logical_bytes by {
                assert(mid[i].version_id == skel[i].version_id);
            }
        }
        k = k + 1;
    }
    proof {
        assert(cms.take(cs@.len() as int) =~= cms);
        lemma_decisions_final(*s, *p, ds@, skel);
    }
    ds
}


// ---------------------------------------------------------------------
// Sizes.

/// The logical bytes of the first `n` facts whose version satisfies
/// `pred`.
pub open spec fn bytes_where(vs: Seq<VersionFact>, pred: spec_fn(i64) -> bool, n: int) -> int
    decreases n,
{
    if n <= 0 {
        0
    } else {
        bytes_where(vs, pred, n - 1) + if pred(vs[n - 1].version_id) {
            vs[n - 1].logical_bytes as int
        } else {
            0
        }
    }
}

proof fn lemma_bytes_where_nonneg(vs: Seq<VersionFact>, pred: spec_fn(i64) -> bool, n: int)
    ensures
        0 <= bytes_where(vs, pred, n),
    decreases n,
{
    if n > 0 {
        lemma_bytes_where_nonneg(vs, pred, n - 1);
    }
}

proof fn lemma_bytes_where_monotone(vs: Seq<VersionFact>, pred: spec_fn(i64) -> bool, n: int, m: int)
    requires
        n <= m,
    ensures
        bytes_where(vs, pred, n) <= bytes_where(vs, pred, m),
    decreases m - n,
{
    if n < m {
        lemma_bytes_where_monotone(vs, pred, n, m - 1);
    }
}

/// Some root other than retention history protects version `id` at
/// level one: the current view needs it.
pub open spec fn needed_now(s: MaintenanceSnapshot, p: MaintenancePolicy, id: i64) -> bool {
    exists|m: ReasonModel| #[trigger] protects(s, p, id, 0, m) && !is_retention_only(m.0)
}

/// Version `id` is held by a manifest that may be retired.
pub open spec fn held_by_retirable(s: MaintenanceSnapshot, p: MaintenancePolicy, id: i64) -> bool {
    exists|j: int|
        0 <= j < s.manifest_versions@.len() && #[trigger] s.manifest_versions@[j].version_id == id
            && retirable(s, p, entry_manifest(s, j))
}

/// Versions the current view needs.
pub open spec fn needed_pred(s: MaintenanceSnapshot, p: MaintenancePolicy) -> spec_fn(i64) -> bool {
    |id: i64| needed_now(s, p, id)
}

/// Every version.
pub open spec fn any_pred() -> spec_fn(i64) -> bool {
    |id: i64| true
}

/// Versions held by retirable manifests.
pub open spec fn held_pred(s: MaintenanceSnapshot, p: MaintenancePolicy) -> spec_fn(i64) -> bool {
    |id: i64| held_by_retirable(s, p, id)
}

/// The logical bytes the current view needs.
pub open spec fn protected_total(s: MaintenanceSnapshot, p: MaintenancePolicy) -> int {
    bytes_where(s.versions@, needed_pred(s, p), s.versions@.len() as int)
}

/// The logical bytes of every version.
pub open spec fn retained_total(s: MaintenanceSnapshot) -> int {
    bytes_where(s.versions@, any_pred(), s.versions@.len() as int)
}

/// The logical bytes of versions held by retirable manifests.
pub open spec fn eligible_total(s: MaintenanceSnapshot, p: MaintenancePolicy) -> int {
    bytes_where(s.versions@, held_pred(s, p), s.versions@.len() as int)
}

fn checked_bytes(
    vs: &Vec<VersionFact>,
    counted: &Vec<bool>,
    Ghost(pred): Ghost<spec_fn(i64) -> bool>,
) -> (r: Option<u64>)
    requires
        counted@.len() == vs@.len(),
        forall|k: int| 0 <= k < vs@.len() ==> #[trigger] counted@[k] == pred(vs@[k].version_id),
    ensures
        r matches Some(v) ==> v == bytes_where(vs@, pred, vs@.len() as int),
        r is None <==> bytes_where(vs@, pred, vs@.len() as int) > u64::MAX,
{
    let mut total: u64 = 0;
    let mut k: usize = 0;
    while k < vs.len()
        invariant
            k <= vs@.len(),
            counted@.len() == vs@.len(),
            forall|q: int| 0 <= q < vs@.len() ==> #[trigger] counted@[q] == pred(vs@[q].version_id),
            total == bytes_where(vs@, pred, k as int),
        decreases vs@.len() - k,
    {
        if counted[k] {
            match total.checked_add(vs[k].logical_bytes) {
                Some(t) => {
                    total = t;
                },
                None => {
                    proof {
                        lemma_bytes_where_monotone(vs@, pred, k + 1, vs@.len() as int);
                    }
                    return None;
                },
            }
        }
        k = k + 1;
    }
    Some(total)
}

fn needs_now(d: &VersionDecision, Ghost(cs): Ghost<Seq<ContribModel>>) -> (r: bool)
    requires
        level_ok(*d, cs, 0),
    ensures
        r == exists|m: ReasonModel| #[trigger] cs.contains((d.version_id, 0, m)) && !is_retention_only(m.0),
{
    let mut i: usize = 0;
    while i < d.l1_reasons.len()
        invariant
            i <= d.l1_reasons@.len(),
            level_ok(*d, cs, 0),
            forall|q: int| 0 <= q < i ==> is_retention_only(#[trigger] d.l1_reasons@[q].kind),
        decreases d.l1_reasons@.len() - i,
    {
        if !retention_only(d.l1_reasons[i].kind) {
            proof {
                let m = reason_model(d.l1_reasons@[i as int]);
                assert(keys(decision_reasons(*d, 0))[i as int] == m);
                assert(keys(decision_reasons(*d, 0)).contains(m));
                assert(cs.contains((d.version_id, 0, m)));
            }
            return true;
        }
        i = i + 1;
    }
    proof {
        assert forall|m: ReasonModel| #[trigger] cs.contains((d.version_id, 0, m)) implies is_retention_only(m.0) by {
            assert(keys(decision_reasons(*d, 0)).contains(m));
            let q = choose|q: int| 0 <= q < keys(decision_reasons(*d, 0)).len() && keys(decision_reasons(*d, 0))[q] == m;
            assert(reason_model(d.l1_reasons@[q]) == m);
        }
    }
    false
}

/// Per decision, whether a retirable manifest holds its version.
fn retirable_holders(
    s: &MaintenanceSnapshot,
    p: &MaintenancePolicy,
    em: &Vec<usize>,
    flags: &Vec<bool>,
    ds: &Vec<VersionDecision>,
) -> (held: Vec<bool>)
    requires
        entry_manifests_ok(*s, em@),
        flags@.len() == s.manifests@.len(),
        forall|mi: int| 0 <= mi < flags@.len() ==> #[trigger] flags@[mi] == retirable(*s, *p, mi),
        ids_ascending(ds@),
    ensures
        held@.len() == ds@.len(),
        forall|i: int| 0 <= i < ds@.len() ==> #[trigger] held@[i] == held_by_retirable(*s, *p, ds@[i].version_id),
{
    let mut held: Vec<bool> = Vec::new();
    let mut i: usize = 0;
    while i < ds.len()
        invariant
            i <= ds@.len(),
            held@.len() == i,
            forall|q: int| 0 <= q < i ==> !#[trigger] held@[q],
        decreases ds@.len() - i,
    {
        held.push(false);
        i = i + 1;
    }
    let mut j: usize = 0;
    while j < s.manifest_versions.len()
        invariant
            j <= s.manifest_versions@.len(),
            held@.len() == ds@.len(),
            entry_manifests_ok(*s, em@),
            flags@.len() == s.manifests@.len(),
            forall|mi: int| 0 <= mi < flags@.len() ==> #[trigger] flags@[mi] == retirable(*s, *p, mi),
            ids_ascending(ds@),
            forall|q: int| 0 <= q < ds@.len() ==> #[trigger] held@[q] == exists|e: int|
                0 <= e < j && #[trigger] s.manifest_versions@[e].version_id == ds@[q].version_id
                    && retirable(*s, *p, entry_manifest(*s, e)),
        decreases s.manifest_versions@.len() - j,
    {
        let ghost before = held@;
        let id = s.manifest_versions[j].version_id;
        if flags[em[j]] {
            let pos = first_at_least(ds, id);
            if pos < ds.len() && ds[pos].version_id == id {
                held.set(pos, true);
            }
            proof {
                assert forall|q: int| 0 <= q < ds@.len() implies #[trigger] held@[q] == exists|e: int|
                    0 <= e < j + 1 && #[trigger] s.manifest_versions@[e].version_id == ds@[q].version_id
                        && retirable(*s, *p, entry_manifest(*s, e)) by {
                    if ds@[q].version_id == id {
                        if q < pos {
                            assert(ds@[q].version_id < id);
                        } else if q > pos {
                            assert(ds@[pos as int].version_id < ds@[q].version_id);
                        }
                        assert(s.manifest_versions@[j as int].version_id == ds@[q].version_id);
                    }
                    if before[q] != held@[q] {
                        assert(q == pos);
                    }
                    if exists|e: int|
                        0 <= e < j + 1 && #[trigger] s.manifest_versions@[e].version_id == ds@[q].version_id
                            && retirable(*s, *p, entry_manifest(*s, e)) {
                        let e = choose|e: int|
                            0 <= e < j + 1 && #[trigger] s.manifest_versions@[e].version_id == ds@[q].version_id
                                && retirable(*s, *p, entry_manifest(*s, e));
                        if e < j {
                            assert(exists|e: int|
                                0 <= e < j && #[trigger] s.manifest_versions@[e].version_id == ds@[q].version_id
                                    && retirable(*s, *p, entry_manifest(*s, e)));
                        }
                    }
                }
            }
        } else {
            proof {
                assert forall|q: int| 0 <= q < ds@.len() implies #[trigger] held@[q] == exists|e: int|
                    0 <= e < j + 1 && #[trigger] s.manifest_versions@[e].version_id == ds@[q].version_id
                        && retirable(*s, *p, entry_manifest(*s, e)) by {
                    if exists|e: int|
                        0 <= e < j + 1 && #[trigger] s.manifest_versions@[e].version_id == ds@[q].version_id
                            && retirable(*s, *p, entry_manifest(*s, e)) {
                        let e = choose|e: int|
                            0 <= e < j + 1 && #[trigger] s.manifest_versions@[e].version_id == ds@[q].version_id
                                && retirable(*s, *p, entry_manifest(*s, e));
                        if e < j {
                            assert(exists|e: int|
                                0 <= e < j && #[trigger] s.manifest_versions@[e].version_id == ds@[q].version_id
                                    && retirable(*s, *p, entry_manifest(*s, e)));
                        }
                    }
                }
            }
        }
        j = j + 1;
    }
    held
}


fn decision_at(ds: &Vec<VersionDecision>, id: i64) -> (i: usize)
    requires
        ids_ascending(ds@),
        decided(ds@, id),
    ensures
        i < ds@.len(),
        ds@[i as int].version_id == id,
{
    let i = first_at_least(ds, id);
    proof {
        let w = choose|w: int| 0 <= w < ds@.len() && #[trigger] ds@[w].version_id == id;
        if w < i {
            assert(ds@[w].version_id < id);
        }
        if i < ds@.len() && ds@[i as int].version_id != id {
            assert(ds@[i as int].version_id < ds@[w].version_id);
        }
    }
    i
}

/// What the planner reads per version: whether the current view needs
/// it and whether a retirable manifest holds it (in fact order), and the
/// completed levels of each decision's fact (in decision order).
struct VersionFlags {
    needed: Vec<bool>,
    held: Vec<bool>,
    done_l2: Vec<bool>,
    done_l3: Vec<bool>,
}

fn version_flags(
    s: &MaintenanceSnapshot,
    p: &MaintenancePolicy,
    ds: &Vec<VersionDecision>,
    held_by: &Vec<bool>,
) -> (r: VersionFlags)
    requires
        version_ids_distinct(*s),
        decisions_ok(*s, *p, ds@),
        held_by@.len() == ds@.len(),
        forall|i: int| 0 <= i < ds@.len() ==> #[trigger] held_by@[i] == held_by_retirable(*s, *p, ds@[i].version_id),
    ensures
        r.needed@.len() == s.versions@.len(),
        r.held@.len() == s.versions@.len(),
        forall|k: int| 0 <= k < s.versions@.len() ==> #[trigger] r.needed@[k] == needed_now(*s, *p, s.versions@[k].version_id),
        forall|k: int| 0 <= k < s.versions@.len() ==> #[trigger] r.held@[k] == held_by_retirable(*s, *p, s.versions@[k].version_id),
        r.done_l2@.len() == ds@.len(),
        r.done_l3@.len() == ds@.len(),
        forall|i: int| 0 <= i < ds@.len() ==> #[trigger] r.done_l2@[i] == fact_for(*s, ds@[i].version_id).complete_l2,
        forall|i: int| 0 <= i < ds@.len() ==> #[trigger] r.done_l3@[i] == fact_for(*s, ds@[i].version_id).complete_l3,
{
    let ghost cs = all_contribs(*s, *p);
    let mut done_l2: Vec<bool> = Vec::new();
    let mut done_l3: Vec<bool> = Vec::new();
    let mut i: usize = 0;
    while i < ds.len()
        invariant
            i <= ds@.len(),
            version_ids_distinct(*s),
            decisions_ok(*s, *p, ds@),
            done_l2@.len() == i,
            done_l3@.len() == i,
            forall|q: int| 0 <= q < i ==> #[trigger] done_l2@[q] == fact_for(*s, ds@[q].version_id).complete_l2,
            forall|q: int| 0 <= q < i ==> #[trigger] done_l3@[q] == fact_for(*s, ds@[q].version_id).complete_l3,
        decreases ds@.len() - i,
    {
        let id = ds[i].version_id;
        assert(has_version(*s, ds@[i as int].version_id));
        match version_index(&s.versions, id) {
            Some(k) => {
                proof {
                    lemma_fact_for(*s, k as int);
                }
                done_l2.push(s.versions[k].complete_l2);
                done_l3.push(s.versions[k].complete_l3);
            },
            None => {
                assert(false);
                done_l2.push(false);
                done_l3.push(false);
            },
        }
        i = i + 1;
    }
    let mut needed: Vec<bool> = Vec::new();
    let mut held: Vec<bool> = Vec::new();
    let mut k: usize = 0;
    while k < s.versions.len()
        invariant
            k <= s.versions@.len(),
            cs == all_contribs(*s, *p),
            decisions_ok(*s, *p, ds@),
            held_by@.len() == ds@.len(),
            forall|i: int| 0 <= i < ds@.len() ==> #[trigger] held_by@[i] == held_by_retirable(*s, *p, ds@[i].version_id),
            needed@.len() == k,
            held@.len() == k,
            forall|q: int| 0 <= q < k ==> #[trigger] needed@[q] == needed_now(*s, *p, s.versions@[q].version_id),
            forall|q: int| 0 <= q < k ==> #[trigger] held@[q] == held_by_retirable(*s, *p, s.versions@[q].version_id),
        decreases s.versions@.len() - k,
    {
        let id = s.versions[k].version_id;
        assert(decided(ds@, s.versions@[k as int].version_id));
        let i = decision_at(ds, id);
        assert(reasons_ok(ds@[i as int], cs));
        let need = needs_now(&ds[i], Ghost(cs));
        proof {
            assert(need == needed_now(*s, *p, id)) by {
                if need {
                    let m = choose|m: ReasonModel| #[trigger] cs.contains((id, 0, m)) && !is_retention_only(m.0);
                    assert(protects(*s, *p, id, 0, m));
                }
                if needed_now(*s, *p, id) {
                    let m = choose|m: ReasonModel| #[trigger] protects(*s, *p, id, 0, m) && !is_retention_only(m.0);
                    assert(cs.contains((id, 0, m)));
                }
            }
        }
        needed.push(need);
        held.push(held_by[i]);
        k = k + 1;
    }
    VersionFlags { needed, held, done_l2, done_l3 }
}

// ---------------------------------------------------------------------
// The demotion cohort.

/// The dirty bytes a demotion is expected to write: the version's size,
/// kept between 4 KiB and the cohort's byte budget.
pub open spec fn demotion_estimate(bytes: u64) -> u64 {
    if bytes < MIN_DEMOTION_ESTIMATE {
        MIN_DEMOTION_ESTIMATE
    } else if bytes > MAX_DEMOTION_BYTES {
        MAX_DEMOTION_BYTES
    } else {
        bytes
    }
}

/// Whether a decision's version can lose a level in this pass: level
/// three where it is complete and unprotected there; otherwise level two
/// where that is the top complete level and unprotected.
pub open spec fn demotable(s: MaintenanceSnapshot, d: VersionDecision, drop_l3: bool) -> bool {
    let f = fact_for(s, d.version_id);
    if drop_l3 {
        f.complete_l3 && d.l3_reasons@.len() == 0
    } else {
        !f.complete_l3 && f.complete_l2 && d.l2_reasons@.len() == 0
    }
}

/// One pass over the decisions from `i` on: take each demotable version
/// while the cohort has fewer than 100 versions and its estimate stays
/// within the byte budget; stop at the first that does not fit.
pub open spec fn cohort_from(
    s: MaintenanceSnapshot,
    ds: Seq<VersionDecision>,
    drop_l3: bool,
    i: int,
    taken: Seq<DemotionCandidate>,
    bytes: int,
) -> Seq<DemotionCandidate>
    decreases ds.len() - i,
{
    if i < 0 || i >= ds.len() {
        taken
    } else if !demotable(s, ds[i], drop_l3) {
        cohort_from(s, ds, drop_l3, i + 1, taken, bytes)
    } else {
        let estimate = demotion_estimate(ds[i].logical_bytes);
        if taken.len() >= MAX_DEMOTION_VERSIONS || bytes + estimate > MAX_DEMOTION_BYTES {
            taken
        } else {
            cohort_from(
                s,
                ds,
                drop_l3,
                i + 1,
                taken.push(
                    DemotionCandidate {
                        version_id: ds[i].version_id,
                        estimated_dirty_bytes: estimate,
                        drop_l3,
                        drop_l2: !drop_l3,
                    },
                ),
                bytes + estimate,
            )
        }
    }
}

/// The cohort: level-three demotions if any fit, else level-two ones.
pub open spec fn demotion_plan(s: MaintenanceSnapshot, ds: Seq<VersionDecision>) -> Seq<DemotionCandidate> {
    let first = cohort_from(s, ds, true, 0, seq![], 0);
    if first.len() > 0 {
        first
    } else {
        cohort_from(s, ds, false, 0, seq![], 0)
    }
}

/// The estimated dirty bytes of a cohort.
pub open spec fn estimate_sum(c: Seq<DemotionCandidate>) -> int
    decreases c.len(),
{
    if c.len() == 0 {
        0
    } else {
        estimate_sum(c.drop_last()) + c.last().estimated_dirty_bytes
    }
}

fn estimate_of(bytes: u64) -> (r: u64)
    ensures
        r == demotion_estimate(bytes),
{
    if bytes < MIN_DEMOTION_ESTIMATE {
        MIN_DEMOTION_ESTIMATE
    } else if bytes > MAX_DEMOTION_BYTES {
        MAX_DEMOTION_BYTES
    } else {
        bytes
    }
}

fn cohort_pass(
    s: &MaintenanceSnapshot,
    ds: &Vec<VersionDecision>,
    done_l2: &Vec<bool>,
    done_l3: &Vec<bool>,
    drop_l3: bool,
) -> (r: (Vec<DemotionCandidate>, u64))
    requires
        done_l2@.len() == ds@.len(),
        done_l3@.len() == ds@.len(),
        forall|i: int| 0 <= i < ds@.len() ==> #[trigger] done_l2@[i] == fact_for(*s, ds@[i].version_id).complete_l2,
        forall|i: int| 0 <= i < ds@.len() ==> #[trigger] done_l3@[i] == fact_for(*s, ds@[i].version_id).complete_l3,
    ensures
        r.0@ == cohort_from(*s, ds@, drop_l3, 0, seq![], 0),
        r.1 == estimate_sum(r.0@),
        r.1 <= MAX_DEMOTION_BYTES,
{
    let mut taken: Vec<DemotionCandidate> = Vec::new();
    let mut bytes: u64 = 0;
    let mut i: usize = 0;
    while i < ds.len()
        invariant
            i <= ds@.len(),
            done_l2@.len() == ds@.len(),
            done_l3@.len() == ds@.len(),
            forall|q: int| 0 <= q < ds@.len() ==> #[trigger] done_l2@[q] == fact_for(*s, ds@[q].version_id).complete_l2,
            forall|q: int| 0 <= q < ds@.len() ==> #[trigger] done_l3@[q] == fact_for(*s, ds@[q].version_id).complete_l3,
            cohort_from(*s, ds@, drop_l3, 0, seq![], 0) == cohort_from(*s, ds@, drop_l3, i as int, taken@, bytes as int),
            bytes == estimate_sum(taken@),
            bytes <= MAX_DEMOTION_BYTES,
        decreases ds@.len() - i,
    {
        let d = &ds[i];
        let eligible = if drop_l3 {
            done_l3[i] && d.l3_reasons.len() == 0
        } else {
            !done_l3[i] && done_l2[i] && d.l2_reasons.len() == 0
        };
        if eligible {
            let estimate = estimate_of(d.logical_bytes);
            if taken.len() >= MAX_DEMOTION_VERSIONS || bytes + estimate > MAX_DEMOTION_BYTES {
                return (taken, bytes);
            }
            let ghost before = taken@;
            taken.push(
                DemotionCandidate {
                    version_id: d.version_id,
                    estimated_dirty_bytes: estimate,
                    drop_l3,
                    drop_l2: !drop_l3,
                },
            );
            proof {
                assert(taken@.drop_last() =~= before);
            }
            bytes = bytes + estimate;
        }
        i = i + 1;
    }
    (taken, bytes)
}

fn plan_demotions(
    s: &MaintenanceSnapshot,
    ds: &Vec<VersionDecision>,
    done_l2: &Vec<bool>,
    done_l3: &Vec<bool>,
) -> (r: (Vec<DemotionCandidate>, u64))
    requires
        done_l2@.len() == ds@.len(),
        done_l3@.len() == ds@.len(),
        forall|i: int| 0 <= i < ds@.len() ==> #[trigger] done_l2@[i] == fact_for(*s, ds@[i].version_id).complete_l2,
        forall|i: int| 0 <= i < ds@.len() ==> #[trigger] done_l3@[i] == fact_for(*s, ds@[i].version_id).complete_l3,
    ensures
        r.0@ == demotion_plan(*s, ds@),
        r.1 == estimate_sum(r.0@),
{
    let first = cohort_pass(s, ds, done_l2, done_l3, true);
    if first.0.len() > 0 {
        first
    } else {
        cohort_pass(s, ds, done_l2, done_l3, false)
    }
}


// ---------------------------------------------------------------------
// Canonical lists.

/// The text naming a failed path: `view:generation:language:path`.
pub open spec fn failed_text(f: FailedPathFact) -> Seq<char> {
    scoped_text(f.view_id@, f.generation as int) + seq![':'] + f.language@ + seq![':'] + f.path@
}

/// `out` holds the distinct texts of `input`, ascending.
pub open spec fn sorted_texts_of(out: Seq<String>, input: Seq<String>) -> bool {
    &&& strictly_sorted::<String>(keys(out))
    &&& forall|k: Seq<char>|
        #![trigger keys(out).contains(k)]
        #![trigger holds_text(input, k)]
        keys(out).contains(k) <==> holds_text(input, k)
}

/// Some string of `v` reads `k`.
pub open spec fn holds_text(v: Seq<String>, k: Seq<char>) -> bool {
    exists|i: int| 0 <= i < v.len() && #[trigger] v[i]@ == k
}

/// Some current failed path reads `k`.
pub open spec fn current_failure(fs: Seq<FailedPathFact>, k: Seq<char>) -> bool {
    exists|j: int| 0 <= j < fs.len() && fs[j].current && #[trigger] failed_text(fs[j]) == k
}

fn failed_texts(facts: &Vec<FailedPathFact>) -> (out: Vec<String>)
    ensures
        forall|k: Seq<char>|
            #![trigger holds_text(out@, k)]
            #![trigger current_failure(facts@, k)]
            holds_text(out@, k) <==> current_failure(facts@, k),
{
    let mut out: Vec<String> = Vec::new();
    let mut j: usize = 0;
    while j < facts.len()
        invariant
            j <= facts@.len(),
            forall|k: Seq<char>|
                #![trigger holds_text(out@, k)]
                #![trigger current_failure(facts@.take(j as int), k)]
                holds_text(out@, k) <==> current_failure(facts@.take(j as int), k),
        decreases facts@.len() - j,
    {
        let f = &facts[j];
        let ghost before = out@;
        let ghost pre = facts@.take(j as int);
        let ghost post = facts@.take(j + 1);
        if f.current {
            let mut text = scoped_name(f.view_id.as_str(), f.generation);
            push_char(&mut text, ':');
            push_str(&mut text, f.language.as_str());
            push_char(&mut text, ':');
            push_str(&mut text, f.path.as_str());
            assert(text@ =~= failed_text(*f));
            out.push(text);
        }
        proof {
            assert forall|k: Seq<char>|
                #![trigger holds_text(out@, k)]
                #![trigger current_failure(post, k)]
                holds_text(out@, k) <==> current_failure(post, k) by {
                if holds_text(out@, k) {
                    let i = choose|i: int| 0 <= i < out@.len() && #[trigger] out@[i]@ == k;
                    if i < before.len() {
                        assert(holds_text(before, k));
                        let q = choose|q: int| 0 <= q < pre.len() && pre[q].current && #[trigger] failed_text(pre[q]) == k;
                        assert(post[q] == pre[q]);
                    } else {
                        assert(post[j as int] == facts@[j as int]);
                        assert(failed_text(post[j as int]) == k);
                    }
                }
                if current_failure(post, k) {
                    let q = choose|q: int| 0 <= q < post.len() && post[q].current && #[trigger] failed_text(post[q]) == k;
                    if q < j {
                        assert(pre[q] == post[q]);
                        assert(current_failure(pre, k));
                        let i = choose|i: int| 0 <= i < before.len() && #[trigger] before[i]@ == k;
                        assert(out@[i]@ == k);
                    } else {
                        assert(post[q] == facts@[j as int]);
                        assert(out@[before.len() as int]@ == k);
                    }
                }
            }
        }
        j = j + 1;
    }
    assert(facts@.take(facts@.len() as int) =~= facts@);
    out
}

/// The sort key of an allocator mark: its kind, then its scope.
pub open spec fn mark_lt(a: AllocatorMark, b: AllocatorMark) -> bool {
    text_lt(a.kind@, b.kind@) || (a.kind@ == b.kind@ && text_lt(a.scope_id@, b.scope_id@))
}

/// Where a stable insertion puts `m`: before the first mark from `i` on
/// that sorts strictly after it.
pub open spec fn mark_position(sorted: Seq<AllocatorMark>, m: AllocatorMark, i: int) -> int
    decreases sorted.len() - i,
{
    if i < 0 || i >= sorted.len() {
        sorted.len() as int
    } else if mark_lt(m, sorted[i]) {
        i
    } else {
        mark_position(sorted, m, i + 1)
    }
}

/// The first `n` marks, stably sorted by kind and scope.
pub open spec fn stable_marks(ms: Seq<AllocatorMark>, n: int) -> Seq<AllocatorMark>
    decreases n,
{
    if n <= 0 {
        seq![]
    } else {
        let prev = stable_marks(ms, n - 1);
        prev.insert(mark_position(prev, ms[n - 1], 0), ms[n - 1])
    }
}

fn mark_less(a: &AllocatorMark, b: &AllocatorMark) -> (r: bool)
    ensures
        r == mark_lt(*a, *b),
{
    if str_less(a.kind.as_str(), b.kind.as_str()) {
        true
    } else if crate::text::str_eq(a.kind.as_str(), b.kind.as_str()) {
        str_less(a.scope_id.as_str(), b.scope_id.as_str())
    } else {
        false
    }
}

fn copy_mark(m: &AllocatorMark) -> (c: AllocatorMark)
    ensures
        c == *m,
{
    AllocatorMark { kind: m.kind.clone(), scope_id: m.scope_id.clone(), high_water: m.high_water }
}

fn canonical_marks(ms: &Vec<AllocatorMark>) -> (out: Vec<AllocatorMark>)
    ensures
        out@ == stable_marks(ms@, ms@.len() as int),
{
    let mut out: Vec<AllocatorMark> = Vec::new();
    let mut n: usize = 0;
    while n < ms.len()
        invariant
            n <= ms@.len(),
            out@ == stable_marks(ms@, n as int),
        decreases ms@.len() - n,
    {
        let m = copy_mark(&ms[n]);
        let mut i: usize = 0;
        while i < out.len() && !mark_less(&m, &out[i])
            invariant
                i <= out@.len(),
                m == ms@[n as int],
                mark_position(out@, m, 0) == mark_position(out@, m, i as int),
            decreases out@.len() - i,
        {
            i = i + 1;
        }
        out.insert(i, m);
        n = n + 1;
    }
    out
}

/// A binding in canonical form: the same binding with its allocator
/// marks stably sorted by kind and scope.
pub open spec fn binding_canonical(b: PlanBinding, c: PlanBinding) -> bool {
    &&& c.family_id == b.family_id
    &&& c.current_generation == b.current_generation
    &&& c.store_root_fingerprint == b.store_root_fingerprint
    &&& c.coordinator_root_fingerprint == b.coordinator_root_fingerprint
    &&& c.store_log_max == b.store_log_max
    &&& c.request_watermark == b.request_watermark
    &&& c.allocator_marks@ == stable_marks(b.allocator_marks@, b.allocator_marks@.len() as int)
}

fn canonical_binding(b: &PlanBinding) -> (c: PlanBinding)
    ensures
        binding_canonical(*b, c),
{
    PlanBinding {
        family_id: b.family_id.clone(),
        current_generation: b.current_generation.clone(),
        store_root_fingerprint: b.store_root_fingerprint.clone(),
        coordinator_root_fingerprint: b.coordinator_root_fingerprint.clone(),
        store_log_max: b.store_log_max,
        request_watermark: b.request_watermark,
        allocator_marks: canonical_marks(&b.allocator_marks),
    }
}

fn copy_keys(v: &Vec<(String, i64)>) -> (out: Vec<(String, i64)>)
    ensures
        keys(out@) == keys(v@),
{
    let mut out: Vec<(String, i64)> = Vec::new();
    let mut i: usize = 0;
    while i < v.len()
        invariant
            i <= v@.len(),
            out@.len() == i,
            keys(out@) == keys(v@).take(i as int),
        decreases v@.len() - i,
    {
        let ghost before = out@;
        let item = (v[i].0.clone(), v[i].1);
        out.push(item);
        proof {
            assert forall|q: int| 0 <= q < i + 1 implies keys(out@)[q] == keys(v@).take(i + 1)[q] by {
                if q < i {
                    assert(out@[q] == before[q]);
                    assert(keys(before)[q] == keys(v@).take(i as int)[q]);
                } else {
                    assert(out@[q] == item);
                }
            }
            assert(keys(out@) =~= keys(v@).take(i + 1));
        }
        i = i + 1;
    }
    assert(keys(v@).take(i as int) =~= keys(v@));
    out
}


// ---------------------------------------------------------------------
// The plan.

/// The bytes the store occupies on disk: pages, write-ahead log, bases
/// and scratch, summed with saturation.
pub open spec fn measured_bytes(c: MaintenanceCapacity) -> u64 {
    clamp_u64(
        clamp_u64(clamp_u64(c.store_page_bytes + c.store_wal_bytes) + c.base_bytes)
            + c.scratch_bytes,
    )
}

/// The physical baseline: the recorded one, or the measured size when
/// none is recorded.
pub open spec fn baseline_bytes(c: MaintenanceCapacity) -> u64 {
    if c.retention_baseline_bytes == 0 {
        measured_bytes(c)
    } else {
        c.retention_baseline_bytes
    }
}

/// An overflow while sizing, by the name of the quantity.
pub open spec fn overflow_fault(field: Seq<char>) -> Fault {
    ("invalid_maintenance_metadata"@, field, "overflow"@)
}

/// Why a snapshot cannot be planned under a policy, checked in this
/// order: the policy, duplicate versions, unknown roots, then overflow of
/// the needed bytes, the retained bytes, the logical target and ceiling,
/// the retirable bytes, and the physical target and ceiling.
pub open spec fn plan_fault(s: MaintenanceSnapshot, p: MaintenancePolicy) -> Option<Fault> {
    let protected = protected_total(s, p);
    let baseline = baseline_bytes(s.capacity);
    if policy_fault(p) is Some {
        Some(("invalid_maintenance_policy"@, policy_fault(p)->0, seq![]))
    } else if !version_ids_distinct(s) {
        Some(("invalid_maintenance_metadata"@, "version_id"@, "duplicate"@))
    } else if root_fault(s) is Some {
        root_fault(s)
    } else if protected > u64::MAX {
        Some(overflow_fault("protected_current_bytes"@))
    } else if retained_total(s) > u64::MAX {
        Some(overflow_fault("retained_logical_bytes"@))
    } else if ratio_of(protected as u64, p.target_numerator, p.target_denominator) is None
        || ratio_of(protected as u64, p.ceiling_numerator, p.ceiling_denominator) is None {
        Some(overflow_fault("retention_ratio"@))
    } else if eligible_total(s, p) > u64::MAX {
        Some(overflow_fault("eligible_bytes"@))
    } else if ratio_of(baseline, p.target_numerator, p.target_denominator) is None || ratio_of(
        baseline,
        p.ceiling_numerator,
        p.ceiling_denominator,
    ) is None {
        Some(overflow_fault("retention_ratio"@))
    } else {
        None
    }
}

/// The retention figures of a plannable snapshot.
pub open spec fn retention_of(s: MaintenanceSnapshot, p: MaintenancePolicy) -> RetentionPlan {
    let protected = protected_total(s, p) as u64;
    let retained = retained_total(s) as u64;
    let target = ratio_of(protected, p.target_numerator, p.target_denominator)->0;
    let measured = measured_bytes(s.capacity);
    let baseline = baseline_bytes(s.capacity);
    let physical_target = ratio_of(baseline, p.target_numerator, p.target_denominator)->0;
    let physical_ceiling = ratio_of(baseline, p.ceiling_numerator, p.ceiling_denominator)->0;
    RetentionPlan {
        protected_current_bytes: protected,
        retained_logical_bytes: retained,
        eligible_bytes: eligible_total(s, p) as u64,
        target_bytes: target,
        ceiling_bytes: ratio_of(protected, p.ceiling_numerator, p.ceiling_denominator)->0,
        pressure: retained > target,
        physical_current_bytes: measured,
        physical_baseline_bytes: baseline,
        physical_target_bytes: physical_target,
        physical_ceiling_bytes: physical_ceiling,
        physical_target_breached: measured > physical_target,
        physical_ceiling_breached: measured > physical_ceiling,
        physical_breach_limit: p.physical_breach_limit,
        physical_breach_streak: s.capacity.retention_breach_streak,
        compaction_required: s.capacity.retention_breach_streak >= p.physical_breach_limit,
    }
}

/// The capacity figures of a plan, given its cohort's estimated bytes.
pub open spec fn capacity_of(c: MaintenanceCapacity, headroom: u64) -> CapacityPlan {
    let gc = clamp_u64(clamp_u64(headroom + c.store_wal_bytes) + CHECKPOINT_HEADROOM_BYTES);
    let promotion = clamp_u64(
        clamp_u64(clamp_u64(c.staged_generation_bytes + c.store_wal_bytes) + JOURNAL_RETENTION_BYTES)
            + CHECKPOINT_HEADROOM_BYTES,
    );
    CapacityPlan {
        facts: c,
        measured_bytes: measured_bytes(c),
        free_bytes: c.free_bytes,
        demotion_wal_headroom_bytes: headroom,
        gc_required_bytes: gc,
        promotion_required_bytes: promotion,
        gc_fits: c.free_bytes >= gc,
        promotion_fits: c.free_bytes >= promotion,
    }
}

/// Everything a plan says of a plannable snapshot, but for its
/// fingerprint.
pub open spec fn plan_matches(s: MaintenanceSnapshot, p: MaintenancePolicy, plan: MaintenancePlan) -> bool {
    &&& binding_canonical(s.binding, plan.binding)
    &&& decisions_ok(s, p, plan.versions@)
    &&& strictly_sorted::<(String, i64)>(keys(plan.eligible_manifests@))
    &&& forall|k: (Seq<char>, i64)| #[trigger]
        keys(plan.eligible_manifests@).contains(k) <==> retired_key(s, p, k)
    &&& keys(plan.pressure_only_manifests@) == if plan.retention.pressure
        || plan.retention.physical_ceiling_breached {
        Seq::<(Seq<char>, i64)>::empty()
    } else {
        keys(plan.eligible_manifests@)
    }
    &&& plan.demotion_cohort@ == demotion_plan(s, plan.versions@)
    &&& sorted_texts_of(plan.protected_bases@, s.protected_bases@)
    &&& sorted_texts_of(plan.eligible_bases@, s.eligible_bases@)
    &&& sorted_texts_of(plan.protected_deltas@, s.protected_deltas@)
    &&& sorted_texts_of(plan.eligible_deltas@, s.eligible_deltas@)
    &&& sorted_texts_of(plan.protected_pins@, s.protected_pins@)
    &&& sorted_texts_of(plan.expired_pins@, s.expired_pins@)
    &&& sorted_texts_of(plan.protected_requests@, s.protected_requests@)
    &&& sorted_texts_of(plan.protected_scratch@, s.protected_scratch@)
    &&& sorted_texts_of(plan.protected_cursors@, s.protected_cursors@)
    &&& sorted_texts_of(plan.protected_generations@, s.protected_generations@)
    &&& strictly_sorted::<String>(keys(plan.protected_failed_paths@))
    &&& forall|k: Seq<char>|
        #![trigger keys(plan.protected_failed_paths@).contains(k)]
        #![trigger current_failure(s.failed_paths@, k)]
        keys(plan.protected_failed_paths@).contains(k) <==> current_failure(s.failed_paths@, k)
    &&& plan.retention == retention_of(s, p)
    &&& plan.capacity == capacity_of(s.capacity, estimate_sum(plan.demotion_cohort@) as u64)
    &&& plan.max_observed_window == 0
}

/// Law: a plan never makes a view's current manifest eligible for
/// removal: the manifest that stands for each eligible key is not current.
pub proof fn lemma_eligible_manifests_not_current(
    s: MaintenanceSnapshot,
    p: MaintenancePolicy,
    plan: MaintenancePlan,
    key: (Seq<char>, i64),
)
    requires
        plan_matches(s, p, plan),
        keys(plan.eligible_manifests@).contains(key),
    ensures
        exists|mi: int|
            0 <= mi < s.manifests@.len() && stands_for_key(s, mi) && !s.manifests@[mi].current && key == (
                #[trigger] s.manifests@[mi].view_id@,
                s.manifests@[mi].generation,
            ),
{
    assert(retired_key(s, p, key));
}

/// Law: a plan makes a historical manifest eligible for removal only when
/// it has left the retention window and its paths are past the path cap.
/// The manifest standing for an eligible key is not current, was created
/// no later than `now_ms` less the window of `retention_window_days`
/// days, holds at least one entry, and every path it holds is held by at
/// least `retention_path_cap` distinct newer historical manifests. So a
/// manifest whose path no newer historical manifest holds stays, however
/// old, while the cap is positive.
pub proof fn lemma_eligible_manifests_past_window_and_cap(
    s: MaintenanceSnapshot,
    p: MaintenancePolicy,
    plan: MaintenancePlan,
    key: (Seq<char>, i64),
)
    requires
        plan_matches(s, p, plan),
        keys(plan.eligible_manifests@).contains(key),
    ensures
        exists|mi: int|
            #![trigger s.manifests@[mi]]
            {
                &&& 0 <= mi < s.manifests@.len()
                &&& stands_for_key(s, mi)
                &&& key == (s.manifests@[mi].view_id@, s.manifests@[mi].generation)
                &&& !s.manifests@[mi].current
                &&& s.manifests@[mi].created_at_ms <= clamp_i64(
                    s.now_ms - clamp_i64(p.retention_window_days * 86_400_000),
                )
                &&& exists|j: int|
                    0 <= j < s.manifest_versions@.len() && s.manifest_versions@[j].view_id@
                        == s.manifests@[mi].view_id@ && #[trigger] s.manifest_versions@[j].generation
                        == s.manifests@[mi].generation
                &&& forall|j: int|
                    0 <= j < s.manifest_versions@.len() && s.manifest_versions@[j].view_id@
                        == s.manifests@[mi].view_id@ && s.manifest_versions@[j].generation
                        == s.manifests@[mi].generation ==> #[trigger] path_rank(s, j)
                        >= p.retention_path_cap
            },
{
    assert(retired_key(s, p, key));
    let mi = choose|mi: int|
        0 <= mi < s.manifests@.len() && stands_for_key(s, mi) && retirable(s, p, mi) && key == (
            #[trigger] s.manifests@[mi].view_id@,
            s.manifests@[mi].generation,
        );
    let j0 = choose|j: int| 0 <= j < s.manifest_versions@.len() && #[trigger] entry_of(s, j, mi);
    assert(s.manifest_versions@[j0].generation == s.manifests@[mi].generation);
    assert forall|j: int|
        0 <= j < s.manifest_versions@.len() && s.manifest_versions@[j].view_id@ == s.manifests@[mi].view_id@
            && s.manifest_versions@[j].generation == s.manifests@[mi].generation implies #[trigger] path_rank(
        s,
        j,
    ) >= p.retention_path_cap by {
        assert(entry_of(s, j, mi));
    }
}

/// Law: a historical manifest past both limits is made eligible. When the
/// manifest standing for its key is not current, was created no later
/// than `now_ms` less the retention window, holds an entry, and every path
/// it holds is held by at least `retention_path_cap` newer historical
/// manifests, the plan lists its key among the eligible ones.
pub proof fn lemma_manifests_past_window_and_cap_are_eligible(
    s: MaintenanceSnapshot,
    p: MaintenancePolicy,
    plan: MaintenancePlan,
    mi: int,
)
    requires
        plan_matches(s, p, plan),
        0 <= mi < s.manifests@.len(),
        stands_for_key(s, mi),
        !s.manifests@[mi].current,
        s.manifests@[mi].created_at_ms <= clamp_i64(s.now_ms - clamp_i64(p.retention_window_days * 86_400_000)),
        exists|j: int|
            0 <= j < s.manifest_versions@.len() && s.manifest_versions@[j].view_id@ == s.manifests@[mi].view_id@
                && #[trigger] s.manifest_versions@[j].generation == s.manifests@[mi].generation,
        forall|j: int|
            0 <= j < s.manifest_versions@.len() && s.manifest_versions@[j].view_id@ == s.manifests@[mi].view_id@
                && s.manifest_versions@[j].generation == s.manifests@[mi].generation ==> #[trigger] path_rank(s, j)
                >= p.retention_path_cap,
    ensures
        keys(plan.eligible_manifests@).contains((s.manifests@[mi].view_id@, s.manifests@[mi].generation)),
{
    let j0 = choose|j: int|
        0 <= j < s.manifest_versions@.len() && s.manifest_versions@[j].view_id@ == s.manifests@[mi].view_id@
            && #[trigger] s.manifest_versions@[j].generation == s.manifests@[mi].generation;
    assert(entry_of(s, j0, mi));
    assert forall|j: int| 0 <= j < s.manifest_versions@.len() && #[trigger] entry_of(s, j, mi) implies path_rank(
        s,
        j,
    ) >= p.retention_path_cap by {}
    assert(retirable(s, p, mi));
    assert(retired_key(s, p, (s.manifests@[mi].view_id@, s.manifests@[mi].generation)));
}

fn overflow(field: &'static str) -> (e: MaintenanceError)
    ensures
        fault_of(e) == overflow_fault(field@),
{
    proof {
        reveal_strlit("overflow");
    }
    invalid_metadata(field, owned("overflow"))
}

fn all_counted(n: usize) -> (v: Vec<bool>)
    ensures
        v@.len() == n,
        forall|k: int| 0 <= k < n ==> #[trigger] v@[k],
{
    let mut v: Vec<bool> = Vec::new();
    let mut i: usize = 0;
    while i < n
        invariant
            i <= n,
            v@.len() == i,
            forall|k: int| 0 <= k < i ==> #[trigger] v@[k],
        decreases n - i,
    {
        v.push(true);
        i = i + 1;
    }
    v
}

fn measured_of(c: &MaintenanceCapacity) -> (r: u64)
    ensures
        r == measured_bytes(*c),
{
    saturating_add_u64(
        saturating_add_u64(saturating_add_u64(c.store_page_bytes, c.store_wal_bytes), c.base_bytes),
        c.scratch_bytes,
    )
}

fn capacity_plan(c: &MaintenanceCapacity, headroom: u64) -> (r: CapacityPlan)
    ensures
        r == capacity_of(*c, headroom),
{
    let gc = saturating_add_u64(
        saturating_add_u64(headroom, c.store_wal_bytes),
        CHECKPOINT_HEADROOM_BYTES,
    );
    let promotion = saturating_add_u64(
        saturating_add_u64(
            saturating_add_u64(c.staged_generation_bytes, c.store_wal_bytes),
            JOURNAL_RETENTION_BYTES,
        ),
        CHECKPOINT_HEADROOM_BYTES,
    );
    CapacityPlan {
        facts: *c,
        measured_bytes: measured_of(c),
        free_bytes: c.free_bytes,
        demotion_wal_headroom_bytes: headroom,
        gc_required_bytes: gc,
        promotion_required_bytes: promotion,
        gc_fits: c.free_bytes >= gc,
        promotion_fits: c.free_bytes >= promotion,
    }
}

/// The plan of a plannable snapshot before it is sealed: every field
/// that `plan_matches` states, and an empty fingerprint.
fn plan_unsealed(snapshot: &MaintenanceSnapshot, policy: &MaintenancePolicy) -> (r: Result<
    MaintenancePlan,
    MaintenanceError,
>)
    ensures
        r is Ok <==> plan_fault(*snapshot, *policy) is None,
        r matches Err(e) ==> Some(fault_of(e)) == plan_fault(*snapshot, *policy),
        r matches Ok(plan) ==> plan_matches(*snapshot, *policy, plan) && plan.fingerprint@.len() == 0,
{
    let s = snapshot;
    let p = policy;
    match validate_policy(p) {
        Ok(()) => {},
        Err(e) => {
            return Err(e);
        },
    }
    if !check_distinct_versions(s) {
        proof {
            reveal_strlit("duplicate");
            reveal_strlit("version_id");
        }
        return Err(invalid_metadata("version_id", owned("duplicate")));
    }
    match check_roots(s) {
        Ok(()) => {},
        Err(e) => {
            return Err(e);
        },
    }
    let em = entry_manifests(s);
    let rows = history_row_entries(s, &em);
    let flags = retirement_flags(s, p, &em, &rows);
    let eligible_manifests = retired_manifest_keys(s, p, &flags);
    let cs = gather_contributions(s, p, &em, &flags);
    let versions = plan_decisions(s, p, &cs);
    let held_by = retirable_holders(s, p, &em, &flags, &versions);
    let vf = version_flags(s, p, &versions, &held_by);
    proof {
        reveal_strlit("protected_current_bytes");
        reveal_strlit("retained_logical_bytes");
        reveal_strlit("retention_ratio");
        reveal_strlit("eligible_bytes");
    }
    let protected = match checked_bytes(&s.versions, &vf.needed, Ghost(needed_pred(*s, *p))) {
        Some(v) => v,
        None => {
            return Err(overflow("protected_current_bytes"));
        },
    };
    let every = all_counted(s.versions.len());
    let retained = match checked_bytes(&s.versions, &every, Ghost(any_pred())) {
        Some(v) => v,
        None => {
            return Err(overflow("retained_logical_bytes"));
        },
    };
    let target_bytes = match ratio_bytes(protected, p.target_numerator, p.target_denominator) {
        Ok(v) => v,
        Err(e) => {
            return Err(e);
        },
    };
    let ceiling_bytes = match ratio_bytes(protected, p.ceiling_numerator, p.ceiling_denominator) {
        Ok(v) => v,
        Err(e) => {
            return Err(e);
        },
    };
    let eligible_bytes = match checked_bytes(&s.versions, &vf.held, Ghost(held_pred(*s, *p))) {
        Some(v) => v,
        None => {
            return Err(overflow("eligible_bytes"));
        },
    };
    let measured = measured_of(&s.capacity);
    let baseline = if s.capacity.retention_baseline_bytes == 0 {
        measured
    } else {
        s.capacity.retention_baseline_bytes
    };
    let physical_target = match ratio_bytes(baseline, p.target_numerator, p.target_denominator) {
        Ok(v) => v,
        Err(e) => {
            return Err(e);
        },
    };
    let physical_ceiling = match ratio_bytes(baseline, p.ceiling_numerator, p.ceiling_denominator) {
        Ok(v) => v,
        Err(e) => {
            return Err(e);
        },
    };
    let physical_target_breached = measured > physical_target;
    let physical_ceiling_breached = measured > physical_ceiling;
    let pressure = retained > target_bytes;
    let pressure_only_manifests = if pressure || physical_ceiling_breached {
        Vec::new()
    } else {
        copy_keys(&eligible_manifests)
    };
    let (demotion_cohort, headroom) = plan_demotions(s, &versions, &vf.done_l2, &vf.done_l3);
    let capacity = capacity_plan(&s.capacity, headroom);
    let failed = failed_texts(&s.failed_paths);
    let protected_failed_paths = sorted_unique(&failed);
    let retention = RetentionPlan {
        protected_current_bytes: protected,
        retained_logical_bytes: retained,
        eligible_bytes,
        target_bytes,
        ceiling_bytes,
        pressure,
        physical_current_bytes: measured,
        physical_baseline_bytes: baseline,
        physical_target_bytes: physical_target,
        physical_ceiling_bytes: physical_ceiling,
        physical_target_breached,
        physical_ceiling_breached,
        physical_breach_limit: p.physical_breach_limit,
        physical_breach_streak: s.capacity.retention_breach_streak,
        compaction_required: s.capacity.retention_breach_streak >= p.physical_breach_limit,
    };
    let plan = MaintenancePlan {
        binding: canonical_binding(&s.binding),
        fingerprint: String::new(),
        versions,
        eligible_manifests,
        pressure_only_manifests,
        demotion_cohort,
        protected_bases: sorted_unique(&s.protected_bases),
        eligible_bases: sorted_unique(&s.eligible_bases),
        protected_deltas: sorted_unique(&s.protected_deltas),
        eligible_deltas: sorted_unique(&s.eligible_deltas),
        protected_pins: sorted_unique(&s.protected_pins),
        expired_pins: sorted_unique(&s.expired_pins),
        protected_requests: sorted_unique(&s.protected_requests),
        protected_scratch: sorted_unique(&s.protected_scratch),
        protected_cursors: sorted_unique(&s.protected_cursors),
        protected_generations: sorted_unique(&s.protected_generations),
        protected_failed_paths,
        retention,
        capacity,
        max_observed_window: 0,
    };
    proof {
        assert(keys(Seq::<(String, i64)>::empty()) =~= Seq::<(Seq<char>, i64)>::empty());
        assert forall|k: Seq<char>|
            #![trigger keys(plan.protected_failed_paths@).contains(k)]
            #![trigger current_failure(s.failed_paths@, k)]
            keys(plan.protected_failed_paths@).contains(k) <==> current_failure(s.failed_paths@, k) by {
            assert(keys(plan.protected_failed_paths@).contains(k) <==> holds_text(failed@, k));
        }
    }
    Ok(plan)
}


/// Plans maintenance of a store from a snapshot of its roots and sizes.
///
/// Every version gets a decision listing, per level, the roots that
/// protect it; historical manifests outside the retention window whose
/// every path has at least `retention_path_cap` newer historical
/// manifests become retirable; the retention and capacity figures are
/// computed; and the first demotion cohort is chosen. Last, the plan is
/// sealed: `canonical` serializes it with an empty fingerprint and a zero
/// observed window, and the fingerprint is the SHA-256 digest of those
/// bytes.
pub fn plan_maintenance<F: Fn(&MaintenancePlan) -> Vec<u8>>(
    snapshot: &MaintenanceSnapshot,
    policy: &MaintenancePolicy,
    canonical: F,
) -> (r: Result<MaintenancePlan, MaintenanceError>)
    requires
        forall|q: &MaintenancePlan| #[trigger] canonical.requires((q,)),
    ensures
        r is Ok <==> plan_fault(*snapshot, *policy) is None,
        r matches Err(e) ==> Some(fault_of(e)) == plan_fault(*snapshot, *policy),
        r matches Ok(plan) ==> plan_matches(*snapshot, *policy, plan),
        r matches Ok(plan) ==> exists|unsealed: MaintenancePlan, bytes: Vec<u8>|
            #![trigger canonical.ensures((&unsealed,), bytes)]
            unsealed.fingerprint@.len() == 0 && unsealed.max_observed_window == 0
                && plan == (MaintenancePlan { fingerprint: plan.fingerprint, ..unsealed })
                && canonical.ensures((&unsealed,), bytes) && plan.fingerprint@ == fingerprint_text(bytes@),
{
    let mut plan = match plan_unsealed(snapshot, policy) {
        Ok(plan) => plan,
        Err(e) => {
            return Err(e);
        },
    };
    let ghost unsealed = plan;
    let bytes = canonical(&plan);
    plan.seal(bytes.as_slice());
    assert(canonical.ensures((&unsealed,), bytes));
    Ok(plan)
}

// ---------------------------------------------------------------------
// Fingerprints, lookups, and the checks around a run.

/// The fingerprint of a plan whose canonical serialization is
/// `canonical`: `sha256:` and the lowercase hexadecimal digest.
pub open spec fn fingerprint_text(canonical: Seq<u8>) -> Seq<char> {
    "sha256:"@ + hex_text(sha256_of(canonical))
}

/// The fingerprint of a plan, from the bytes of its canonical JSON form
/// (the plan with an empty fingerprint and a zero observed window).
pub fn plan_fingerprint(canonical: &[u8]) -> (r: String)
    ensures
        r@ == fingerprint_text(canonical@),
{
    let digest = sha256(canonical);
    let mut text: Vec<char> = crate::text::chars_of("sha256:");
    push_hex(&mut text, digest.as_slice());
    proof {
        reveal_strlit("sha256:");
    }
    crate::text::string_of(text.as_slice())
}

impl MaintenancePlan {
    /// Sets the fingerprint from the plan's canonical serialization and
    /// changes nothing else.
    pub fn seal(&mut self, canonical: &[u8])
        ensures
            final(self).fingerprint@ == fingerprint_text(canonical@),
            *final(self) == (MaintenancePlan { fingerprint: final(self).fingerprint, ..*old(self) }),
    {
        self.fingerprint = plan_fingerprint(canonical);
    }

    /// The decision for version `version_id`, found by binary search over
    /// the decisions, which a plan keeps in ascending identifier order.
    pub fn version(&self, version_id: i64) -> (r: Option<&VersionDecision>)
        ensures
            r matches Some(d) ==> d.version_id == version_id && exists|i: int|
                0 <= i < self.versions@.len() && self.versions@[i] == *d,
            ids_ascending(self.versions@) ==> (r is None <==> !decided(self.versions@, version_id)),
    {
        let mut lo: usize = 0;
        let mut hi: usize = self.versions.len();
        while lo < hi
            invariant
                lo <= hi <= self.versions@.len(),
                ids_ascending(self.versions@) ==> forall|i: int|
                    0 <= i < lo ==> #[trigger] self.versions@[i].version_id < version_id,
                ids_ascending(self.versions@) ==> forall|i: int|
                    hi <= i < self.versions@.len() ==> #[trigger] self.versions@[i].version_id
                        > version_id,
            decreases hi - lo,
        {
            let mid = lo + (hi - lo) / 2;
            let here = self.versions[mid].version_id;
            if here == version_id {
                return Some(&self.versions[mid]);
            }
            proof {
                if ids_ascending(self.versions@) {
                    assert forall|i: int| 0 <= i < self.versions@.len() implies (i <= mid
                        ==> #[trigger] self.versions@[i].version_id <= here) && (i >= mid
                        ==> self.versions@[i].version_id >= here) by {
                        if i < mid {
                            assert(self.versions@[i].version_id < self.versions@[mid as int].version_id);
                        } else if i > mid {
                            assert(self.versions@[mid as int].version_id < self.versions@[i].version_id);
                        }
                    }
                }
            }
            if here < version_id {
                lo = mid + 1;
            } else {
                hi = mid;
            }
        }
        None
    }

    /// Whether the manifest `(view_id, generation)` may be retired, found
    /// by binary search over the retirable manifests, which a plan keeps
    /// ascending.
    pub fn eligible_manifest(&self, view_id: &str, generation: i64) -> (r: bool)
        ensures
            r ==> keys(self.eligible_manifests@).contains((view_id@, generation)),
            strictly_sorted::<(String, i64)>(keys(self.eligible_manifests@)) ==> (r <==> keys(
                self.eligible_manifests@,
            ).contains((view_id@, generation))),
    {
        let probe = (owned(view_id), generation);
        let ghost ks = keys(self.eligible_manifests@);
        let ghost pk = probe.key();
        let mut lo: usize = 0;
        let mut hi: usize = self.eligible_manifests.len();
        while lo < hi
            invariant
                lo <= hi <= self.eligible_manifests@.len(),
                ks == keys(self.eligible_manifests@),
                pk == probe.key(),
                pk == (view_id@, generation),
                strictly_sorted::<(String, i64)>(ks) ==> forall|i: int|
                    0 <= i < lo ==> scoped_key_lt(#[trigger] ks[i], pk),
                strictly_sorted::<(String, i64)>(ks) ==> forall|i: int|
                    hi <= i < ks.len() ==> scoped_key_lt(pk, #[trigger] ks[i]),
            decreases hi - lo,
        {
            let mid = lo + (hi - lo) / 2;
            let item = &self.eligible_manifests[mid];
            assert(ks[mid as int] == item.key());
            let before = item.key_less(&probe);
            let after = probe.key_less(item);
            if !before && !after {
                proof {
                    <(String, i64) as SortedKey>::lemma_key_order(ks[mid as int], pk, pk);
                    assert(ks[mid as int] == pk);
                }
                return true;
            }
            proof {
                if strictly_sorted::<(String, i64)>(ks) {
                    assert forall|i: int| 0 <= i < ks.len() implies (i < mid ==> scoped_key_lt(
                        #[trigger] ks[i],
                        ks[mid as int],
                    )) && (i > mid ==> scoped_key_lt(ks[mid as int], ks[i])) by {}
                    assert forall|i: int| 0 <= i < ks.len() implies (before && i <= mid
                        ==> scoped_key_lt(#[trigger] ks[i], pk)) && (after && i >= mid
                        ==> scoped_key_lt(pk, ks[i])) by {
                        if before && i < mid {
                            <(String, i64) as SortedKey>::lemma_key_order(ks[i], ks[mid as int], pk);
                        }
                        if after && i > mid {
                            <(String, i64) as SortedKey>::lemma_key_order(pk, ks[mid as int], ks[i]);
                        }
                    }
                }
            }
            if before {
                lo = mid + 1;
            } else {
                hi = mid;
            }
        }
        proof {
            if strictly_sorted::<(String, i64)>(ks) && ks.contains(pk) {
                let w = choose|w: int| 0 <= w < ks.len() && ks[w] == pk;
                <(String, i64) as SortedKey>::lemma_key_order(pk, pk, pk);
                if w < lo {
                    assert(scoped_key_lt(ks[w], pk));
                } else {
                    assert(scoped_key_lt(pk, ks[w]));
                }
            }
        }
        false
    }
}

/// The bytes of free space an action needs: the collection budget for
/// collection and repair, the promotion budget for promotion and rollback.
pub open spec fn required_bytes(plan: MaintenancePlan, action: MaintenanceAction) -> u64 {
    match action {
        MaintenanceAction::Gc | MaintenanceAction::Repair => plan.capacity.gc_required_bytes,
        MaintenanceAction::Promote | MaintenanceAction::Rollback => plan.capacity.promotion_required_bytes,
    }
}

/// The free space that `action` needs under `plan`.
pub fn required_bytes_for_action(plan: &MaintenancePlan, action: MaintenanceAction) -> (r: u64)
    ensures
        r == required_bytes(*plan, action),
{
    match action {
        MaintenanceAction::Gc | MaintenanceAction::Repair => plan.capacity.gc_required_bytes,
        MaintenanceAction::Promote | MaintenanceAction::Rollback => plan.capacity.promotion_required_bytes,
    }
}

/// Whether the free space measured now covers what the action needs.
pub fn live_capacity_fits(free_bytes: u64, required: u64) -> (r: Result<(), MaintenanceError>)
    ensures
        r is Ok <==> free_bytes >= required,
        r matches Err(e) ==> error_code(e) == "capacity_insufficient"@,
{
    proof {
        reveal_strlit("capacity_insufficient");
    }
    if free_bytes < required {
        return Err(MaintenanceError::CapacityInsufficient);
    }
    Ok(())
}

/// A run is well formed: identifiers of 1 to 128 bytes, a live process
/// id, a non-negative clock reading, and a positive lease.
pub open spec fn run_ok(run: MaintenanceRun) -> bool {
    &&& run.run_id@.len() > 0
    &&& crate::text::utf8_len(run.run_id@) <= 128
    &&& run.owner_id@.len() > 0
    &&& crate::text::utf8_len(run.owner_id@) <= 128
    &&& run.owner_pid != 0
    &&& run.now_ms >= 0
    &&& run.lease_duration_ms > 0
}

/// Checks a maintenance run's identity and timing.
pub fn validate_run(run: &MaintenanceRun) -> (r: Result<(), MaintenanceError>)
    ensures
        r is Ok <==> run_ok(*run),
        r matches Err(e) ==> fault_of(e) == (
            "invalid_maintenance_metadata"@,
            "maintenance_run"@,
            run.run_id@,
        ),
        r matches Err(e) ==> (e matches MaintenanceError::InvalidMetadata { field, value } && field@
            == "maintenance_run"@ && value@ == run.run_id@),
{
    if run.run_id.as_str().is_empty() || run.run_id.as_str().len() > 128
        || run.owner_id.as_str().is_empty() || run.owner_id.as_str().len() > 128 || run.owner_pid == 0
        || run.now_ms < 0 || run.lease_duration_ms <= 0 {
        proof {
            reveal_strlit("maintenance_run");
        }
        return Err(invalid_metadata("maintenance_run", run.run_id.clone()));
    }
    Ok(())
}

/// A resolution delta named `view:generation` with a non-empty view and
/// a positive generation, split at the last colon.
pub open spec fn scoped_generation(value: Seq<char>) -> Option<(Seq<char>, i64)> {
    match crate::text::last_index(value, ':') {
        None => None,
        Some(i) => {
            let view = value.take(i);
            match crate::text::parse_i64_spec(value.skip(i + 1)) {
                Some(g) => if view.len() > 0 && g > 0 {
                    Some((view, g))
                } else {
                    None
                },
                None => None,
            }
        },
    }
}

/// Splits a `view:generation` delta name.
pub fn parse_scoped_generation(value: &str) -> (r: Result<(String, i64), MaintenanceError>)
    ensures
        r is Ok <==> scoped_generation(value@) is Some,
        r matches Ok(v) ==> (v.0@, v.1) == scoped_generation(value@)->0,
        r matches Err(e) ==> fault_of(e) == (
            "invalid_maintenance_metadata"@,
            "resolution_delta"@,
            value@,
        ),
{
    proof {
        reveal_strlit("resolution_delta");
    }
    let cs = crate::text::chars_of(value);
    match crate::text::rfind_char(cs.as_slice(), ':') {
        None => Err(invalid_metadata("resolution_delta", owned(value))),
        Some(i) => {
            assert(i < cs.len());
            let view = crate::text::slice_chars(cs.as_slice(), 0, i);
            let digits = crate::text::slice_chars(cs.as_slice(), i + 1, cs.len());
            assert(view@ =~= value@.take(i as int));
            assert(digits@ =~= value@.skip(i + 1));
            match crate::text::parse_i64(digits.as_slice()) {
                Some(g) => {
                    if view.len() > 0 && g > 0 {
                        Ok((crate::text::string_of(view.as_slice()), g))
                    } else {
                        Err(invalid_metadata("resolution_delta", owned(value)))
                    }
                },
                None => Err(invalid_metadata("resolution_delta", owned(value))),
            }
        },
    }
}

/// The request a resolve scratch file belongs to: the name without a
/// `-wal` or `-shm` sidecar suffix and a `.work` suffix, then without
/// its `resolve-exact-` or `resolve-delta-` prefix and `.db` suffix,
/// when what is left is not empty.
pub open spec fn scratch_request(name: Seq<char>) -> Option<Seq<char>> {
    let base = match crate::text::without_suffix(name, "-wal"@) {
        Some(b) => b,
        None => match crate::text::without_suffix(name, "-shm"@) {
            Some(b) => b,
            None => name,
        },
    };
    let base = match crate::text::without_suffix(base, ".work"@) {
        Some(b) => b,
        None => base,
    };
    let stem = match crate::text::without_prefix(base, "resolve-exact-"@) {
        Some(b) => Some(b),
        None => crate::text::without_prefix(base, "resolve-delta-"@),
    };
    match stem {
        None => None,
        Some(st) => match crate::text::without_suffix(st, ".db"@) {
            Some(id) => if id.len() > 0 {
                Some(id)
            } else {
                None
            },
            None => None,
        },
    }
}

/// The request a resolve scratch file name belongs to, if it is one.
pub fn request_id_from_scratch_name(name: &str) -> (r: Option<String>)
    ensures
        r is Some <==> scratch_request(name@) is Some,
        r matches Some(id) ==> id@ == scratch_request(name@)->0,
{
    let cs = crate::text::chars_of(name);
    let base = match crate::text::strip_suffix(cs.as_slice(), "-wal") {
        Some(b) => b,
        None => match crate::text::strip_suffix(cs.as_slice(), "-shm") {
            Some(b) => b,
            None => cs,
        },
    };
    let base = match crate::text::strip_suffix(base.as_slice(), ".work") {
        Some(b) => b,
        None => base,
    };
    let stem = match crate::text::strip_prefix(base.as_slice(), "resolve-exact-") {
        Some(b) => Some(b),
        None => crate::text::strip_prefix(base.as_slice(), "resolve-delta-"),
    };
    match stem {
        None => None,
        Some(st) => match crate::text::strip_suffix(st.as_slice(), ".db") {
            Some(id) => if id.len() > 0 {
                Some(crate::text::string_of(id.as_slice()))
            } else {
                None
            },
            None => None,
        },
    }
}

} // verus!

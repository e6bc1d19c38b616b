//! The request coordinator's rules: request kinds and states, the
//! store-writer lease and its fencing tokens, resolve claims, which queued
//! request runs next, idempotent enqueue, consumer cursors, archival, and
//! reconciliation against the store log.

use std::cmp::Ordering;

use vstd::prelude::*;

use crate::json::{is_json, json_parses};
use crate::num::{clamp_i64, saturating_sub_i64};
use crate::store::connection::{
    compare_store_versions, is_invalid_version, required_writer_version, version_model,
    version_order, StoreConnectionError,
};
use crate::store::layout::{is_generation_name, valid_generation_name, StoreLayout};
use crate::store::model::StoreLevel;
use crate::text::{chars_of, debug_quote, debug_text, owned, parse_u32, parse_u32_spec, slice_chars, starts_with, str_eq};

verus! {

#[derive(Debug, Clone, Copy, PartialEq, Eq, Structural)]
pub enum RequestKind {
    Import,
    Update,
    Delete,
    Resolve,
    Export,
    FromArtifact,
}

/// The stored spelling of a request kind.
pub open spec fn kind_text(k: RequestKind) -> Seq<char> {
    match k {
        RequestKind::Import => "import"@,
        RequestKind::Update => "update"@,
        RequestKind::Delete => "delete"@,
        RequestKind::Resolve => "resolve"@,
        RequestKind::Export => "export"@,
        RequestKind::FromArtifact => "from_artifact"@,
    }
}

/// The kind whose stored spelling is `s`, if any.
pub open spec fn kind_of_text(s: Seq<char>) -> Option<RequestKind> {
    if s == "import"@ {
        Some(RequestKind::Import)
    } else if s == "update"@ {
        Some(RequestKind::Update)
    } else if s == "delete"@ {
        Some(RequestKind::Delete)
    } else if s == "resolve"@ {
        Some(RequestKind::Resolve)
    } else if s == "export"@ {
        Some(RequestKind::Export)
    } else if s == "from_artifact"@ {
        Some(RequestKind::FromArtifact)
    } else {
        None
    }
}

impl RequestKind {
    pub fn as_str(self) -> (r: &'static str)
        ensures
            r@ == kind_text(self),
    {
        match self {
            Self::Import => "import",
            Self::Update => "update",
            Self::Delete => "delete",
            Self::Resolve => "resolve",
            Self::Export => "export",
            Self::FromArtifact => "from_artifact",
        }
    }

    /// Batch requests are imports and artifact loads; the rest are
    /// interactive.
    pub fn is_batch(self) -> (r: bool)
        ensures
            r == (self is Import || self is FromArtifact),
    {
        matches!(self, Self::Import | Self::FromArtifact)
    }

    /// Only artifact loads may run past the quantum deadline.
    pub fn permits_renewable_quantum(self) -> (r: bool)
        ensures
            r == (self is FromArtifact),
    {
        matches!(self, Self::FromArtifact)
    }

    pub fn parse(value: &str) -> (r: Result<Self, CoordinatorError>)
        ensures
            match kind_of_text(value@) {
                Some(k) => r == Ok::<RequestKind, CoordinatorError>(k),
                None => r matches Err(CoordinatorError::CorruptRequest { .. }),
            },
    {
        if str_eq(value, "import") {
            Ok(Self::Import)
        } else if str_eq(value, "update") {
            Ok(Self::Update)
        } else if str_eq(value, "delete") {
            Ok(Self::Delete)
        } else if str_eq(value, "resolve") {
            Ok(Self::Resolve)
        } else if str_eq(value, "export") {
            Ok(Self::Export)
        } else if str_eq(value, "from_artifact") {
            Ok(Self::FromArtifact)
        } else {
            Err(CoordinatorError::CorruptRequest { detail: owned("unknown request kind") })
        }
    }
}

#[derive(Debug, Clone, Copy, PartialEq, Eq, Structural)]
pub enum RequestState {
    Queued,
    Claimed,
    Committed,
    Acknowledged,
    Failed,
}

/// The stored spelling of a request state.
pub open spec fn state_text(s: RequestState) -> Seq<char> {
    match s {
        RequestState::Queued => "queued"@,
        RequestState::Claimed => "claimed"@,
        RequestState::Committed => "committed"@,
        RequestState::Acknowledged => "acknowledged"@,
        RequestState::Failed => "failed"@,
    }
}

/// The state whose stored spelling is `s`, if any.
pub open spec fn state_of_text(s: Seq<char>) -> Option<RequestState> {
    if s == "queued"@ {
        Some(RequestState::Queued)
    } else if s == "claimed"@ {
        Some(RequestState::Claimed)
    } else if s == "committed"@ {
        Some(RequestState::Committed)
    } else if s == "acknowledged"@ {
        Some(RequestState::Acknowledged)
    } else if s == "failed"@ {
        Some(RequestState::Failed)
    } else {
        None
    }
}

impl RequestState {
    pub fn as_str(self) -> (r: &'static str)
        ensures
            r@ == state_text(self),
    {
        match self {
            Self::Queued => "queued",
            Self::Claimed => "claimed",
            Self::Committed => "committed",
            Self::Acknowledged => "acknowledged",
            Self::Failed => "failed",
        }
    }

    pub fn parse(value: &str) -> (r: Result<Self, CoordinatorError>)
        ensures
            match state_of_text(value@) {
                Some(s) => r == Ok::<RequestState, CoordinatorError>(s),
                None => r matches Err(CoordinatorError::CorruptRequest { .. }),
            },
    {
        if str_eq(value, "queued") {
            Ok(Self::Queued)
        } else if str_eq(value, "claimed") {
            Ok(Self::Claimed)
        } else if str_eq(value, "committed") {
            Ok(Self::Committed)
        } else if str_eq(value, "acknowledged") {
            Ok(Self::Acknowledged)
        } else if str_eq(value, "failed") {
            Ok(Self::Failed)
        } else {
            Err(CoordinatorError::CorruptRequest { detail: owned("unknown request state") })
        }
    }

    /// Terminal states: committed, acknowledged, failed.
    pub open spec fn is_terminal(self) -> bool {
        self is Committed || self is Acknowledged || self is Failed
    }

    /// Whether this is a terminal state: committed, acknowledged, failed.
    pub fn terminal(self) -> (r: bool)
        ensures
            r == self.is_terminal(),
    {
        match self {
            RequestState::Committed | RequestState::Acknowledged | RequestState::Failed => true,
            _ => false,
        }
    }
}

#[derive(Debug, Clone, PartialEq, Eq)]
pub struct CoordinatorRequest {
    pub request_id: String,
    pub idempotency_key: String,
    pub kind: RequestKind,
    pub payload_json: String,
    pub state: RequestState,
    pub requester_id: String,
    pub requester_deadline: Option<i64>,
    pub claim_owner: Option<String>,
    pub claim_heartbeat_at: Option<i64>,
    pub terminal_log_sequence: Option<i64>,
    pub result_json: Option<String>,
    pub error_json: Option<String>,
    pub created_at: i64,
    pub updated_at: i64,
}

impl CoordinatorRequest {
    /// A queued request, unclaimed, created and updated at `created_at`.
    pub fn new(
        request_id: String,
        idempotency_key: String,
        kind: RequestKind,
        payload_json: String,
        requester_id: String,
        requester_deadline: i64,
        created_at: i64,
    ) -> (r: Self)
        ensures
            r.request_id == request_id,
            r.idempotency_key == idempotency_key,
            r.kind == kind,
            r.payload_json == payload_json,
            r.state == RequestState::Queued,
            r.requester_id == requester_id,
            r.requester_deadline == Some(requester_deadline),
            r.claim_owner is None,
            r.claim_heartbeat_at is None,
            r.terminal_log_sequence is None,
            r.result_json is None,
            r.error_json is None,
            r.created_at == created_at,
            r.updated_at == created_at,
    {
        Self {
            request_id,
            idempotency_key,
            kind,
            payload_json,
            state: RequestState::Queued,
            requester_id,
            requester_deadline: Some(requester_deadline),
            claim_owner: None,
            claim_heartbeat_at: None,
            terminal_log_sequence: None,
            result_json: None,
            error_json: None,
            created_at,
            updated_at: created_at,
        }
    }
}

#[derive(Debug, Clone, PartialEq, Eq)]
pub struct EnqueueResult {
    pub inserted: bool,
    pub request: CoordinatorRequest,
}

#[derive(Debug, Clone, PartialEq, Eq)]
pub struct RequestReceipt {
    pub request_id: String,
    pub idempotency_key: String,
    pub kind: RequestKind,
    pub payload_json: String,
    pub terminal_result_json: String,
    pub terminal_generation_name: String,
    pub terminal_log_sequence: i64,
    pub completed_at: i64,
}

#[derive(Debug, Clone, PartialEq, Eq)]
pub struct ConsumerCursor {
    pub consumer_id: String,
    pub generation_name: String,
    pub store_log_sequence: i64,
    pub updated_at: i64,
}

#[derive(Debug, Clone, PartialEq, Eq)]
pub struct LeaseHolder {
    pub holder_id: String,
    pub holder_version: String,
    pub holder_pid: u32,
}

impl LeaseHolder {
    pub fn new(holder_id: String, holder_version: String, holder_pid: u32) -> (r: Self)
        ensures
            r.holder_id == holder_id,
            r.holder_version == holder_version,
            r.holder_pid == holder_pid,
    {
        Self { holder_id, holder_version, holder_pid }
    }
}

/// The identity fields of a live maintenance intent.
#[derive(Debug, Clone, PartialEq, Eq)]
pub struct IntentIdentity {
    pub run_id: String,
    pub owner_id: String,
    pub owner_pid: u32,
    pub fencing_token: i64,
}

/// The maintenance intent `identity`, expiring at `expires_at`, while it
/// is live at `now`: an intent whose expiry is not after `now` is gone.
pub fn live_intent(identity: IntentIdentity, expires_at: i64, now: i64) -> (r: Option<IntentIdentity>)
    ensures
        r == (if expires_at > now {
            Some(identity)
        } else {
            None
        }),
{
    if expires_at > now {
        Some(identity)
    } else {
        None
    }
}

/// Proof of maintenance ownership, required to acquire under a live
/// intent.
#[derive(Debug, Clone, PartialEq, Eq)]
pub struct MaintenanceOwnerFence {
    pub run_id: String,
    pub owner_id: String,
    pub owner_pid: u32,
    pub fencing_token: i64,
}

/// The owner fence names exactly the live intent.
pub open spec fn fence_matches(f: MaintenanceOwnerFence, i: IntentIdentity) -> bool {
    f.run_id@ == i.run_id@ && f.owner_id@ == i.owner_id@ && f.owner_pid == i.owner_pid
        && f.fencing_token == i.fencing_token
}

impl MaintenanceOwnerFence {
    pub fn matches_intent(&self, intent: &IntentIdentity) -> (r: bool)
        ensures
            r == fence_matches(*self, *intent),
    {
        str_eq(self.run_id.as_str(), intent.run_id.as_str()) && str_eq(
            self.owner_id.as_str(),
            intent.owner_id.as_str(),
        ) && self.owner_pid == intent.owner_pid && self.fencing_token == intent.fencing_token
    }
}

#[derive(Debug, Clone, Copy, PartialEq, Eq)]
pub enum LeaseDisposition {
    Acquired { fencing_token: i64 },
    HeldByOther,
}

impl LeaseDisposition {
    pub fn acquired(self) -> (r: bool)
        ensures
            r == (self is Acquired),
    {
        matches!(self, Self::Acquired { .. })
    }
}

#[derive(Debug, Clone, PartialEq, Eq)]
pub struct ReconcileOutcome {
    pub committed_in_fact: bool,
    pub next_chunk_index: u64,
}

#[derive(Debug, Clone, PartialEq, Eq)]
pub struct LeaseRecord {
    pub holder: LeaseHolder,
    pub heartbeat_at: i64,
    pub expires_at: i64,
    pub fencing_token: i64,
}

/// A source of wall-clock milliseconds since the Unix epoch.
pub trait UnixMillisClock {
    fn now_ms(&self) -> i64;
}

#[derive(Debug, Clone, Copy, PartialEq, Eq)]
pub struct ExecutionContext {
    pub next_chunk_index: u64,
    pub fencing_token: i64,
}

#[derive(Debug, Clone, PartialEq, Eq)]
pub enum ExecutionQuantum {
    Progress { event_kind: String, payload_json: String, level: Option<StoreLevel> },
    Complete { event_kind: String, result_json: String },
}

#[derive(Debug, Clone, PartialEq, Eq)]
pub struct CoordinatorPolicy {
    pub interactive_burst_count: usize,
    pub interactive_burst_ms: i64,
    pub service_window_ms: i64,
    pub own_request_id: Option<String>,
    pub lease_duration_ms: i64,
    pub maximum_quantum_ms: i64,
}

/// The store-writer lease lasts five seconds per renewal.
pub const DEFAULT_LEASE_DURATION_MS: i64 = 5_000;

impl Default for CoordinatorPolicy {
    fn default() -> (r: Self)
        ensures
            r.interactive_burst_count == 32,
            r.interactive_burst_ms == 250,
            r.service_window_ms == 1_000,
            r.own_request_id is None,
            r.lease_duration_ms == 5_000,
            r.maximum_quantum_ms == 4_000,
    {
        Self {
            interactive_burst_count: 32,
            interactive_burst_ms: 250,
            service_window_ms: 1_000,
            own_request_id: None,
            lease_duration_ms: DEFAULT_LEASE_DURATION_MS,
            maximum_quantum_ms: 4_000,
        }
    }
}

#[derive(Debug, Clone, PartialEq, Eq, Default)]
pub struct DrainReport {
    pub completed_requests: usize,
    pub failed_requests: usize,
    pub progress_quanta: usize,
    pub interactive_quanta: usize,
    pub batch_quanta: usize,
}

#[derive(Debug, Clone, PartialEq, Eq)]
pub enum CoordinatorError {
    InvalidRequest,
    IdempotencyConflict { idempotency_key: String, existing_request_id: String },
    RequestIdConflict { request_id: String },
    RequestNotFound { request_id: String },
    CorruptRequest { detail: String },
    CoordinatorAheadOfStore { request_id: String },
    InvalidVersion { value: String },
    InvalidTime { field: &'static str, value: i64 },
    CursorRegression { consumer_id: String, current: i64, requested: i64 },
    CursorAhead { requested: i64, high_water: i64 },
    CursorGenerationConflict { consumer_id: String, current: String, requested: String },
    InvalidGeneration { generation_name: String },
    WriterVersionTooOld { running: String, required: String },
    LeaseUnavailable,
    LeaseLost,
    MissingLeaseHolder,
    ExecutionFailed { request_id: String, detail: String },
    InvalidPolicy,
    QuantumDeadlineExceeded { elapsed_ms: i64, maximum_ms: i64 },
    StoreConnection(StoreConnectionError),
}

#[derive(Debug, Clone, Copy, PartialEq, Eq)]
pub enum PidStatus {
    Alive,
    Dead,
    Unknown,
}

/// Reports whether a process is alive.
pub trait PidLiveness {
    fn status(&self, pid: u32) -> PidStatus;
}


// ---------------------------------------------------------------------
// Writer-lease decisions.

/// The store-writer lease as the coordinator database holds it.
#[derive(Debug, Clone, PartialEq, Eq)]
pub struct ExistingLease {
    pub holder_id: String,
    pub holder_pid: u32,
    pub expires_at: i64,
    pub fencing_token: i64,
}

/// How an acquisition's fencing token is chosen: a given token, or a
/// freshly allocated one no smaller than the bound.
#[derive(Debug, Clone, Copy, PartialEq, Eq, Structural)]
pub enum TokenChoice {
    Fixed(i64),
    AtLeast(i64),
}

/// What an acquisition does to the lease row.
#[derive(Debug, Clone, PartialEq, Eq)]
pub enum LeaseAction {
    /// No lease exists: insert one.
    Insert { fencing_token: TokenChoice },
    /// The caller already holds a live lease: extend it.
    Renew { fencing_token: i64 },
    /// The lease expired or its holder died: take it over, and move the
    /// previous holder's claimed requests to the new holder.
    Takeover { previous_holder_id: String, fencing_token: TokenChoice },
    /// Someone else holds a live lease.
    HeldByOther,
}

/// An acquisition decision: what to do, and the lease's new expiry.
#[derive(Debug, Clone, PartialEq, Eq)]
pub struct LeasePlan {
    pub action: LeaseAction,
    pub expires_at: i64,
}

/// The fence a reference points to, if any.
pub open spec fn some_fence(o: Option<&MaintenanceOwnerFence>) -> Option<MaintenanceOwnerFence> {
    match o {
        Some(f) => Some(*f),
        None => None,
    }
}

/// The intent a reference points to, if any.
pub open spec fn some_intent(o: Option<&IntentIdentity>) -> Option<IntentIdentity> {
    match o {
        Some(i) => Some(*i),
        None => None,
    }
}

/// The lease a reference points to, if any.
pub open spec fn some_lease(o: Option<&ExistingLease>) -> Option<ExistingLease> {
    match o {
        Some(e) => Some(*e),
        None => None,
    }
}

/// A holder that can take the lease: non-empty id and version, a process.
pub open spec fn holder_valid(h: LeaseHolder) -> bool {
    h.holder_id@.len() > 0 && h.holder_version@.len() > 0 && h.holder_pid != 0
}

/// A live maintenance intent stands in the way: one exists and the
/// caller does not present its exact owner fence.
pub open spec fn intent_blocks(owner: Option<MaintenanceOwnerFence>, intent: Option<IntentIdentity>) -> bool {
    match intent {
        Some(i) => match owner {
            Some(o) => !fence_matches(o, i),
            None => true,
        },
        None => false,
    }
}

/// The expiry `duration` after `now`, when `now` is not negative, the
/// duration is positive and the sum fits.
pub open spec fn lease_expiry(now: i64, duration: i64) -> Option<i64> {
    if now < 0 || duration <= 0 || now + duration > i64::MAX {
        None
    } else {
        Some((now + duration) as i64)
    }
}

/// The caller holds this live lease.
pub open spec fn same_live_holder(e: ExistingLease, h: LeaseHolder, now: i64) -> bool {
    e.holder_id@ == h.holder_id@ && e.holder_pid == h.holder_pid && e.expires_at > now
}

/// The lease can be taken over: it expired, or its holder is dead.
pub open spec fn lease_abandoned(e: ExistingLease, now: i64, holder_dead: bool) -> bool {
    e.expires_at <= now || holder_dead
}

/// The smallest fresh token for a first lease: the clock, at least one.
pub open spec fn fresh_floor(now: i64) -> i64 {
    if now > 1 {
        now
    } else {
        1
    }
}

/// What an acquisition does, once the holder, the intent and the expiry
/// are in order; `None` when taking over needs a token past `i64::MAX`.
pub open spec fn lease_action_spec(
    h: LeaseHolder,
    owner: Option<MaintenanceOwnerFence>,
    existing: Option<ExistingLease>,
    held_fencing_token: Option<i64>,
    holder_dead: bool,
    now: i64,
    a: LeaseAction,
) -> bool {
    match existing {
        None => match owner {
            Some(o) => a == LeaseAction::Insert { fencing_token: TokenChoice::Fixed(o.fencing_token) },
            None => a == LeaseAction::Insert { fencing_token: TokenChoice::AtLeast(fresh_floor(now)) },
        },
        Some(e) => match owner {
            Some(o) => if same_live_holder(e, h, now) && e.fencing_token == o.fencing_token {
                a == LeaseAction::Renew { fencing_token: e.fencing_token }
            } else if lease_abandoned(e, now, holder_dead) {
                a matches LeaseAction::Takeover { previous_holder_id, fencing_token }
                    && previous_holder_id@ == e.holder_id@ && fencing_token == TokenChoice::Fixed(o.fencing_token)
            } else {
                a == LeaseAction::HeldByOther
            },
            None => if same_live_holder(e, h, now) && held_fencing_token == Some(e.fencing_token) {
                a == LeaseAction::Renew { fencing_token: e.fencing_token }
            } else if lease_abandoned(e, now, holder_dead) {
                let next = e.fencing_token + 1;
                let floor = fresh_floor(now);
                a matches LeaseAction::Takeover { previous_holder_id, fencing_token }
                    && previous_holder_id@ == e.holder_id@ && fencing_token == TokenChoice::AtLeast(
                    if next > floor { next as i64 } else { floor },
                )
            } else {
                a == LeaseAction::HeldByOther
            },
        },
    }
}

/// Taking over with a fresh token would need a token past `i64::MAX`.
pub open spec fn takeover_overflows(
    h: LeaseHolder,
    owner: Option<MaintenanceOwnerFence>,
    existing: Option<ExistingLease>,
    held_fencing_token: Option<i64>,
    holder_dead: bool,
    now: i64,
) -> bool {
    match (existing, owner) {
        (Some(e), None) => !(same_live_holder(e, h, now) && held_fencing_token == Some(e.fencing_token))
            && lease_abandoned(e, now, holder_dead) && e.fencing_token == i64::MAX,
        _ => false,
    }
}

fn invalid_lease_time(now: i64) -> (e: CoordinatorError)
    ensures
        e matches CoordinatorError::InvalidTime { field, value } && field@ == "lease_expiry"@ && value == now,
{
    CoordinatorError::InvalidTime { field: "lease_expiry", value: now }
}

/// The lease's expiry `lease_duration_ms` after `now`.
pub fn checked_lease_expiry(now: i64, lease_duration_ms: i64) -> (r: Result<i64, CoordinatorError>)
    ensures
        r is Ok <==> lease_expiry(now, lease_duration_ms) is Some,
        r matches Ok(t) ==> Some(t) == lease_expiry(now, lease_duration_ms),
        r matches Err(e) ==> e matches CoordinatorError::InvalidTime { field, value } && field@
            == "lease_expiry"@ && value == now,
{
    if now < 0 || lease_duration_ms <= 0 {
        return Err(invalid_lease_time(now));
    }
    match now.checked_add(lease_duration_ms) {
        Some(t) => Ok(t),
        None => Err(invalid_lease_time(now)),
    }
}

/// The end of a drain's service window.
pub fn checked_service_deadline(now: i64, service_window_ms: i64) -> (r: Result<i64, CoordinatorError>)
    ensures
        r is Ok <==> i64::MIN <= now + service_window_ms <= i64::MAX,
        r matches Ok(t) ==> t == now + service_window_ms,
        r matches Err(e) ==> e matches CoordinatorError::InvalidTime { field, value } && field@
            == "service_deadline"@ && value == now,
{
    match now.checked_add(service_window_ms) {
        Some(t) => Ok(t),
        None => Err(CoordinatorError::InvalidTime { field: "service_deadline", value: now }),
    }
}

/// The detail of a fencing-token overflow.
pub open spec fn token_overflow(e: CoordinatorError) -> bool {
    e matches CoordinatorError::CorruptRequest { detail } && detail@ == "writer lease fencing token overflow"@
}

fn token_overflow_error() -> (e: CoordinatorError)
    ensures
        token_overflow(e),
{
    proof {
        reveal_strlit("writer lease fencing token overflow");
    }
    CoordinatorError::CorruptRequest { detail: owned("writer lease fencing token overflow") }
}

/// The next fencing token after the last one issued: one more than it,
/// and no smaller than `minimum`.
pub fn next_fencing_token(last: i64, minimum: i64) -> (r: Result<i64, CoordinatorError>)
    ensures
        r is Ok <==> last < i64::MAX,
        r matches Ok(t) ==> t == if last + 1 > minimum { last + 1 } else { minimum as int },
        r matches Err(e) ==> token_overflow(e),
{
    match last.checked_add(1) {
        Some(next) => Ok(if next > minimum { next } else { minimum }),
        None => Err(token_overflow_error()),
    }
}

fn copy_text(s: &String) -> (r: String)
    ensures
        r == *s,
{
    s.clone()
}

/// Law: while a maintenance intent is live, no acquisition succeeds
/// without that intent's exact owner fence.
pub proof fn lemma_live_intent_excludes_writers(
    holder: LeaseHolder,
    owner: Option<MaintenanceOwnerFence>,
    intent: IntentIdentity,
    existing: Option<ExistingLease>,
    held_fencing_token: Option<i64>,
    previous_holder_dead: bool,
    now: i64,
    r: Result<LeasePlan, CoordinatorError>,
)
    requires
        acquisition_outcome(holder, owner, Some(intent), existing, held_fencing_token, previous_holder_dead, now, r),
        (match owner {
            Some(o) => !fence_matches(o, intent),
            None => true,
        }),
    ensures
        r is Err,
{
}

/// Law: an ordinary takeover asks for a token past the previous holder's
/// and no earlier than the clock (and at least one), so fencing tokens only
/// move forward; a renewal keeps the token it holds.
pub proof fn lemma_takeover_advances_token(
    holder: LeaseHolder,
    existing: ExistingLease,
    held_fencing_token: Option<i64>,
    previous_holder_dead: bool,
    now: i64,
    a: LeaseAction,
)
    requires
        lease_action_spec(holder, None, Some(existing), held_fencing_token, previous_holder_dead, now, a),
        existing.fencing_token < i64::MAX,
    ensures
        a is Takeover ==> (a matches LeaseAction::Takeover { fencing_token: TokenChoice::AtLeast(t), .. } && t
            > existing.fencing_token && t >= now && t >= 1),
        a is Renew ==> (a == (LeaseAction::Renew { fencing_token: existing.fencing_token })),
{
}

/// What an acquisition decides (see `plan_lease_acquisition`): the
/// refusals in order, then the expiry, the token overflow, and the lease
/// action.
pub open spec fn acquisition_outcome(
    holder: LeaseHolder,
    maintenance_owner: Option<MaintenanceOwnerFence>,
    live_intent: Option<IntentIdentity>,
    existing: Option<ExistingLease>,
    held_fencing_token: Option<i64>,
    previous_holder_dead: bool,
    now: i64,
    r: Result<LeasePlan, CoordinatorError>,
) -> bool {
    if !holder_valid(holder) {
        r matches Err(CoordinatorError::InvalidRequest)
    } else if intent_blocks(maintenance_owner, live_intent) {
        r matches Err(CoordinatorError::StoreConnection(StoreConnectionError::MaintenanceInProgress { run_id }))
            && run_id@ == live_intent.unwrap().run_id@
    } else if maintenance_owner is Some && live_intent is None {
        r matches Err(CoordinatorError::InvalidRequest)
    } else {
        match lease_expiry(now, DEFAULT_LEASE_DURATION_MS) {
            None => r matches Err(CoordinatorError::InvalidTime { field, value }) && field@ == "lease_expiry"@
                && value == now,
            Some(expires_at) => if takeover_overflows(
                holder,
                maintenance_owner,
                existing,
                held_fencing_token,
                previous_holder_dead,
                now,
            ) {
                r matches Err(e) && token_overflow(e)
            } else {
                r matches Ok(plan) && plan.expires_at == expires_at && lease_action_spec(
                    holder,
                    maintenance_owner,
                    existing,
                    held_fencing_token,
                    previous_holder_dead,
                    now,
                    plan.action,
                )
            },
        }
    }
}

/// Decides a writer-lease acquisition from what the coordinator
/// database holds: the live maintenance intent, if any, and the lease
/// row, if any; `held_fencing_token` is the token this coordinator last
/// acquired, and `previous_holder_dead` whether the lease holder's
/// process is known dead.
///
/// The holder must be complete. A live intent admits only its own
/// owner, and an owner fence is refused without a live intent. Without
/// a lease the caller inserts one; the caller renews a live lease it
/// holds (under the owner's token, or under the token it last
/// acquired); an expired or orphaned lease is taken over; any other
/// live lease is held by someone else.
pub fn plan_lease_acquisition(
    holder: &LeaseHolder,
    maintenance_owner: Option<&MaintenanceOwnerFence>,
    live_intent: Option<&IntentIdentity>,
    existing: Option<&ExistingLease>,
    held_fencing_token: Option<i64>,
    previous_holder_dead: bool,
    now: i64,
) -> (r: Result<LeasePlan, CoordinatorError>)
    ensures
        acquisition_outcome(
            *holder,
            some_fence(maintenance_owner),
            some_intent(live_intent),
            some_lease(existing),
            held_fencing_token,
            previous_holder_dead,
            now,
            r,
        ),
{
    if holder.holder_id.as_str().is_empty() || holder.holder_version.as_str().is_empty()
        || holder.holder_pid == 0 {
        return Err(CoordinatorError::InvalidRequest);
    }
    match (maintenance_owner, live_intent) {
        (Some(owner), Some(intent)) => {
            if !owner.matches_intent(intent) {
                return Err(
                    CoordinatorError::StoreConnection(
                        StoreConnectionError::MaintenanceInProgress { run_id: copy_text(&intent.run_id) },
                    ),
                );
            }
        },
        (None, Some(intent)) => {
            return Err(
                CoordinatorError::StoreConnection(
                    StoreConnectionError::MaintenanceInProgress { run_id: copy_text(&intent.run_id) },
                ),
            );
        },
        (Some(_), None) => {
            return Err(CoordinatorError::InvalidRequest);
        },
        (None, None) => {},
    }
    proof {
        reveal_strlit("lease_expiry");
    }
    let expires_at = match checked_lease_expiry(now, DEFAULT_LEASE_DURATION_MS) {
        Ok(t) => t,
        Err(e) => {
            return Err(e);
        },
    };
    let floor: i64 = if now > 1 {
        now
    } else {
        1
    };
    let action = match existing {
        None => match maintenance_owner {
            Some(owner) => LeaseAction::Insert { fencing_token: TokenChoice::Fixed(owner.fencing_token) },
            None => LeaseAction::Insert { fencing_token: TokenChoice::AtLeast(floor) },
        },
        Some(e) => {
            let same = str_eq(e.holder_id.as_str(), holder.holder_id.as_str())
                && e.holder_pid == holder.holder_pid && e.expires_at > now;
            let abandoned = e.expires_at <= now || previous_holder_dead;
            match maintenance_owner {
                Some(owner) => {
                    if same && e.fencing_token == owner.fencing_token {
                        LeaseAction::Renew { fencing_token: e.fencing_token }
                    } else if abandoned {
                        LeaseAction::Takeover {
                            previous_holder_id: copy_text(&e.holder_id),
                            fencing_token: TokenChoice::Fixed(owner.fencing_token),
                        }
                    } else {
                        LeaseAction::HeldByOther
                    }
                },
                None => {
                    let renewing = match held_fencing_token {
                        Some(t) => t == e.fencing_token,
                        None => false,
                    };
                    if same && renewing {
                        LeaseAction::Renew { fencing_token: e.fencing_token }
                    } else if abandoned {
                        let next = match e.fencing_token.checked_add(1) {
                            Some(n) => n,
                            None => {
                                return Err(token_overflow_error());
                            },
                        };
                        LeaseAction::Takeover {
                            previous_holder_id: copy_text(&e.holder_id),
                            fencing_token: TokenChoice::AtLeast(if next > floor { next } else { floor }),
                        }
                    } else {
                        LeaseAction::HeldByOther
                    }
                },
            }
        },
    };
    Ok(LeasePlan { action, expires_at })
}


// ---------------------------------------------------------------------
// Versions, requests, and resolve claims.

/// `e` reports `value` as an invalid version.
pub open spec fn invalid_version_of(e: CoordinatorError, value: Seq<char>) -> bool {
    e matches CoordinatorError::InvalidVersion { value: v } && v@ == value
}

/// Orders two version texts by release order, reporting an invalid text
/// by its value.
pub fn compare_versions(left: &str, right: &str) -> (r: Result<Ordering, CoordinatorError>)
    ensures
        match r {
            Ok(o) => version_model(left@) is Some && version_model(right@) is Some && o
                == version_order(version_model(left@).unwrap(), version_model(right@).unwrap()),
            Err(e) => (version_model(left@) is None && invalid_version_of(e, left@)) || (version_model(
                left@,
            ) is Some && version_model(right@) is None && invalid_version_of(e, right@)),
        },
{
    match compare_store_versions(left, right) {
        Ok(o) => Ok(o),
        Err(StoreConnectionError::InvalidVersion { value, .. }) => Err(CoordinatorError::InvalidVersion { value }),
        Err(_) => {
            assert(false);
            Err(CoordinatorError::InvalidRequest)
        },
    }
}

/// The version floor a writer must meet, when the three recorded texts
/// are valid versions (see `required_writer_version`).
pub open spec fn writer_floor(
    minimum_reader: Seq<char>,
    minimum_writer: Seq<char>,
    recorded_binary: Seq<char>,
    allow_downgrade: bool,
) -> Seq<char> {
    let reader = version_model(minimum_reader).unwrap();
    let writer = version_model(minimum_writer).unwrap();
    let recorded = version_model(recorded_binary).unwrap();
    let use_reader = version_order(reader, writer) != Ordering::Less;
    let minimum = if use_reader {
        reader
    } else {
        writer
    };
    if allow_downgrade || version_order(minimum, recorded) != Ordering::Less {
        if use_reader {
            minimum_reader
        } else {
            minimum_writer
        }
    } else {
        recorded_binary
    }
}

/// Whether a writer running `running` may write a store whose metadata
/// records these floors: an invalid recorded text is reported by its
/// value, and a running version below the floor is too old.
pub fn writer_eligibility(
    running: &str,
    minimum_reader: &str,
    minimum_writer: &str,
    recorded_binary: &str,
    allow_downgrade: bool,
) -> (r: Result<(), CoordinatorError>)
    ensures
        version_model(minimum_reader@) is None ==> (r matches Err(CoordinatorError::InvalidVersion { value })
            && value@ == minimum_reader@),
        version_model(minimum_reader@) is Some && version_model(minimum_writer@) is None ==> (r matches Err(
            CoordinatorError::InvalidVersion { value },
        ) && value@ == minimum_writer@),
        version_model(minimum_reader@) is Some && version_model(minimum_writer@) is Some && version_model(
            recorded_binary@,
        ) is None ==> (r matches Err(CoordinatorError::InvalidVersion { value }) && value@ == recorded_binary@),
        version_model(minimum_reader@) is Some && version_model(minimum_writer@) is Some && version_model(
            recorded_binary@,
        ) is Some ==> {
            let floor = writer_floor(minimum_reader@, minimum_writer@, recorded_binary@, allow_downgrade);
            &&& version_model(running@) is None ==> (r matches Err(CoordinatorError::InvalidVersion { value })
                && value@ == running@)
            &&& version_model(running@) is Some ==> (r is Ok <==> version_order(
                version_model(running@).unwrap(),
                version_model(floor).unwrap(),
            ) != Ordering::Less)
            &&& version_model(running@) is Some && r is Err ==> (r matches Err(
                CoordinatorError::WriterVersionTooOld { running: run, required },
            ) && run@ == running@ && required@ == floor)
        },
{
    let required = match required_writer_version(minimum_reader, minimum_writer, recorded_binary, allow_downgrade) {
        Ok(v) => v,
        Err(StoreConnectionError::InvalidVersion { value, .. }) => {
            return Err(CoordinatorError::InvalidVersion { value });
        },
        Err(_) => {
            assert(false);
            return Err(CoordinatorError::InvalidRequest);
        },
    };
    match compare_versions(running, required) {
        Ok(Ordering::Less) => Err(
            CoordinatorError::WriterVersionTooOld { running: owned(running), required: owned(required) },
        ),
        Ok(_) => Ok(()),
        Err(e) => Err(e),
    }
}

/// The first rule a new request breaks: non-negative creation, update
/// and deadline times (in that order, reported with the field's name and
/// value), then non-empty identifiers and key, the queued state, and a
/// JSON payload.
pub open spec fn request_rule_broken(r: CoordinatorRequest) -> bool {
    r.request_id@.len() == 0 || r.idempotency_key@.len() == 0 || r.requester_id@.len() == 0
        || r.state != RequestState::Queued || !json_parses(r.payload_json@)
}

/// The request carries a negative requester deadline.
pub open spec fn negative_deadline(r: CoordinatorRequest) -> bool {
    match r.requester_deadline {
        Some(d) => d < 0,
        None => false,
    }
}

/// A request that may be queued.
pub open spec fn request_valid(r: CoordinatorRequest) -> bool {
    r.created_at >= 0 && r.updated_at >= 0 && !negative_deadline(r) && !request_rule_broken(r)
}

/// The error that reports the first rule `r` breaks.
pub open spec fn request_error(r: CoordinatorRequest, e: CoordinatorError) -> bool {
    if r.created_at < 0 {
        e matches CoordinatorError::InvalidTime { field, value } && field@ == "created_at"@ && value
            == r.created_at
    } else if r.updated_at < 0 {
        e matches CoordinatorError::InvalidTime { field, value } && field@ == "updated_at"@ && value
            == r.updated_at
    } else if negative_deadline(r) {
        e matches CoordinatorError::InvalidTime { field, value } && field@ == "requester_deadline"@
            && value == r.requester_deadline->0
    } else {
        e matches CoordinatorError::InvalidRequest
    }
}

/// Checks a request before it is queued.
pub fn validate_request(request: &CoordinatorRequest) -> (r: Result<(), CoordinatorError>)
    ensures
        r is Ok <==> request_valid(*request),
        r matches Err(e) ==> request_error(*request, e),
{
    if request.created_at < 0 {
        return Err(CoordinatorError::InvalidTime { field: "created_at", value: request.created_at });
    }
    if request.updated_at < 0 {
        return Err(CoordinatorError::InvalidTime { field: "updated_at", value: request.updated_at });
    }
    if let Some(deadline) = request.requester_deadline {
        if deadline < 0 {
            return Err(CoordinatorError::InvalidTime { field: "requester_deadline", value: deadline });
        }
    }
    let queued = match request.state {
        RequestState::Queued => true,
        _ => false,
    };
    if request.request_id.as_str().is_empty() || request.idempotency_key.as_str().is_empty()
        || request.requester_id.as_str().is_empty() || !queued || !is_json(request.payload_json.as_str()) {
        Err(CoordinatorError::InvalidRequest)
    } else {
        Ok(())
    }
}

/// `r` is the request an archived receipt stands for: committed,
/// requested by `receipt`, created and updated when it completed.
pub open spec fn stands_for_receipt(r: CoordinatorRequest, receipt: RequestReceipt) -> bool {
    &&& r.request_id == receipt.request_id
    &&& r.idempotency_key == receipt.idempotency_key
    &&& r.kind == receipt.kind
    &&& r.payload_json == receipt.payload_json
    &&& r.state == RequestState::Committed
    &&& r.requester_id@ == "receipt"@
    &&& r.requester_deadline is None
    &&& r.claim_owner is None
    &&& r.claim_heartbeat_at is None
    &&& r.terminal_log_sequence == Some(receipt.terminal_log_sequence)
    &&& r.result_json == Some(receipt.terminal_result_json)
    &&& r.error_json is None
    &&& r.created_at == receipt.completed_at
    &&& r.updated_at == receipt.completed_at
}

/// The request an archived receipt stands for.
pub fn request_from_receipt(receipt: RequestReceipt) -> (r: CoordinatorRequest)
    ensures
        stands_for_receipt(r, receipt),
{
    proof {
        reveal_strlit("receipt");
    }
    CoordinatorRequest {
        request_id: receipt.request_id,
        idempotency_key: receipt.idempotency_key,
        kind: receipt.kind,
        payload_json: receipt.payload_json,
        state: RequestState::Committed,
        requester_id: owned("receipt"),
        requester_deadline: None,
        claim_owner: None,
        claim_heartbeat_at: None,
        terminal_log_sequence: Some(receipt.terminal_log_sequence),
        result_json: Some(receipt.terminal_result_json),
        error_json: None,
        created_at: receipt.completed_at,
        updated_at: receipt.completed_at,
    }
}

/// The process of a resolve claim owner named `cli-<pid>`.
pub open spec fn owner_pid_spec(owner_id: Seq<char>) -> Option<u32> {
    match crate::text::without_prefix(owner_id, "cli-"@) {
        Some(rest) => parse_u32_spec(rest),
        None => None,
    }
}

/// The process of a resolve claim owner, when its name is `cli-<pid>`.
pub fn resolve_owner_pid(owner_id: &str) -> (r: Option<u32>)
    ensures
        r == owner_pid_spec(owner_id@),
{
    let cs = chars_of(owner_id);
    match crate::text::strip_prefix(cs.as_slice(), "cli-") {
        Some(rest) => parse_u32(rest.as_slice()),
        None => None,
    }
}

/// A resolve claim may be taken over: the request is queued, the caller
/// already owns it, its heartbeat is at or before `stale_before`, or its
/// owner's process is dead.
pub open spec fn resolve_claimable(
    request: CoordinatorRequest,
    owner_id: Seq<char>,
    stale_before: i64,
    owner_dead: bool,
) -> bool {
    request.state == RequestState::Queued || (request.claim_owner matches Some(o) && o@ == owner_id)
        || (request.claim_heartbeat_at matches Some(h) && h <= stale_before) || owner_dead
}

/// A resolve claim is granted: no live maintenance, the request exists,
/// is a resolve and is open, no other resolve is claimed, and the claim
/// may be taken.
pub open spec fn resolve_claim_granted(
    owner_id: Seq<char>,
    now: i64,
    stale_after_ms: i64,
    maintenance_live: bool,
    request: Option<&CoordinatorRequest>,
    other_resolve_claimed: bool,
    owner_dead: bool,
) -> bool {
    match request {
        Some(req) => !maintenance_live && req.kind == RequestKind::Resolve && (req.state
            == RequestState::Queued || req.state == RequestState::Claimed) && !other_resolve_claimed
            && resolve_claimable(*req, owner_id, clamp_i64(now - stale_after_ms), owner_dead),
        None => false,
    }
}

/// Decides a resolve claim from what the coordinator holds: whether a
/// live maintenance intent exists, the request (if any), whether another
/// resolve is already claimed, and whether the current claim owner's
/// process is known dead. Blank names, a negative clock or a
/// non-positive staleness are invalid.
pub fn decide_resolve_claim(
    request_id: &str,
    owner_id: &str,
    now: i64,
    stale_after_ms: i64,
    maintenance_live: bool,
    request: Option<&CoordinatorRequest>,
    other_resolve_claimed: bool,
    owner_dead: bool,
) -> (r: Result<bool, CoordinatorError>)
    ensures
        (request_id@.len() == 0 || owner_id@.len() == 0 || now < 0 || stale_after_ms <= 0) ==> r matches Err(
            CoordinatorError::InvalidRequest,
        ),
        !(request_id@.len() == 0 || owner_id@.len() == 0 || now < 0 || stale_after_ms <= 0) ==> (r matches Ok(
            claimed,
        ) && claimed == resolve_claim_granted(
            owner_id@,
            now,
            stale_after_ms,
            maintenance_live,
            request,
            other_resolve_claimed,
            owner_dead,
        )),
{
    if request_id.is_empty() || owner_id.is_empty() || now < 0 || stale_after_ms <= 0 {
        return Err(CoordinatorError::InvalidRequest);
    }
    let stale_before = saturating_sub_i64(now, stale_after_ms);
    if maintenance_live {
        return Ok(false);
    }
    let req = match request {
        Some(req) => req,
        None => {
            return Ok(false);
        },
    };
    let open = match req.state {
        RequestState::Queued | RequestState::Claimed => true,
        _ => false,
    };
    if req.kind != RequestKind::Resolve || !open {
        return Ok(false);
    }
    if other_resolve_claimed {
        return Ok(false);
    }
    let queued = match req.state {
        RequestState::Queued => true,
        _ => false,
    };
    let owns = match &req.claim_owner {
        Some(o) => str_eq(o.as_str(), owner_id),
        None => false,
    };
    let stale = match req.claim_heartbeat_at {
        Some(h) => h <= stale_before,
        None => false,
    };
    Ok(queued || owns || stale || owner_dead)
}


// ---------------------------------------------------------------------
// Enqueue, cursors, archival, acknowledgement, reconciliation.

fn copy_opt_text(s: &Option<String>) -> (r: Option<String>)
    ensures
        r == *s,
{
    match s {
        Some(t) => Some(t.clone()),
        None => None,
    }
}

fn copy_request(r: &CoordinatorRequest) -> (c: CoordinatorRequest)
    ensures
        c == *r,
{
    CoordinatorRequest {
        request_id: r.request_id.clone(),
        idempotency_key: r.idempotency_key.clone(),
        kind: r.kind,
        payload_json: r.payload_json.clone(),
        state: r.state,
        requester_id: r.requester_id.clone(),
        requester_deadline: r.requester_deadline,
        claim_owner: copy_opt_text(&r.claim_owner),
        claim_heartbeat_at: r.claim_heartbeat_at,
        terminal_log_sequence: r.terminal_log_sequence,
        result_json: copy_opt_text(&r.result_json),
        error_json: copy_opt_text(&r.error_json),
        created_at: r.created_at,
        updated_at: r.updated_at,
    }
}

fn copy_receipt(r: &RequestReceipt) -> (c: RequestReceipt)
    ensures
        c == *r,
{
    RequestReceipt {
        request_id: r.request_id.clone(),
        idempotency_key: r.idempotency_key.clone(),
        kind: r.kind,
        payload_json: r.payload_json.clone(),
        terminal_result_json: r.terminal_result_json.clone(),
        terminal_generation_name: r.terminal_generation_name.clone(),
        terminal_log_sequence: r.terminal_log_sequence,
        completed_at: r.completed_at,
    }
}

/// An enqueue repeats an earlier one: same kind and same payload.
pub open spec fn same_submission(kind: RequestKind, payload: Seq<char>, r: CoordinatorRequest) -> bool {
    r.kind == kind && r.payload_json@ == payload
}

/// Law: a repeated submission is one with the same kind and the same
/// payload text; a request of another kind, or with any other payload,
/// is a different submission.
pub proof fn lemma_same_submission_is_same_kind_and_payload(
    kind: RequestKind,
    payload: Seq<char>,
    r: CoordinatorRequest,
)
    ensures
        same_submission(kind, payload, r) <==> (r.kind == kind && r.payload_json@ == payload),
{
}

/// Decides an enqueue from what the coordinator holds under the new
/// request's identifier and its idempotency key, live requests first and
/// archived receipts second, and the live maintenance intent, if any.
///
/// An identifier already used with another key conflicts. A key already
/// used repeats the earlier request when kind and payload match and
/// conflicts otherwise. A new request is refused under live maintenance
/// and otherwise inserted.
pub fn decide_enqueue(
    request: &CoordinatorRequest,
    receipt_with_id: Option<&RequestReceipt>,
    request_with_id: Option<&CoordinatorRequest>,
    request_with_key: Option<&CoordinatorRequest>,
    receipt_with_key: Option<&RequestReceipt>,
    live_intent: Option<&IntentIdentity>,
) -> (r: Result<EnqueueResult, CoordinatorError>)
    ensures
        !request_valid(*request) ==> (r matches Err(e) && request_error(*request, e)),
        ({
            let id_taken = (receipt_with_id matches Some(x) && x.idempotency_key@ != request.idempotency_key@)
                || (request_with_id matches Some(x) && x.idempotency_key@ != request.idempotency_key@);
            request_valid(*request) ==> match r {
                Ok(res) => !id_taken && match request_with_key {
                    Some(x) => same_submission(request.kind, request.payload_json@, *x) && !res.inserted
                        && res.request == *x,
                    None => match receipt_with_key {
                        Some(x) => x.kind == request.kind && x.payload_json@ == request.payload_json@
                            && !res.inserted && stands_for_receipt(res.request, *x),
                        None => live_intent is None && res.inserted && res.request == *request,
                    },
                },
                Err(e) => if id_taken {
                    e matches CoordinatorError::RequestIdConflict { request_id } && request_id == request.request_id
                } else {
                    match request_with_key {
                        Some(x) => !same_submission(request.kind, request.payload_json@, *x) && (e matches CoordinatorError::IdempotencyConflict {
                            idempotency_key,
                            existing_request_id,
                        } && idempotency_key == request.idempotency_key && existing_request_id == x.request_id),
                        None => match receipt_with_key {
                            Some(x) => !(x.kind == request.kind && x.payload_json@ == request.payload_json@)
                                && (e matches CoordinatorError::IdempotencyConflict {
                                idempotency_key,
                                existing_request_id,
                            } && idempotency_key == request.idempotency_key && existing_request_id
                                == x.request_id),
                            None => live_intent matches Some(i) && (e matches CoordinatorError::StoreConnection(
                                StoreConnectionError::MaintenanceInProgress { run_id },
                            ) && run_id == i.run_id),
                        },
                    }
                },
            }
        }),
        request_valid(*request) && !(receipt_with_id is Some && receipt_with_id.unwrap().idempotency_key@
            != request.idempotency_key@) && !(request_with_id is Some && request_with_id.unwrap().idempotency_key@
            != request.idempotency_key@) && request_with_key is Some && (request_with_key.unwrap().kind
            != request.kind || request_with_key.unwrap().payload_json@ != request.payload_json@) ==> (r matches Err(
            CoordinatorError::IdempotencyConflict { idempotency_key, existing_request_id },
        ) && idempotency_key == request.idempotency_key && existing_request_id
            == request_with_key.unwrap().request_id),
        r is Ok && !r.unwrap().inserted ==> r.unwrap().request.kind == request.kind
            && r.unwrap().request.payload_json@ == request.payload_json@,
{
    match validate_request(request) {
        Ok(()) => {},
        Err(e) => {
            return Err(e);
        },
    }
    let id_conflict_receipt = match receipt_with_id {
        Some(x) => !str_eq(x.idempotency_key.as_str(), request.idempotency_key.as_str()),
        None => false,
    };
    let id_conflict_request = match request_with_id {
        Some(x) => !str_eq(x.idempotency_key.as_str(), request.idempotency_key.as_str()),
        None => false,
    };
    if id_conflict_receipt || id_conflict_request {
        return Err(CoordinatorError::RequestIdConflict { request_id: request.request_id.clone() });
    }
    if let Some(existing) = request_with_key {
        if existing.kind == request.kind && str_eq(existing.payload_json.as_str(), request.payload_json.as_str()) {
            return Ok(EnqueueResult { inserted: false, request: copy_request(existing) });
        }
        return Err(
            CoordinatorError::IdempotencyConflict {
                idempotency_key: request.idempotency_key.clone(),
                existing_request_id: existing.request_id.clone(),
            },
        );
    }
    if let Some(receipt) = receipt_with_key {
        if receipt.kind == request.kind && str_eq(receipt.payload_json.as_str(), request.payload_json.as_str()) {
            return Ok(EnqueueResult { inserted: false, request: request_from_receipt(copy_receipt(receipt)) });
        }
        return Err(
            CoordinatorError::IdempotencyConflict {
                idempotency_key: request.idempotency_key.clone(),
                existing_request_id: receipt.request_id.clone(),
            },
        );
    }
    if let Some(intent) = live_intent {
        return Err(
            CoordinatorError::StoreConnection(
                StoreConnectionError::MaintenanceInProgress { run_id: intent.run_id.clone() },
            ),
        );
    }
    Ok(EnqueueResult { inserted: true, request: copy_request(request) })
}

/// A consumer identifier of 1 to 128 UTF-8 bytes.
pub open spec fn consumer_id_ok(id: Seq<char>) -> bool {
    id.len() > 0 && crate::text::utf8_len(id) <= 128
}

/// Checks a consumer identifier.
pub fn validate_consumer_id(consumer_id: &str) -> (r: Result<(), CoordinatorError>)
    ensures
        r is Ok <==> consumer_id_ok(consumer_id@),
        r is Err ==> r matches Err(CoordinatorError::InvalidRequest),
{
    if consumer_id.is_empty() || consumer_id.len() > 128 {
        return Err(CoordinatorError::InvalidRequest);
    }
    Ok(())
}

/// Decides a consumer-cursor advance. `generation_present` says whether
/// the named generation is a real directory inside the store root;
/// `high_water` is the store log's allocator mark, if recorded;
/// `existing` is the consumer's current cursor, if any.
///
/// The identifier must be 1 to 128 bytes, the generation well named and
/// present, the sequence and time non-negative, and no maintenance live.
/// The cursor may not pass the high-water mark, change generation, or
/// move back in sequence or time.
pub fn decide_cursor_advance(
    consumer_id: &str,
    generation_name: &str,
    generation_present: bool,
    store_log_sequence: i64,
    updated_at: i64,
    live_intent: Option<&IntentIdentity>,
    high_water: Option<i64>,
    existing: Option<&ConsumerCursor>,
) -> (r: Result<ConsumerCursor, CoordinatorError>)
    ensures
        !consumer_id_ok(consumer_id@) ==> r matches Err(CoordinatorError::InvalidRequest),
        consumer_id_ok(consumer_id@) && !(is_generation_name(generation_name@) && generation_present) ==> (r matches Err(
            CoordinatorError::InvalidGeneration { generation_name: g },
        ) && g@ == generation_name@),
        consumer_id_ok(consumer_id@) && is_generation_name(generation_name@) && generation_present && (
        store_log_sequence < 0 || updated_at < 0) ==> (r matches Err(CoordinatorError::InvalidTime { field, value })
            && field@ == "consumer_cursor"@ && value == if store_log_sequence < updated_at {
            store_log_sequence
        } else {
            updated_at
        }),
        consumer_id_ok(consumer_id@) && is_generation_name(generation_name@) && generation_present
            && store_log_sequence >= 0 && updated_at >= 0 ==> {
            let high = match high_water {
                Some(h) => h,
                None => 0,
            };
            match r {
                Ok(c) => live_intent is None && store_log_sequence <= high && match existing {
                    Some(x) => x.generation_name@ == generation_name@ && store_log_sequence >= x.store_log_sequence
                        && updated_at >= x.updated_at,
                    None => true,
                } && c.consumer_id@ == consumer_id@ && c.generation_name@ == generation_name@
                    && c.store_log_sequence == store_log_sequence && c.updated_at == updated_at,
                Err(e) => match live_intent {
                    Some(i) => (e matches CoordinatorError::StoreConnection(
                        StoreConnectionError::MaintenanceInProgress { run_id },
                    ) && run_id == i.run_id),
                    None => if store_log_sequence > high {
                        (e matches CoordinatorError::CursorAhead { requested, high_water: h } && requested
                            == store_log_sequence && h == high)
                    } else {
                        match existing {
                            Some(x) => if x.generation_name@ != generation_name@ {
                                (e matches CoordinatorError::CursorGenerationConflict { consumer_id: c, current, requested }
                                    && c@ == consumer_id@ && current == x.generation_name && requested@
                                    == generation_name@)
                            } else {
                                (store_log_sequence < x.store_log_sequence || updated_at < x.updated_at)
                                    && (e matches CoordinatorError::CursorRegression { consumer_id: c, current, requested }
                                    && c@ == consumer_id@ && current == x.store_log_sequence && requested
                                    == store_log_sequence)
                            },
                            None => false,
                        }
                    },
                },
            }
        },
{
    match validate_consumer_id(consumer_id) {
        Ok(()) => {},
        Err(e) => {
            return Err(e);
        },
    }
    if !valid_generation_name(generation_name) || !generation_present {
        return Err(CoordinatorError::InvalidGeneration { generation_name: owned(generation_name) });
    }
    if store_log_sequence < 0 || updated_at < 0 {
        let value = if store_log_sequence < updated_at {
            store_log_sequence
        } else {
            updated_at
        };
        return Err(CoordinatorError::InvalidTime { field: "consumer_cursor", value });
    }
    if let Some(intent) = live_intent {
        return Err(
            CoordinatorError::StoreConnection(
                StoreConnectionError::MaintenanceInProgress { run_id: intent.run_id.clone() },
            ),
        );
    }
    let high: i64 = match high_water {
        Some(h) => h,
        None => 0,
    };
    if store_log_sequence > high {
        return Err(CoordinatorError::CursorAhead { requested: store_log_sequence, high_water: high });
    }
    if let Some(current) = existing {
        if !str_eq(current.generation_name.as_str(), generation_name) {
            return Err(
                CoordinatorError::CursorGenerationConflict {
                    consumer_id: owned(consumer_id),
                    current: current.generation_name.clone(),
                    requested: owned(generation_name),
                },
            );
        }
        if store_log_sequence < current.store_log_sequence || updated_at < current.updated_at {
            return Err(
                CoordinatorError::CursorRegression {
                    consumer_id: owned(consumer_id),
                    current: current.store_log_sequence,
                    requested: store_log_sequence,
                },
            );
        }
    }
    Ok(
        ConsumerCursor {
            consumer_id: owned(consumer_id),
            generation_name: owned(generation_name),
            store_log_sequence,
            updated_at,
        },
    )
}

/// Checks an archival request: a well-named, present generation,
/// non-negative bounds (reported by the smaller), and a positive limit.
pub fn validate_archive_request(
    generation_name: &str,
    generation_present: bool,
    completed_before: i64,
    maximum_log_sequence: i64,
    limit: usize,
) -> (r: Result<(), CoordinatorError>)
    ensures
        !(is_generation_name(generation_name@) && generation_present) ==> (r matches Err(
            CoordinatorError::InvalidGeneration { generation_name: g },
        ) && g@ == generation_name@),
        is_generation_name(generation_name@) && generation_present && (completed_before < 0
            || maximum_log_sequence < 0) ==> (r matches Err(CoordinatorError::InvalidTime { field, value })
            && field@ == "request_archive"@ && value == if completed_before < maximum_log_sequence {
            completed_before
        } else {
            maximum_log_sequence
        }),
        is_generation_name(generation_name@) && generation_present && completed_before >= 0
            && maximum_log_sequence >= 0 ==> (r is Ok <==> limit > 0) && (limit == 0 ==> r matches Err(
            CoordinatorError::InvalidPolicy,
        )),
{
    if !valid_generation_name(generation_name) || !generation_present {
        return Err(CoordinatorError::InvalidGeneration { generation_name: owned(generation_name) });
    }
    if completed_before < 0 || maximum_log_sequence < 0 {
        let value = if completed_before < maximum_log_sequence {
            completed_before
        } else {
            maximum_log_sequence
        };
        return Err(CoordinatorError::InvalidTime { field: "request_archive", value });
    }
    if limit == 0 {
        return Err(CoordinatorError::InvalidPolicy);
    }
    Ok(())
}

/// Checks an acknowledgement's clock reading.
pub fn validate_acknowledgement(now: i64) -> (r: Result<(), CoordinatorError>)
    ensures
        r is Ok <==> now >= 0,
        r is Err ==> (r matches Err(CoordinatorError::InvalidTime { field, value }) && field@
            == "acknowledged_at"@ && value == now),
{
    if now < 0 {
        return Err(CoordinatorError::InvalidTime { field: "acknowledged_at", value: now });
    }
    Ok(())
}

/// A terminal store-log entry for a request: its sequence and payload.
#[derive(Debug, Clone, PartialEq, Eq)]
pub struct StoreTerminal {
    pub sequence: i64,
    pub payload_json: String,
}

/// What reconciling a request does: whether to record the store's
/// terminal entry on the request, and the outcome to report.
#[derive(Debug, Clone, PartialEq, Eq)]
pub struct ReconcilePlan {
    pub mark_committed: bool,
    pub committed_in_fact: bool,
    /// The next chunk to run, or `None` when the store's chunk index is
    /// negative, which is reported as corrupt once the transaction ends.
    pub next_chunk_index: Option<u64>,
}

/// The request is committed or acknowledged.
pub open spec fn is_done(s: RequestState) -> bool {
    s == RequestState::Committed || s == RequestState::Acknowledged
}

/// The request's terminal fields agree with the store's entry.
pub open spec fn terminal_agrees(req: CoordinatorRequest, t: StoreTerminal) -> bool {
    req.terminal_log_sequence == Some(t.sequence) && match req.result_json {
        Some(j) => j@ == t.payload_json@,
        None => false,
    }
}

/// Decides how a request reconciles with the store: `terminal` is the
/// request's terminal store-log entry, if any; `request` is the
/// coordinator's row; `next_chunk_index` is one past the store's last
/// chunk for the request.
///
/// A missing request is not found. A committed request without a
/// terminal entry is ahead of the store; one whose terminal fields
/// disagree with the entry is corrupt. A terminal entry is recorded on a
/// request that is not done yet.
pub fn decide_reconcile(
    request_id: &str,
    terminal: Option<&StoreTerminal>,
    request: Option<&CoordinatorRequest>,
    next_chunk_index: i64,
) -> (r: Result<ReconcilePlan, CoordinatorError>)
    ensures
        request is None ==> (r matches Err(CoordinatorError::RequestNotFound { request_id: id }) && id@
            == request_id@),
        request matches Some(req) ==> match r {
            Ok(plan) => !(terminal is None && is_done(req.state)) && !(terminal is Some && is_done(req.state)
                && !terminal_agrees(*req, *terminal->0)) && plan.mark_committed == (terminal is Some && !is_done(req.state))
                && plan.committed_in_fact == (terminal is Some) && plan.next_chunk_index == if next_chunk_index
                >= 0 {
                Some(next_chunk_index as u64)
            } else {
                None::<u64>
            },
            Err(e) => if terminal is None {
                is_done(req.state) && (e matches CoordinatorError::CoordinatorAheadOfStore { request_id: id }
                    && id@ == request_id@)
            } else {
                is_done(req.state) && (e matches CoordinatorError::CorruptRequest { detail } && detail@
                    == "request "@ + debug_text(request_id@)
                    + " terminal coordinator fields do not match store_log"@)
            },
        },
{
    let req = match request {
        Some(req) => req,
        None => {
            return Err(CoordinatorError::RequestNotFound { request_id: owned(request_id) });
        },
    };
    let done = match req.state {
        RequestState::Committed | RequestState::Acknowledged => true,
        _ => false,
    };
    match terminal {
        None => {
            if done {
                return Err(CoordinatorError::CoordinatorAheadOfStore { request_id: owned(request_id) });
            }
        },
        Some(t) => {
            let same_sequence = match req.terminal_log_sequence {
                Some(s) => s == t.sequence,
                None => false,
            };
            let same_result = match &req.result_json {
                Some(j) => str_eq(j.as_str(), t.payload_json.as_str()),
                None => false,
            };
            if done && !(same_sequence && same_result) {
                let mut detail = owned("request ");
                let quoted = debug_quote(request_id);
                crate::text::push_str(&mut detail, quoted.as_str());
                crate::text::push_str(&mut detail, " terminal coordinator fields do not match store_log");
                proof {
                    reveal_strlit("request ");
                    reveal_strlit(" terminal coordinator fields do not match store_log");
                }
                return Err(CoordinatorError::CorruptRequest { detail });
            }
        },
    }
    let next = if next_chunk_index >= 0 {
        Some(next_chunk_index as u64)
    } else {
        None
    };
    Ok(
        ReconcilePlan {
            mark_committed: terminal.is_some() && !done,
            committed_in_fact: terminal.is_some(),
            next_chunk_index: next,
        },
    )
}


// ---------------------------------------------------------------------
// Draining the queue.

/// A drain policy that can run: a positive burst count and length, a
/// non-negative service window, a positive quantum limit, and a lease
/// longer than a quantum.
pub open spec fn drain_policy_ok(p: CoordinatorPolicy) -> bool {
    p.interactive_burst_count > 0 && p.interactive_burst_ms > 0 && p.service_window_ms >= 0
        && p.maximum_quantum_ms > 0 && p.lease_duration_ms > p.maximum_quantum_ms
}

/// Checks a drain policy.
pub fn validate_drain_policy(policy: &CoordinatorPolicy) -> (r: Result<(), CoordinatorError>)
    ensures
        r is Ok <==> drain_policy_ok(*policy),
        r is Err ==> r matches Err(CoordinatorError::InvalidPolicy),
{
    if policy.interactive_burst_count == 0 || policy.interactive_burst_ms <= 0 || policy.service_window_ms < 0
        || policy.maximum_quantum_ms <= 0 || policy.lease_duration_ms <= policy.maximum_quantum_ms {
        return Err(CoordinatorError::InvalidPolicy);
    }
    Ok(())
}

/// The texts of an optional list of identifiers.
pub open spec fn allowed_texts(ids: Option<&Vec<String>>) -> Option<Seq<Seq<char>>> {
    match ids {
        Some(v) => Some(v@.map_values(|s: String| s@)),
        None => None,
    }
}

/// A queued or claimed request the caller may claim: queued, already
/// the caller's, or with a heartbeat at least a lease old.
pub open spec fn claim_eligible(r: CoordinatorRequest, holder_id: Seq<char>, now: i64, lease_ms: i64) -> bool {
    r.state == RequestState::Queued || (match r.claim_owner {
        Some(o) => o@ == holder_id,
        None => false,
    }) || (match r.claim_heartbeat_at {
        Some(h) => h <= clamp_i64(now - lease_ms),
        None => false,
    })
}

/// A request the drain may run next: not a resolve, claimable, and
/// among the allowed identifiers when a list is given.
pub open spec fn selectable(
    r: CoordinatorRequest,
    allowed: Option<Seq<Seq<char>>>,
    holder_id: Seq<char>,
    now: i64,
    lease_ms: i64,
) -> bool {
    r.kind != RequestKind::Resolve && claim_eligible(r, holder_id, now, lease_ms) && match allowed {
        Some(ids) => ids.contains(r.request_id@),
        None => true,
    }
}

/// Is a batch request: an import or an artifact load.
pub open spec fn batch_kind(k: RequestKind) -> bool {
    k is Import || k is FromArtifact
}

/// The first selectable request from `i` on whose batch-ness is `batch`.
pub open spec fn first_selectable(
    rs: Seq<CoordinatorRequest>,
    batch: bool,
    allowed: Option<Seq<Seq<char>>>,
    holder_id: Seq<char>,
    now: i64,
    lease_ms: i64,
    i: int,
) -> Option<int>
    decreases rs.len() - i,
{
    if i < 0 || i >= rs.len() {
        None
    } else if selectable(rs[i], allowed, holder_id, now, lease_ms) && batch_kind(rs[i].kind) == batch {
        Some(i)
    } else {
        first_selectable(rs, batch, allowed, holder_id, now, lease_ms, i + 1)
    }
}

/// The request the drain runs next among the open requests, in queue
/// order: the first interactive one, or the first batch one when a batch
/// turn is forced; the other kind when the preferred one has none.
pub open spec fn next_request_spec(
    rs: Seq<CoordinatorRequest>,
    allowed: Option<Seq<Seq<char>>>,
    force_batch: bool,
    holder_id: Seq<char>,
    now: i64,
    lease_ms: i64,
) -> Option<int> {
    let batch = first_selectable(rs, true, allowed, holder_id, now, lease_ms, 0);
    let interactive = first_selectable(rs, false, allowed, holder_id, now, lease_ms, 0);
    if force_batch {
        if batch is Some {
            batch
        } else {
            interactive
        }
    } else {
        if interactive is Some {
            interactive
        } else {
            batch
        }
    }
}

/// What `first_selectable` finds: the first selectable request of the
/// given batch-ness at or after `i`, or none when there is none.
proof fn lemma_first_selectable(
    rs: Seq<CoordinatorRequest>,
    batch: bool,
    allowed: Option<Seq<Seq<char>>>,
    holder_id: Seq<char>,
    now: i64,
    lease_ms: i64,
    i: int,
)
    requires
        0 <= i,
    ensures
        first_selectable(rs, batch, allowed, holder_id, now, lease_ms, i) matches Some(k) ==> {
            &&& i <= k < rs.len()
            &&& selectable(rs[k], allowed, holder_id, now, lease_ms)
            &&& batch_kind(rs[k].kind) == batch
            &&& forall|j: int|
                i <= j < k ==> !(selectable(#[trigger] rs[j], allowed, holder_id, now, lease_ms) && batch_kind(
                    rs[j].kind,
                ) == batch)
        },
        first_selectable(rs, batch, allowed, holder_id, now, lease_ms, i) is None ==> forall|j: int|
            i <= j < rs.len() ==> !(selectable(#[trigger] rs[j], allowed, holder_id, now, lease_ms)
                && batch_kind(rs[j].kind) == batch),
    decreases rs.len() - i,
{
    if i < rs.len() {
        lemma_first_selectable(rs, batch, allowed, holder_id, now, lease_ms, i + 1);
    }
}

/// Law: the drain runs the earliest request of the preferred kind. The
/// request picked is selectable, and no selectable request of its kind
/// (batch or interactive) comes before it in queue order. Interactive
/// work is preferred unless a batch turn is forced, batch work when it
/// is: whenever some selectable request of the preferred kind exists, the
/// pick is of that kind. Nothing is picked only when nothing is
/// selectable.
pub proof fn lemma_next_request_prefers_its_turn(
    rs: Seq<CoordinatorRequest>,
    allowed: Option<Seq<Seq<char>>>,
    force_batch: bool,
    holder_id: Seq<char>,
    now: i64,
    lease_ms: i64,
)
    ensures
        next_request_spec(rs, allowed, force_batch, holder_id, now, lease_ms) matches Some(k) ==> {
            &&& 0 <= k < rs.len()
            &&& selectable(rs[k], allowed, holder_id, now, lease_ms)
            &&& forall|j: int|
                0 <= j < k && selectable(#[trigger] rs[j], allowed, holder_id, now, lease_ms) ==> batch_kind(
                    rs[j].kind,
                ) != batch_kind(rs[k].kind)
        },
        (exists|j: int|
            0 <= j < rs.len() && selectable(#[trigger] rs[j], allowed, holder_id, now, lease_ms) && batch_kind(
                rs[j].kind,
            ) == force_batch) ==> (next_request_spec(rs, allowed, force_batch, holder_id, now, lease_ms) matches Some(
            k,
        ) && batch_kind(rs[k].kind) == force_batch),
        next_request_spec(rs, allowed, force_batch, holder_id, now, lease_ms) is None ==> forall|j: int|
            0 <= j < rs.len() ==> !selectable(#[trigger] rs[j], allowed, holder_id, now, lease_ms),
{
    lemma_first_selectable(rs, true, allowed, holder_id, now, lease_ms, 0);
    lemma_first_selectable(rs, false, allowed, holder_id, now, lease_ms, 0);
}

fn allowed_contains(ids: &Vec<String>, id: &String) -> (r: bool)
    ensures
        r == ids@.map_values(|s: String| s@).contains(id@),
{
    let ghost texts = ids@.map_values(|s: String| s@);
    let mut i: usize = 0;
    while i < ids.len()
        invariant
            i <= ids@.len(),
            texts == ids@.map_values(|s: String| s@),
            forall|k: int| 0 <= k < i ==> texts[k] != id@,
        decreases ids@.len() - i,
    {
        if str_eq(ids[i].as_str(), id.as_str()) {
            assert(texts[i as int] == id@);
            return true;
        }
        i = i + 1;
    }
    false
}

/// Picks the next request to run from the open requests, given in
/// queue order (creation time, then identifier).
pub fn select_next_request(
    requests: &Vec<CoordinatorRequest>,
    allowed: Option<&Vec<String>>,
    force_batch: bool,
    holder_id: &str,
    now: i64,
    lease_duration_ms: i64,
) -> (r: Option<usize>)
    ensures
        match r {
            Some(i) => next_request_spec(requests@, allowed_texts(allowed), force_batch, holder_id@, now, lease_duration_ms)
                == Some(i as int),
            None => next_request_spec(requests@, allowed_texts(allowed), force_batch, holder_id@, now, lease_duration_ms)
                is None,
        },
{
    let ghost al = allowed_texts(allowed);
    let stale_before = saturating_sub_i64(now, lease_duration_ms);
    let mut batch: Option<usize> = None;
    let mut interactive: Option<usize> = None;
    let mut i: usize = 0;
    while i < requests.len()
        invariant
            i <= requests@.len(),
            al == allowed_texts(allowed),
            stale_before == clamp_i64(now - lease_duration_ms),
            match batch {
                Some(b) => first_selectable(requests@, true, al, holder_id@, now, lease_duration_ms, 0) == Some(b as int),
                None => first_selectable(requests@, true, al, holder_id@, now, lease_duration_ms, 0)
                    == first_selectable(requests@, true, al, holder_id@, now, lease_duration_ms, i as int),
            },
            match interactive {
                Some(b) => first_selectable(requests@, false, al, holder_id@, now, lease_duration_ms, 0) == Some(b as int),
                None => first_selectable(requests@, false, al, holder_id@, now, lease_duration_ms, 0)
                    == first_selectable(requests@, false, al, holder_id@, now, lease_duration_ms, i as int),
            },
        decreases requests@.len() - i,
    {
        let req = &requests[i];
        let eligible_claim = match req.state {
            RequestState::Queued => true,
            _ => false,
        } || match &req.claim_owner {
            Some(o) => str_eq(o.as_str(), holder_id),
            None => false,
        } || match req.claim_heartbeat_at {
            Some(h) => h <= stale_before,
            None => false,
        };
        let permitted = match allowed {
            Some(ids) => allowed_contains(ids, &req.request_id),
            None => true,
        };
        let not_resolve = match req.kind {
            RequestKind::Resolve => false,
            _ => true,
        };
        if not_resolve && eligible_claim && permitted {
            if req.kind.is_batch() {
                if batch.is_none() {
                    batch = Some(i);
                }
            } else {
                if interactive.is_none() {
                    interactive = Some(i);
                }
            }
        }
        i = i + 1;
    }
    if force_batch {
        if batch.is_some() {
            batch
        } else {
            interactive
        }
    } else {
        if interactive.is_some() {
            interactive
        } else {
            batch
        }
    }
}

/// How long a quantum ran past the limit, when a request that may not
/// renew its quantum ran longer than `maximum_ms`.
pub open spec fn quantum_overrun_spec(kind: RequestKind, started_at: i64, finished_at: i64, maximum_ms: i64) -> Option<i64> {
    let elapsed = clamp_i64(finished_at - started_at);
    if elapsed > maximum_ms && !(kind is FromArtifact) {
        Some(elapsed)
    } else {
        None
    }
}

/// The elapsed time of a quantum that overran its limit, if it did.
pub fn quantum_overrun(kind: RequestKind, started_at: i64, finished_at: i64, maximum_ms: i64) -> (r: Option<i64>)
    ensures
        r == quantum_overrun_spec(kind, started_at, finished_at, maximum_ms),
{
    let elapsed = saturating_sub_i64(finished_at, started_at);
    if elapsed > maximum_ms && !kind.permits_renewable_quantum() {
        Some(elapsed)
    } else {
        None
    }
}

/// Where a drain stands between quanta.
#[derive(Debug, Clone, PartialEq, Eq)]
pub struct DrainProgress {
    /// The caller's own request is still running; only it may run.
    pub awaiting_own_terminal: bool,
    /// The requests open when the service window began, still open.
    pub backlog: Vec<String>,
    /// When the service window ends, once it has begun.
    pub service_deadline: Option<i64>,
    pub report: DrainReport,
    pub interactive_in_burst: usize,
    pub burst_started_at: i64,
}

/// What a drain does next.
#[derive(Debug, Clone, PartialEq, Eq)]
pub enum DrainStep {
    Stop,
    /// Pick a request, among `only` when given, preferring batch work
    /// when `force_batch`.
    Select { only: Option<Vec<String>>, force_batch: bool },
}

/// A batch turn is due: the burst used its count or its time.
pub open spec fn burst_spent(p: DrainProgress, now: i64, policy: CoordinatorPolicy) -> bool {
    p.interactive_in_burst >= policy.interactive_burst_count || clamp_i64(now - p.burst_started_at)
        >= policy.interactive_burst_ms
}

impl DrainProgress {
    /// A drain starting at `started_at`: waiting for the caller's own
    /// request when it is still open, else serving the requests open now
    /// for the policy's service window.
    pub fn start(
        awaiting_own_terminal: bool,
        pending: Vec<String>,
        started_at: i64,
        policy: &CoordinatorPolicy,
    ) -> (r: Result<Self, CoordinatorError>)
        ensures
            awaiting_own_terminal ==> (r matches Ok(p) && p.awaiting_own_terminal && p.backlog@.len() == 0
                && p.service_deadline is None && p.report == DrainReport::default_spec()
                && p.interactive_in_burst == 0 && p.burst_started_at == started_at),
            !awaiting_own_terminal ==> match r {
                Ok(p) => !p.awaiting_own_terminal && p.backlog@ == pending@ && p.service_deadline == Some(
                    (started_at + policy.service_window_ms) as i64,
                ) && i64::MIN <= started_at + policy.service_window_ms <= i64::MAX && p.report
                    == DrainReport::default_spec() && p.interactive_in_burst == 0 && p.burst_started_at
                    == started_at,
                Err(e) => !(i64::MIN <= started_at + policy.service_window_ms <= i64::MAX) && (e matches CoordinatorError::InvalidTime {
                    field,
                    value,
                } && field@ == "service_deadline"@ && value == started_at),
            },
    {
        let report = DrainReport::empty();
        if awaiting_own_terminal {
            return Ok(
                DrainProgress {
                    awaiting_own_terminal: true,
                    backlog: Vec::new(),
                    service_deadline: None,
                    report,
                    interactive_in_burst: 0,
                    burst_started_at: started_at,
                },
            );
        }
        let deadline = match checked_service_deadline(started_at, policy.service_window_ms) {
            Ok(d) => d,
            Err(e) => {
                return Err(e);
            },
        };
        Ok(
            DrainProgress {
                awaiting_own_terminal: false,
                backlog: pending,
                service_deadline: Some(deadline),
                report,
                interactive_in_burst: 0,
                burst_started_at: started_at,
            },
        )
    }

    /// Keeps the backlog entries still open; `open[i]` says whether
    /// `backlog[i]` is queued or claimed.
    pub fn retain_open(&mut self, open: &Vec<bool>)
        requires
            open@.len() == old(self).backlog@.len(),
        ensures
            final(self).backlog@ == flagged(old(self).backlog@, open@),
            final(self).awaiting_own_terminal == old(self).awaiting_own_terminal,
            final(self).service_deadline == old(self).service_deadline,
            final(self).report == old(self).report,
            final(self).interactive_in_burst == old(self).interactive_in_burst,
            final(self).burst_started_at == old(self).burst_started_at,
    {
        let mut kept: Vec<String> = Vec::new();
        let mut i: usize = 0;
        while i < self.backlog.len()
            invariant
                i <= self.backlog@.len(),
                open@.len() == self.backlog@.len(),
                self.backlog@ == old(self).backlog@,
                kept@ == flagged(self.backlog@.take(i as int), open@.take(i as int)),
            decreases self.backlog@.len() - i,
        {
            if open[i] {
                kept.push(self.backlog[i].clone());
            }
            proof {
                assert(self.backlog@.take(i + 1).drop_last() =~= self.backlog@.take(i as int));
                assert(open@.take(i + 1).drop_last() =~= open@.take(i as int));
            }
            i = i + 1;
        }
        proof {
            assert(self.backlog@.take(i as int) =~= self.backlog@);
            assert(open@.take(i as int) =~= open@);
        }
        self.backlog = kept;
    }

    /// What to do next at `now`: while waiting for its own request the
    /// drain may run only that request; with an empty backlog it stops
    /// once the service window has ended and otherwise takes any
    /// request; else it serves the backlog. A batch turn is forced once
    /// the interactive burst is spent.
    pub fn next_step(&self, own_request_id: Option<&String>, now: i64, policy: &CoordinatorPolicy) -> (r: DrainStep)
        ensures
            ({
                let force = burst_spent(*self, now, *policy);
                if self.awaiting_own_terminal {
                    r matches DrainStep::Select { only: Some(ids), force_batch } && force_batch == force
                        && ids@ == match own_request_id {
                        Some(id) => seq![*id],
                        None => Seq::<String>::empty(),
                    }
                } else if self.backlog@.len() == 0 {
                    if self.service_deadline matches Some(d) && now >= d {
                        r == DrainStep::Stop
                    } else {
                        r == DrainStep::Select { only: None, force_batch: force }
                    }
                } else {
                    r matches DrainStep::Select { only: Some(ids), force_batch } && force_batch == force
                        && ids@ == self.backlog@
                }
            }),
    {
        let force = self.interactive_in_burst >= policy.interactive_burst_count || saturating_sub_i64(
            now,
            self.burst_started_at,
        ) >= policy.interactive_burst_ms;
        if self.awaiting_own_terminal {
            let mut ids: Vec<String> = Vec::new();
            if let Some(id) = own_request_id {
                ids.push(id.clone());
            }
            assert(ids@ =~= match own_request_id {
                Some(id) => seq![*id],
                None => Seq::<String>::empty(),
            });
            return DrainStep::Select { only: Some(ids), force_batch: force };
        }
        if self.backlog.len() == 0 {
            let ended = match self.service_deadline {
                Some(d) => now >= d,
                None => false,
            };
            if ended {
                return DrainStep::Stop;
            }
            return DrainStep::Select { only: None, force_batch: force };
        }
        let mut ids: Vec<String> = Vec::new();
        let mut i: usize = 0;
        while i < self.backlog.len()
            invariant
                i <= self.backlog@.len(),
                ids@ == self.backlog@.take(i as int),
            decreases self.backlog@.len() - i,
        {
            ids.push(self.backlog[i].clone());
            assert(ids@ =~= self.backlog@.take(i + 1));
            i = i + 1;
        }
        assert(self.backlog@.take(i as int) =~= self.backlog@);
        DrainStep::Select { only: Some(ids), force_batch: force }
    }

    /// Starts a new burst at `now` after a forced batch turn found nothing.
    pub fn restart_burst(&mut self, now: i64)
        ensures
            *final(self) == (DrainProgress { interactive_in_burst: 0, burst_started_at: now, ..*old(self) }),
    {
        self.interactive_in_burst = 0;
        self.burst_started_at = now;
    }

    /// Records a quantum of request `request_id`: batch quanta end the
    /// burst at `now`, interactive ones extend it; a request that ended
    /// leaves the backlog and counts as completed or failed, one that did
    /// not counts as progress. Returns whether the caller's own request
    /// just ended while the drain was waiting for it.
    pub fn record_quantum(
        &mut self,
        request_id: &String,
        is_batch: bool,
        state_after: RequestState,
        own_request_id: Option<&String>,
        now: i64,
    ) -> (own_done: bool)
        requires
            old(self).report.batch_quanta < usize::MAX,
            old(self).report.interactive_quanta < usize::MAX,
            old(self).interactive_in_burst < usize::MAX,
            old(self).report.completed_requests < usize::MAX,
            old(self).report.failed_requests < usize::MAX,
            old(self).report.progress_quanta < usize::MAX,
        ensures
            final(self).awaiting_own_terminal == old(self).awaiting_own_terminal,
            final(self).service_deadline == old(self).service_deadline,
            is_batch ==> final(self).report.batch_quanta == old(self).report.batch_quanta + 1
                && final(self).report.interactive_quanta == old(self).report.interactive_quanta
                && final(self).interactive_in_burst == 0 && final(self).burst_started_at == now,
            !is_batch ==> final(self).report.interactive_quanta == old(self).report.interactive_quanta + 1
                && final(self).report.batch_quanta == old(self).report.batch_quanta
                && final(self).interactive_in_burst == old(self).interactive_in_burst + 1
                && final(self).burst_started_at == old(self).burst_started_at,
            final(self).report.completed_requests == old(self).report.completed_requests + if is_done(
                state_after,
            ) {
                1int
            } else {
                0int
            },
            final(self).report.failed_requests == old(self).report.failed_requests + if state_after
                == RequestState::Failed {
                1int
            } else {
                0int
            },
            final(self).report.progress_quanta == old(self).report.progress_quanta + if state_after
                == RequestState::Queued || state_after == RequestState::Claimed {
                1int
            } else {
                0int
            },
            state_after.is_terminal() ==> final(self).backlog@ == without_id(old(self).backlog@, request_id@),
            !state_after.is_terminal() ==> final(self).backlog@ == old(self).backlog@,
            own_done == (old(self).awaiting_own_terminal && state_after.is_terminal() && match own_request_id {
                Some(id) => id@ == request_id@,
                None => false,
            }),
    {
        if is_batch {
            self.report.batch_quanta = self.report.batch_quanta + 1;
            self.interactive_in_burst = 0;
            self.burst_started_at = now;
        } else {
            self.report.interactive_quanta = self.report.interactive_quanta + 1;
            self.interactive_in_burst = self.interactive_in_burst + 1;
        }
        let terminal = match state_after {
            RequestState::Committed | RequestState::Acknowledged => {
                self.report.completed_requests = self.report.completed_requests + 1;
                true
            },
            RequestState::Failed => {
                self.report.failed_requests = self.report.failed_requests + 1;
                true
            },
            RequestState::Queued | RequestState::Claimed => {
                self.report.progress_quanta = self.report.progress_quanta + 1;
                false
            },
        };
        if terminal {
            let mut kept: Vec<String> = Vec::new();
            let mut i: usize = 0;
            let ghost before = self.backlog@;
            while i < self.backlog.len()
                invariant
                    i <= self.backlog@.len(),
                    self.backlog@ == before,
                    kept@ == without_id(before.take(i as int), request_id@),
                decreases self.backlog@.len() - i,
            {
                let keep = !str_eq(self.backlog[i].as_str(), request_id.as_str());
                if keep {
                    kept.push(self.backlog[i].clone());
                }
                proof {
                    assert(before.take(i + 1).drop_last() =~= before.take(i as int));
                }
                i = i + 1;
            }
            proof {
                assert(before.take(i as int) =~= before);
            }
            self.backlog = kept;
        }
        let own = match own_request_id {
            Some(id) => str_eq(id.as_str(), request_id.as_str()),
            None => false,
        };
        self.awaiting_own_terminal && terminal && own
    }

    /// Ends the wait for the caller's own request: the drain now serves
    /// the requests open at `now` for the policy's service window.
    pub fn begin_service_window(&mut self, pending: Vec<String>, now: i64, policy: &CoordinatorPolicy) -> (r: Result<
        (),
        CoordinatorError,
    >)
        ensures
            match r {
                Ok(()) => i64::MIN <= now + policy.service_window_ms <= i64::MAX && !final(self).awaiting_own_terminal
                    && final(self).backlog@ == pending@ && final(self).service_deadline == Some(
                    (now + policy.service_window_ms) as i64,
                ) && final(self).report == old(self).report && final(self).interactive_in_burst
                    == old(self).interactive_in_burst && final(self).burst_started_at == old(self).burst_started_at,
                Err(e) => !(i64::MIN <= now + policy.service_window_ms <= i64::MAX) && *final(self) == *old(self)
                    && (e matches CoordinatorError::InvalidTime { field, value } && field@ == "service_deadline"@
                    && value == now),
            },
    {
        let deadline = match checked_service_deadline(now, policy.service_window_ms) {
            Ok(d) => d,
            Err(e) => {
                return Err(e);
            },
        };
        self.awaiting_own_terminal = false;
        self.backlog = pending;
        self.service_deadline = Some(deadline);
        Ok(())
    }
}

impl DrainReport {
    /// A report with every count zero.
    pub open spec fn default_spec() -> DrainReport {
        DrainReport {
            completed_requests: 0,
            failed_requests: 0,
            progress_quanta: 0,
            interactive_quanta: 0,
            batch_quanta: 0,
        }
    }

    /// A report with every count zero.
    pub fn empty() -> (r: DrainReport)
        ensures
            r == DrainReport::default_spec(),
    {
        DrainReport {
            completed_requests: 0,
            failed_requests: 0,
            progress_quanta: 0,
            interactive_quanta: 0,
            batch_quanta: 0,
        }
    }
}

/// The entries of `items` whose flag is set, in order.
pub open spec fn flagged(items: Seq<String>, flags: Seq<bool>) -> Seq<String>
    decreases items.len(),
{
    if items.len() == 0 || flags.len() == 0 {
        seq![]
    } else {
        let prev = flagged(items.drop_last(), flags.drop_last());
        if flags.last() {
            prev.push(items.last())
        } else {
            prev
        }
    }
}

/// The entries of `items` other than `id`, in order.
pub open spec fn without_id(items: Seq<String>, id: Seq<char>) -> Seq<String>
    decreases items.len(),
{
    if items.len() == 0 {
        seq![]
    } else {
        let prev = without_id(items.drop_last(), id);
        if items.last()@ != id {
            prev.push(items.last())
        } else {
            prev
        }
    }
}


// ---------------------------------------------------------------------
// Stored spellings read back.

/// Law: every request kind reads back from its stored spelling.
pub proof fn lemma_request_kind_round_trip(k: RequestKind)
    ensures
        kind_of_text(kind_text(k)) == Some(k),
{
    reveal_strlit("import");
    reveal_strlit("update");
    reveal_strlit("delete");
    reveal_strlit("resolve");
    reveal_strlit("export");
    reveal_strlit("from_artifact");
    assert("import"@[0] == 'i' && "update"@[0] == 'u' && "delete"@[0] == 'd' && "export"@[0] == 'e');
    assert("resolve"@.len() == 7 && "from_artifact"@.len() == 13 && "import"@.len() == 6);
}

/// Law: every request state reads back from its stored spelling.
pub proof fn lemma_request_state_round_trip(s: RequestState)
    ensures
        state_of_text(state_text(s)) == Some(s),
{
    reveal_strlit("queued");
    reveal_strlit("claimed");
    reveal_strlit("committed");
    reveal_strlit("acknowledged");
    reveal_strlit("failed");
    assert("queued"@[0] == 'q' && "failed"@[0] == 'f');
    assert("queued"@.len() == 6 && "claimed"@.len() == 7 && "committed"@.len() == 9);
    assert("acknowledged"@.len() == 12 && "failed"@.len() == 6);
}

} // verus!

//! The decisions of one maintenance run, between its reads and writes:
//! whether it may take the store (intent and writer lease), whether its
//! plan still binds, which garbage-collection steps it applies and how they
//! count, how it checks base files, how it steps the vacuum, which log
//! sequence is safe to prune below, and what the physical retention
//! outcome is.

use vstd::prelude::*;

use crate::num::{clamp_i64, saturating_add_u64, saturating_sub_i64};
use crate::store::maintenance::{
    AllocatorMark, CapacityPlan, DemotionCandidate, MaintenanceAction, MaintenanceApplyPolicy,
    MaintenanceApplyReport, MaintenanceError, MaintenancePlan, MaintenanceRun, PlanBinding,
    RetentionPlan, VersionDecision, run_ok, validate_run,
};
use crate::text::{
    chars_eq, chars_of, find_char, first_index, lemma_first_index_facts, lemma_split_nonempty,
    pieces_match, split_chars, split_spec, i64_text, int_text, nat_text, owned, parse_u32, parse_u32_spec, push_chars, push_str,
    str_eq, u64_text,
};

verus! {

/// The apply policy is usable: a non-negative request safety period, and
/// positive receipt and vacuum limits.
pub fn validate_apply_policy(policy: &MaintenanceApplyPolicy) -> (r: Result<(), MaintenanceError>)
    ensures
        r is Ok <==> (policy.request_safety_ms >= 0 && policy.receipt_limit > 0
            && policy.incremental_vacuum_pages > 0),
        r matches Err(e) ==> (e matches MaintenanceError::InvalidPolicy { field } && field@
            == "maintenance_apply_policy"@),
{
    proof {
        reveal_strlit("maintenance_apply_policy");
    }
    if policy.request_safety_ms < 0 || policy.receipt_limit == 0 || policy.incremental_vacuum_pages == 0 {
        return Err(MaintenanceError::InvalidPolicy { field: "maintenance_apply_policy" });
    }
    Ok(())
}

// ---------------------------------------------------------------------
// Taking the store.

/// Whether the plan says the action fits: garbage collection and repair
/// need the collection space, promotion and rollback the promotion space.
pub open spec fn plan_fits(capacity: CapacityPlan, action: MaintenanceAction) -> bool {
    match action {
        MaintenanceAction::Gc | MaintenanceAction::Repair => capacity.gc_fits,
        MaintenanceAction::Promote | MaintenanceAction::Rollback => capacity.promotion_fits,
    }
}

/// The checks an acquisition makes before it reads anything: the run is
/// well formed, and the plan says the action fits.
pub fn check_acquisition(run: &MaintenanceRun, plan: &MaintenancePlan, action: MaintenanceAction) -> (r:
    Result<(), MaintenanceError>)
    ensures
        r is Ok <==> (run_ok(*run) && plan_fits(plan.capacity, action)),
        !run_ok(*run) ==> (r matches Err(MaintenanceError::InvalidMetadata { field, value }) && field@
            == "maintenance_run"@ && value@ == run.run_id@),
        run_ok(*run) && !plan_fits(plan.capacity, action) ==> (r matches Err(
            MaintenanceError::CapacityInsufficient,
        )),
{
    match validate_run(run) {
        Ok(()) => {},
        Err(e) => {
            return Err(e);
        },
    }
    let fits = match action {
        MaintenanceAction::Gc | MaintenanceAction::Repair => plan.capacity.gc_fits,
        MaintenanceAction::Promote | MaintenanceAction::Rollback => plan.capacity.promotion_fits,
    };
    if !fits {
        return Err(MaintenanceError::CapacityInsufficient);
    }
    Ok(())
}

/// The maintenance intent the coordinator holds when a run tries to take
/// the store.
#[derive(Debug, Clone, PartialEq, Eq)]
pub struct ActiveIntent {
    pub run_id: String,
    pub owner_id: String,
    pub owner_pid: i64,
    pub expires_at: i64,
    pub source_min_writer_version: String,
}

/// What a granted acquisition writes: the expiry of the intent and lease,
/// the fencing token, the writer floor to restore afterwards, and whether
/// every old intent is cleared (its owner died) or only expired ones.
#[derive(Debug, Clone, PartialEq, Eq)]
pub struct MaintenanceGrant {
    pub expires_at: i64,
    pub fencing_token: i64,
    pub source_min_writer_version: String,
    pub clear_all_intents: bool,
}

/// The active intent belongs to another live run that has not expired.
pub open spec fn intent_busy(run: MaintenanceRun, i: ActiveIntent, owner_dead: bool, wall_now: i64) -> bool {
    &&& i.expires_at > wall_now
    &&& (i.run_id@ != run.run_id@ || i.owner_id@ != run.owner_id@ || i.owner_pid != run.owner_pid as i64)
    &&& !owner_dead
}

/// Decides whether a run takes the store at `wall_now`, given the intent
/// the coordinator holds (and whether its owner is dead), whether a live
/// writer lease or a claimed request exists, and the store's writer floor.
/// The expiry and the token (at least one) are computed first and fail on
/// overflow; then a busy intent, lease or claim refuses the run.
pub fn maintenance_grant(
    run: &MaintenanceRun,
    wall_now: i64,
    active: Option<&ActiveIntent>,
    active_owner_dead: bool,
    writer_lease_live: bool,
    request_claimed: bool,
    store_min_writer_version: &str,
) -> (r: Result<MaintenanceGrant, MaintenanceError>)
    ensures
        wall_now + run.lease_duration_ms > i64::MAX || wall_now + run.lease_duration_ms < i64::MIN
            ==> (r matches Err(MaintenanceError::InvalidMetadata { field, value }) && field@
            == "maintenance_expiry"@ && value@ == "overflow"@),
        i64::MIN <= wall_now + run.lease_duration_ms <= i64::MAX && wall_now + run.owner_pid > i64::MAX
            ==> (r matches Err(MaintenanceError::InvalidMetadata { field, value }) && field@
            == "maintenance_fencing_token"@ && value@ == "overflow"@),
        i64::MIN <= wall_now + run.lease_duration_ms <= i64::MAX && wall_now + run.owner_pid <= i64::MAX
            ==> {
            let busy = match active {
                Some(i) => intent_busy(*run, *i, active_owner_dead, wall_now),
                None => false,
            } || writer_lease_live || request_claimed;
            if busy {
                r matches Err(MaintenanceError::MaintenanceBusy)
            } else {
                r matches Ok(g) && g.expires_at == wall_now + run.lease_duration_ms && g.fencing_token
                    == (if wall_now + run.owner_pid >= 1 {
                    wall_now + run.owner_pid
                } else {
                    1
                }) && g.source_min_writer_version@ == match active {
                    Some(i) => i.source_min_writer_version@,
                    None => store_min_writer_version@,
                } && g.clear_all_intents == (active is Some && active_owner_dead)
            }
        },
{
    proof {
        reveal_strlit("maintenance_expiry");
        reveal_strlit("maintenance_fencing_token");
        reveal_strlit("overflow");
    }
    let expires_at = match wall_now.checked_add(run.lease_duration_ms) {
        Some(v) => v,
        None => {
            return Err(
                MaintenanceError::InvalidMetadata { field: "maintenance_expiry", value: owned("overflow") },
            )
        },
    };
    let fencing_token = match wall_now.checked_add(run.owner_pid as i64) {
        Some(v) => if v >= 1 {
            v
        } else {
            1
        },
        None => {
            return Err(
                MaintenanceError::InvalidMetadata {
                    field: "maintenance_fencing_token",
                    value: owned("overflow"),
                },
            )
        },
    };
    let source_min_writer_version = match active {
        Some(i) => owned(i.source_min_writer_version.as_str()),
        None => owned(store_min_writer_version),
    };
    let intent_in_the_way = match active {
        Some(i) => i.expires_at > wall_now && (!str_eq(i.run_id.as_str(), run.run_id.as_str())
            || !str_eq(i.owner_id.as_str(), run.owner_id.as_str()) || i.owner_pid
            != run.owner_pid as i64) && !active_owner_dead,
        None => false,
    };
    if intent_in_the_way || writer_lease_live || request_claimed {
        return Err(MaintenanceError::MaintenanceBusy);
    }
    Ok(
        MaintenanceGrant {
            expires_at,
            fencing_token,
            source_min_writer_version,
            clear_all_intents: active.is_some() && active_owner_dead,
        },
    )
}

/// Whether a run that builds a generation may take the writer lease back
/// to publish it: it must still own its intent, and no claim or live lease
/// may stand in the way.
pub fn check_publish_reacquire(owns_intent: bool, request_claimed: bool, writer_lease_live: bool) -> (r:
    Result<(), MaintenanceError>)
    ensures
        r is Ok <==> (owns_intent && !request_claimed && !writer_lease_live),
        r is Err ==> (r matches Err(MaintenanceError::MaintenanceBusy)),
{
    if !owns_intent || request_claimed || writer_lease_live {
        return Err(MaintenanceError::MaintenanceBusy);
    }
    Ok(())
}

/// A fenced update or delete touched exactly the one row it owns;
/// otherwise the fence is lost.
pub fn check_fenced_row(changed: usize) -> (r: Result<(), MaintenanceError>)
    ensures
        r is Ok <==> changed == 1,
        r is Err ==> (r matches Err(MaintenanceError::MaintenanceFenceLost)),
{
    if changed != 1 {
        return Err(MaintenanceError::MaintenanceFenceLost);
    }
    Ok(())
}

/// Finishing a run must clear exactly its intent, and at most its lease
/// (which a generation build may already have released).
pub fn check_finish(intent_deleted: usize, lease_deleted: usize) -> (r: Result<(), MaintenanceError>)
    ensures
        r is Ok <==> (intent_deleted == 1 && lease_deleted <= 1),
        r is Err ==> (r matches Err(MaintenanceError::MaintenanceFenceLost)),
{
    if intent_deleted != 1 || lease_deleted > 1 {
        return Err(MaintenanceError::MaintenanceFenceLost);
    }
    Ok(())
}

// ---------------------------------------------------------------------
// Plan bindings.

/// How much of a binding a revalidation compares: all of it; all but the
/// store root fingerprint (after the store's own changes); or only the
/// family, generation and watermarks (before a generation publish).
#[derive(Debug, Clone, Copy, PartialEq, Eq, Structural)]
pub enum BindingScope {
    Full,
    Coordinator,
    Publish,
}

/// The marks are the same, field by field.
pub open spec fn same_marks(a: Seq<AllocatorMark>, b: Seq<AllocatorMark>) -> bool {
    a.len() == b.len() && forall|i: int|
        0 <= i < a.len() ==> {
            &&& (#[trigger] a[i]).kind@ == b[i].kind@
            &&& a[i].scope_id@ == b[i].scope_id@
            &&& a[i].high_water == b[i].high_water
        }
}

/// The observed binding agrees with the planned one within the scope.
pub open spec fn binding_agrees(expected: PlanBinding, actual: PlanBinding, scope: BindingScope) -> bool {
    &&& actual.family_id@ == expected.family_id@
    &&& actual.current_generation@ == expected.current_generation@
    &&& actual.store_log_max == expected.store_log_max
    &&& actual.request_watermark == expected.request_watermark
    &&& (scope != BindingScope::Publish ==> {
        &&& actual.coordinator_root_fingerprint@ == expected.coordinator_root_fingerprint@
        &&& same_marks(actual.allocator_marks@, expected.allocator_marks@)
    })
    &&& (scope == BindingScope::Full ==> actual.store_root_fingerprint@
        == expected.store_root_fingerprint@)
}

fn marks_equal(a: &Vec<AllocatorMark>, b: &Vec<AllocatorMark>) -> (r: bool)
    ensures
        r == same_marks(a@, b@),
{
    if a.len() != b.len() {
        return false;
    }
    let mut i: usize = 0;
    while i < a.len()
        invariant
            i <= a@.len(),
            a@.len() == b@.len(),
            forall|k: int|
                0 <= k < i ==> {
                    &&& (#[trigger] a@[k]).kind@ == b@[k].kind@
                    &&& a@[k].scope_id@ == b@[k].scope_id@
                    &&& a@[k].high_water == b@[k].high_water
                },
        decreases a@.len() - i,
    {
        if !(str_eq(a[i].kind.as_str(), b[i].kind.as_str()) && str_eq(
            a[i].scope_id.as_str(),
            b[i].scope_id.as_str(),
        ) && a[i].high_water == b[i].high_water) {
            return false;
        }
        i = i + 1;
    }
    true
}

/// A plan still binds when the observed binding agrees with it within the
/// scope; otherwise it is stale.
pub fn check_binding(expected: &PlanBinding, actual: &PlanBinding, scope: BindingScope) -> (r: Result<
    (),
    MaintenanceError,
>)
    ensures
        r is Ok <==> binding_agrees(*expected, *actual, scope),
        r is Err ==> (r matches Err(MaintenanceError::StalePlan)),
{
    let core = str_eq(actual.family_id.as_str(), expected.family_id.as_str()) && str_eq(
        actual.current_generation.as_str(),
        expected.current_generation.as_str(),
    ) && actual.store_log_max == expected.store_log_max && actual.request_watermark
        == expected.request_watermark;
    let coordinator = match scope {
        BindingScope::Publish => true,
        _ => str_eq(
            actual.coordinator_root_fingerprint.as_str(),
            expected.coordinator_root_fingerprint.as_str(),
        ) && marks_equal(&actual.allocator_marks, &expected.allocator_marks),
    };
    let store = match scope {
        BindingScope::Full => str_eq(
            actual.store_root_fingerprint.as_str(),
            expected.store_root_fingerprint.as_str(),
        ),
        _ => true,
    };
    if core && coordinator && store {
        Ok(())
    } else {
        Err(MaintenanceError::StalePlan)
    }
}

// ---------------------------------------------------------------------
// Garbage-collection steps.

/// One garbage-collection step on one version.
#[derive(Debug, Clone, Copy, PartialEq, Eq, Structural)]
pub enum GcStep {
    /// Drop the version's level-3 rows.
    DemoteL3(i64),
    /// Drop the version's level-2 (and level-3) rows.
    DemoteL2(i64),
    /// Nothing to drop; the version only advances the cursor.
    Pass(i64),
    /// Delete the unprotected version outright.
    Purge(i64),
}

/// The steps for the first `n` demotion candidates past the cursor.
pub open spec fn demotion_steps(cohort: Seq<DemotionCandidate>, n: int, cursor: i64) -> Seq<GcStep>
    decreases n,
{
    if n <= 0 || n > cohort.len() {
        seq![]
    } else {
        let before = demotion_steps(cohort, n - 1, cursor);
        let c = cohort[n - 1];
        if c.version_id <= cursor {
            before
        } else if c.drop_l3 {
            before.push(GcStep::DemoteL3(c.version_id))
        } else if c.drop_l2 {
            before.push(GcStep::DemoteL2(c.version_id))
        } else {
            before.push(GcStep::Pass(c.version_id))
        }
    }
}

/// The decision protects nothing at any level.
pub open spec fn unprotected(d: VersionDecision) -> bool {
    d.l1_reasons@.len() == 0 && d.l2_reasons@.len() == 0 && d.l3_reasons@.len() == 0
}

/// The purges for the first `n` decisions past the cursor.
pub open spec fn purge_steps(versions: Seq<VersionDecision>, n: int, cursor: i64) -> Seq<GcStep>
    decreases n,
{
    if n <= 0 || n > versions.len() {
        seq![]
    } else {
        let before = purge_steps(versions, n - 1, cursor);
        let d = versions[n - 1];
        if d.version_id > cursor && unprotected(d) {
            before.push(GcStep::Purge(d.version_id))
        } else {
            before
        }
    }
}

/// The steps a run applies: the demotion cohort when there is one,
/// otherwise the purge of every unprotected version; in both cases only
/// past the durable cursor of an earlier run of the same plan.
pub open spec fn gc_plan(plan: MaintenancePlan, cursor: i64) -> Seq<GcStep> {
    if plan.demotion_cohort@.len() > 0 {
        demotion_steps(plan.demotion_cohort@, plan.demotion_cohort@.len() as int, cursor)
    } else {
        purge_steps(plan.versions@, plan.versions@.len() as int, cursor)
    }
}

/// The version a step acts on.
pub open spec fn step_version(step: GcStep) -> i64 {
    match step {
        GcStep::DemoteL3(id) => id,
        GcStep::DemoteL2(id) => id,
        GcStep::Pass(id) => id,
        GcStep::Purge(id) => id,
    }
}

proof fn lemma_purge_steps(versions: Seq<VersionDecision>, n: int, cursor: i64)
    requires
        0 <= n <= versions.len(),
    ensures
        forall|k: int|
            0 <= k < purge_steps(versions, n, cursor).len() ==> {
                let step = #[trigger] purge_steps(versions, n, cursor)[k];
                &&& step is Purge
                &&& step_version(step) > cursor
                &&& exists|i: int|
                    0 <= i < n && versions[i].version_id == step_version(step) && unprotected(#[trigger] versions[i])
            },
    decreases n,
{
    if n > 0 {
        lemma_purge_steps(versions, n - 1, cursor);
        let before = purge_steps(versions, n - 1, cursor);
        let after = purge_steps(versions, n, cursor);
        assert forall|k: int| 0 <= k < after.len() implies {
            let step = #[trigger] after[k];
            &&& step is Purge
            &&& step_version(step) > cursor
            &&& exists|i: int|
                0 <= i < n && versions[i].version_id == step_version(step) && unprotected(#[trigger] versions[i])
        } by {
            if k < before.len() {
                assert(after[k] == before[k]);
                let i = choose|i: int|
                    0 <= i < n - 1 && versions[i].version_id == step_version(before[k]) && unprotected(
                        #[trigger] versions[i],
                    );
                assert(0 <= i < n && versions[i].version_id == step_version(after[k]) && unprotected(versions[i]));
            } else {
                assert(after[k] == GcStep::Purge(versions[n - 1].version_id));
                assert(unprotected(versions[n - 1]));
            }
        }
    }
}

proof fn lemma_demotion_steps(cohort: Seq<DemotionCandidate>, n: int, cursor: i64)
    requires
        0 <= n <= cohort.len(),
    ensures
        forall|k: int|
            0 <= k < demotion_steps(cohort, n, cursor).len() ==> step_version(
                #[trigger] demotion_steps(cohort, n, cursor)[k],
            ) > cursor && !(demotion_steps(cohort, n, cursor)[k] is Purge),
    decreases n,
{
    if n > 0 {
        lemma_demotion_steps(cohort, n - 1, cursor);
        let before = demotion_steps(cohort, n - 1, cursor);
        let after = demotion_steps(cohort, n, cursor);
        assert forall|k: int| 0 <= k < after.len() implies step_version(#[trigger] after[k]) > cursor
            && !(after[k] is Purge) by {
            if k < before.len() {
                assert(after[k] == before[k]);
            }
        }
    }
}

/// Law: a collection acts only on versions past the durable cursor of an
/// earlier run of the same plan, and deletes only versions its plan
/// protects at no level; with a demotion cohort it deletes nothing.
pub proof fn lemma_gc_respects_protection(plan: MaintenancePlan, cursor: i64, k: int)
    requires
        0 <= k < gc_plan(plan, cursor).len(),
    ensures
        step_version(gc_plan(plan, cursor)[k]) > cursor,
        gc_plan(plan, cursor)[k] is Purge ==> plan.demotion_cohort@.len() == 0 && exists|i: int|
            0 <= i < plan.versions@.len() && plan.versions@[i].version_id == step_version(gc_plan(plan, cursor)[k])
                && unprotected(#[trigger] plan.versions@[i]),
{
    if plan.demotion_cohort@.len() > 0 {
        lemma_demotion_steps(plan.demotion_cohort@, plan.demotion_cohort@.len() as int, cursor);
        assert(step_version(demotion_steps(plan.demotion_cohort@, plan.demotion_cohort@.len() as int, cursor)[k]) > cursor);
    } else {
        lemma_purge_steps(plan.versions@, plan.versions@.len() as int, cursor);
        let step = purge_steps(plan.versions@, plan.versions@.len() as int, cursor)[k];
        assert(step is Purge && step_version(step) > cursor);
    }
}

/// The garbage-collection steps of `plan` past `durable_cursor`.
pub fn gc_steps(plan: &MaintenancePlan, durable_cursor: i64) -> (r: Vec<GcStep>)
    ensures
        r@ == gc_plan(*plan, durable_cursor),
{
    let mut out: Vec<GcStep> = Vec::new();
    if plan.demotion_cohort.len() > 0 {
        let mut i: usize = 0;
        while i < plan.demotion_cohort.len()
            invariant
                i <= plan.demotion_cohort@.len(),
                out@ == demotion_steps(plan.demotion_cohort@, i as int, durable_cursor),
            decreases plan.demotion_cohort@.len() - i,
        {
            let c = plan.demotion_cohort[i];
            if c.version_id > durable_cursor {
                if c.drop_l3 {
                    out.push(GcStep::DemoteL3(c.version_id));
                } else if c.drop_l2 {
                    out.push(GcStep::DemoteL2(c.version_id));
                } else {
                    out.push(GcStep::Pass(c.version_id));
                }
            }
            i = i + 1;
        }
    } else {
        let mut i: usize = 0;
        while i < plan.versions.len()
            invariant
                i <= plan.versions@.len(),
                out@ == purge_steps(plan.versions@, i as int, durable_cursor),
            decreases plan.versions@.len() - i,
        {
            let d = &plan.versions[i];
            if d.version_id > durable_cursor && d.l1_reasons.len() == 0 && d.l2_reasons.len() == 0
                && d.l3_reasons.len() == 0 {
                out.push(GcStep::Purge(d.version_id));
            }
            i = i + 1;
        }
    }
    out
}

/// The report is `before` with only the given counters and cursor
/// changed.
pub open spec fn report_counts_only(
    before: MaintenanceApplyReport,
    after: MaintenanceApplyReport,
) -> bool {
    &&& after.removed_manifests == before.removed_manifests
    &&& after.removed_deltas == before.removed_deltas
    &&& after.removed_bases == before.removed_bases
    &&& after.removed_base_files == before.removed_base_files
    &&& after.removed_pins == before.removed_pins
    &&& after.removed_scratch_files == before.removed_scratch_files
    &&& after.archived_requests == before.archived_requests
    &&& after.pruned_log_rows == before.pruned_log_rows
    &&& after.checkpoint_order == before.checkpoint_order
    &&& after.physical_bytes_after == before.physical_bytes_after
    &&& after.physical_breach_streak == before.physical_breach_streak
    &&& after.compaction_required == before.compaction_required
}

/// What recording `step` with `changed` rows does to the counters and
/// the cursor.
pub open spec fn gc_recorded(
    before: MaintenanceApplyReport,
    after: MaintenanceApplyReport,
    step: GcStep,
    changed: usize,
) -> bool {
    let l3 = if step is DemoteL3 { before.demoted_l3 + changed } else { before.demoted_l3 as int };
    let l2 = if step is DemoteL2 { before.demoted_l2 + changed } else { before.demoted_l2 as int };
    let purged = if step is Purge {
        before.purged_versions + changed
    } else {
        before.purged_versions as int
    };
    let cursor = match step {
        GcStep::DemoteL3(id) => Some(id),
        GcStep::DemoteL2(id) => Some(id),
        GcStep::Pass(id) => Some(id),
        GcStep::Purge(id) => if changed == 1 {
            Some(id)
        } else {
            before.last_version_cursor
        },
    };
    &&& after.demoted_l3 == l3
    &&& after.demoted_l2 == l2
    &&& after.purged_versions == purged
    &&& after.last_version_cursor == cursor
}

/// Records an applied step that changed `changed` rows: demotions count
/// and always move the cursor; a purge counts and moves the cursor only
/// when it deleted its version.
pub fn record_gc_step(report: &mut MaintenanceApplyReport, step: GcStep, changed: usize)
    requires
        old(report).demoted_l3 + changed <= usize::MAX,
        old(report).demoted_l2 + changed <= usize::MAX,
        old(report).purged_versions + changed <= usize::MAX,
    ensures
        report_counts_only(*old(report), *final(report)),
        gc_recorded(*old(report), *final(report), step, changed),
{
    match step {
        GcStep::DemoteL3(id) => {
            report.demoted_l3 = report.demoted_l3 + changed;
            report.last_version_cursor = Some(id);
        },
        GcStep::DemoteL2(id) => {
            report.demoted_l2 = report.demoted_l2 + changed;
            report.last_version_cursor = Some(id);
        },
        GcStep::Pass(id) => {
            report.last_version_cursor = Some(id);
        },
        GcStep::Purge(id) => {
            report.purged_versions = report.purged_versions + changed;
            if changed == 1 {
                report.last_version_cursor = Some(id);
            }
        },
    }
}

// ---------------------------------------------------------------------
// Base files.

/// A base file's size must match its record: a negative recorded size is
/// invalid metadata (reported with the number), a different size names
/// the base.
pub fn check_base_bytes(base_id: &str, recorded_bytes: i64, actual_bytes: u64) -> (r: Result<
    (),
    MaintenanceError,
>)
    ensures
        recorded_bytes < 0 ==> (r matches Err(MaintenanceError::InvalidMetadata { field, value }) && field@
            == "resolution_base_bytes"@ && value@ == int_text(recorded_bytes as int)),
        recorded_bytes >= 0 && actual_bytes != recorded_bytes ==> (r matches Err(
            MaintenanceError::InvalidMetadata { field, value },
        ) && field@ == "resolution_base_bytes"@ && value@ == base_id@),
        r is Ok <==> (recorded_bytes >= 0 && actual_bytes == recorded_bytes),
{
    proof {
        reveal_strlit("resolution_base_bytes");
    }
    if recorded_bytes < 0 {
        let digits = i64_text(recorded_bytes);
        let mut value = String::new();
        push_chars(&mut value, digits.as_slice());
        return Err(MaintenanceError::InvalidMetadata { field: "resolution_base_bytes", value });
    }
    if actual_bytes != recorded_bytes as u64 {
        return Err(MaintenanceError::InvalidMetadata { field: "resolution_base_bytes", value: owned(base_id) });
    }
    Ok(())
}

/// A base file's digest must match its record.
pub fn check_base_digest(base_id: &str, recorded_sha256: &str, actual_sha256: &str) -> (r: Result<
    (),
    MaintenanceError,
>)
    ensures
        r is Ok <==> actual_sha256@ == recorded_sha256@,
        r is Err ==> (r matches Err(MaintenanceError::InvalidMetadata { field, value }) && field@
            == "resolution_base_sha256"@ && value@ == base_id@),
{
    proof {
        reveal_strlit("resolution_base_sha256");
    }
    if !str_eq(actual_sha256, recorded_sha256) {
        return Err(MaintenanceError::InvalidMetadata { field: "resolution_base_sha256", value: owned(base_id) });
    }
    Ok(())
}

/// Whether a recorded base path is a plain relative path inside `bases`:
/// it holds no NUL and no `:`, does not start at the root, its first
/// component is `bases`, and no later component is `..` (empty and `.`
/// components are passed over, as path components are).
pub open spec fn base_path_ok(p: Seq<char>) -> bool {
    let pieces = split_spec(p, '/');
    &&& !p.contains('\0')
    &&& !p.contains(':')
    &&& !(p.len() > 0 && p[0] == '/')
    &&& pieces[0] == "bases"@
    &&& forall|k: int| 1 <= k < pieces.len() ==> #[trigger] pieces[k] != ".."@
}

/// The text checks on a recorded base path, before the file it names is
/// looked at: the path is invalid metadata unless `base_path_ok` holds.
pub fn check_base_path(relative_path: &str) -> (r: Result<(), MaintenanceError>)
    ensures
        r is Ok <==> base_path_ok(relative_path@),
        r is Err ==> (r matches Err(MaintenanceError::InvalidMetadata { field, value }) && field@
            == "resolution_base_path"@ && value@ == relative_path@),
{
    let chars = chars_of(relative_path);
    let nul = find_char(chars.as_slice(), '\0');
    let colon = find_char(chars.as_slice(), ':');
    proof {
        lemma_first_index_facts(chars@, '\0');
        lemma_first_index_facts(chars@, ':');
        lemma_split_nonempty(chars@, '/');
        reveal_strlit("bases");
        reveal_strlit("..");
    }
    let invalid = MaintenanceError::InvalidMetadata {
        field: "resolution_base_path",
        value: owned(relative_path),
    };
    if nul.is_some() || colon.is_some() {
        proof {
            if let Some(j) = first_index(chars@, '\0') {
                assert(chars@[j] == '\0');
            }
            if let Some(j) = first_index(chars@, ':') {
                assert(chars@[j] == ':');
            }
        }
        return Err(invalid);
    }
    if chars.len() > 0 && chars[0] == '/' {
        return Err(invalid);
    }
    let pieces = split_chars(chars.as_slice(), '/');
    let bases = chars_of("bases");
    if !chars_eq(pieces[0].as_slice(), bases.as_slice()) {
        return Err(invalid);
    }
    let parent = chars_of("..");
    let mut k: usize = 1;
    while k < pieces.len()
        invariant
            1 <= k <= pieces@.len(),
            pieces_match(pieces@, split_spec(chars@, '/')),
            parent@ == ".."@,
            chars@ == relative_path@,
            invalid matches MaintenanceError::InvalidMetadata { field, value } && field@
                == "resolution_base_path"@ && value@ == relative_path@,
            forall|j: int| 1 <= j < k ==> #[trigger] split_spec(chars@, '/')[j] != ".."@,
        decreases pieces@.len() - k,
    {
        if chars_eq(pieces[k].as_slice(), parent.as_slice()) {
            assert(pieces@[k as int]@ == split_spec(chars@, '/')[k as int]);
            return Err(invalid);
        }
        assert(pieces@[k as int]@ == split_spec(chars@, '/')[k as int]);
        k = k + 1;
    }
    Ok(())
}

// ---------------------------------------------------------------------
// Vacuum and log pruning.

/// How many free pages the next vacuum step asks for, with `done` of the
/// `budget` already freed and `freelist` pages free; none when nothing is
/// free or the budget is spent.
pub fn vacuum_request(done: u64, budget: u64, freelist: u64) -> (r: Option<u64>)
    ensures
        (freelist == 0 || done >= budget) ==> r is None,
        !(freelist == 0 || done >= budget) ==> r == Some(
            if freelist < budget - done {
                freelist
            } else {
                (budget - done) as u64
            },
        ),
{
    if freelist == 0 || done >= budget {
        return None;
    }
    let left = budget - done;
    Some(if freelist < left { freelist } else { left })
}

/// The text of a vacuum step that freed nothing.
pub open spec fn stuck_vacuum_text(before: u64) -> Seq<char> {
    "freelist did not decrease from "@ + nat_text(before as nat)
}

/// The pages freed so far after a step took the free list from `before`
/// to `after` pages; a step that did not shrink it is invalid.
pub fn vacuum_progress(done: u64, before: u64, after: u64) -> (r: Result<u64, MaintenanceError>)
    ensures
        after >= before ==> (r matches Err(MaintenanceError::InvalidMetadata { field, value }) && field@
            == "incremental_vacuum"@ && value@ == stuck_vacuum_text(before)),
        after < before ==> r == Ok::<u64, MaintenanceError>(
            if done + (before - after) > u64::MAX {
                u64::MAX
            } else {
                (done + (before - after)) as u64
            },
        ),
{
    proof {
        reveal_strlit("incremental_vacuum");
        reveal_strlit("freelist did not decrease from ");
    }
    if after >= before {
        let mut value = String::new();
        push_str(&mut value, "freelist did not decrease from ");
        let digits = u64_text(before);
        push_chars(&mut value, digits.as_slice());
        return Err(MaintenanceError::InvalidMetadata { field: "incremental_vacuum", value });
    }
    Ok(saturating_add_u64(done, before - after))
}

/// The moment before which completed requests may be archived: the run's
/// clock less the safety period, saturating.
pub fn requests_completed_before(run: &MaintenanceRun, policy: &MaintenanceApplyPolicy) -> (r: i64)
    ensures
        r == clamp_i64(run.now_ms - policy.request_safety_ms),
{
    saturating_sub_i64(run.now_ms, policy.request_safety_ms)
}

/// A consumer cursor as the coordinator lists it.
#[derive(Debug, Clone, PartialEq, Eq)]
pub struct CursorPosition {
    pub consumer_id: String,
    pub store_log_sequence: i64,
}

/// The highest sequence the log has allocated: the allocator's mark (zero
/// when absent) or the plan's observed maximum, whichever is larger.
pub open spec fn log_high_water(allocator: Option<i64>, store_log_max: i64) -> i64 {
    let a = match allocator {
        Some(v) => v,
        None => 0,
    };
    if a > store_log_max { a } else { store_log_max }
}

/// The lowest of the high water and the first `n` cursor sequences.
pub open spec fn lowest_cursor(cursors: Seq<CursorPosition>, n: int, high: i64) -> i64
    decreases n,
{
    if n <= 0 || n > cursors.len() {
        high
    } else {
        let rest = lowest_cursor(cursors, n - 1, high);
        let s = cursors[n - 1].store_log_sequence;
        if s < rest { s } else { rest }
    }
}

/// The index of the first cursor from `i` on outside `0..=high`.
pub open spec fn first_bad_cursor(cursors: Seq<CursorPosition>, i: int, high: i64) -> Option<int>
    decreases cursors.len() - i,
{
    if i < 0 || i >= cursors.len() {
        None
    } else if cursors[i].store_log_sequence < 0 || cursors[i].store_log_sequence > high {
        Some(i)
    } else {
        first_bad_cursor(cursors, i + 1, high)
    }
}

/// The text that reports a cursor outside the log.
pub open spec fn bad_cursor_text(c: CursorPosition, high: i64) -> Seq<char> {
    c.consumer_id@ + ":"@ + int_text(c.store_log_sequence as int) + ":"@ + int_text(high as int)
}

proof fn lemma_first_bad_cursor_skip(cursors: Seq<CursorPosition>, i: int, j: int, high: i64)
    requires
        0 <= i <= j <= cursors.len(),
        forall|k: int|
            i <= k < j ==> 0 <= (#[trigger] cursors[k]).store_log_sequence <= high,
    ensures
        first_bad_cursor(cursors, i, high) == first_bad_cursor(cursors, j, high),
    decreases j - i,
{
    if i < j {
        lemma_first_bad_cursor_skip(cursors, i + 1, j, high);
    }
}

/// The log sequence below which the log may be pruned, and the high
/// water: the lowest consumer cursor, capped by the high water. A cursor
/// outside `0..=high` is invalid metadata naming it.
pub fn safe_log_sequence(
    allocator_high_water: Option<i64>,
    store_log_max: i64,
    cursors: &Vec<CursorPosition>,
) -> (r: Result<(i64, i64), MaintenanceError>)
    ensures
        ({
            let high = log_high_water(allocator_high_water, store_log_max);
            match first_bad_cursor(cursors@, 0, high) {
                Some(i) => r matches Err(MaintenanceError::InvalidMetadata { field, value }) && field@
                    == "consumer_cursor"@ && value@ == bad_cursor_text(cursors@[i], high),
                None => r == Ok::<(i64, i64), MaintenanceError>(
                    (lowest_cursor(cursors@, cursors@.len() as int, high), high),
                ),
            }
        }),
{
    proof {
        reveal_strlit("consumer_cursor");
        reveal_strlit(":");
    }
    let allocator = match allocator_high_water {
        Some(v) => v,
        None => 0,
    };
    let high = if allocator > store_log_max { allocator } else { store_log_max };
    let mut safe = high;
    let mut i: usize = 0;
    while i < cursors.len()
        invariant
            i <= cursors@.len(),
            high == log_high_water(allocator_high_water, store_log_max),
            safe == lowest_cursor(cursors@, i as int, high),
            forall|k: int| 0 <= k < i ==> 0 <= (#[trigger] cursors@[k]).store_log_sequence <= high,
        decreases cursors@.len() - i,
    {
        let c = &cursors[i];
        if c.store_log_sequence < 0 || c.store_log_sequence > high {
            proof {
                lemma_first_bad_cursor_skip(cursors@, 0, i as int, high);
            }
            let mut value = owned(c.consumer_id.as_str());
            push_str(&mut value, ":");
            let sequence = i64_text(c.store_log_sequence);
            push_chars(&mut value, sequence.as_slice());
            push_str(&mut value, ":");
            let top = i64_text(high);
            push_chars(&mut value, top.as_slice());
            return Err(MaintenanceError::InvalidMetadata { field: "consumer_cursor", value });
        }
        if c.store_log_sequence < safe {
            safe = c.store_log_sequence;
        }
        i = i + 1;
    }
    proof {
        lemma_first_bad_cursor_skip(cursors@, 0, cursors@.len() as int, high);
    }
    Ok((safe, high))
}

// ---------------------------------------------------------------------
// Physical retention.

/// The breach streak a store recorded: none is zero; otherwise it must be
/// an unsigned 32-bit decimal.
pub fn parse_breach_streak(stored: Option<&str>) -> (r: Result<u32, MaintenanceError>)
    ensures
        match stored {
            None => r == Ok::<u32, MaintenanceError>(0),
            Some(t) => match parse_u32_spec(t@) {
                Some(v) => r == Ok::<u32, MaintenanceError>(v),
                None => r matches Err(MaintenanceError::InvalidMetadata { field, value }) && field@
                    == "retention_physical_breach_streak"@ && value@ == t@,
            },
        },
{
    proof {
        reveal_strlit("retention_physical_breach_streak");
    }
    match stored {
        None => Ok(0),
        Some(t) => {
            let cs = chars_of(t);
            match parse_u32(cs.as_slice()) {
                Some(v) => Ok(v),
                None => Err(
                    MaintenanceError::InvalidMetadata {
                        field: "retention_physical_breach_streak",
                        value: owned(t),
                    },
                ),
            }
        },
    }
}

/// Records the physical outcome of a run that left the store at
/// `physical_bytes_after`: the target and ceiling breaches, the breach
/// streak (one more than before when the target is breached, saturating;
/// otherwise zero), whether compaction is now required (the streak reached
/// the plan's limit), and the plan's physical figures.
pub fn record_physical_outcome(
    report: &mut MaintenanceApplyReport,
    retention: &RetentionPlan,
    physical_bytes_after: u64,
    previous_streak: u32,
)
    ensures
        final(report).physical_target_breached == (physical_bytes_after > retention.physical_target_bytes),
        final(report).physical_ceiling_breached == (physical_bytes_after
            > retention.physical_ceiling_bytes),
        final(report).physical_breach_streak == if physical_bytes_after
            > retention.physical_target_bytes {
            if previous_streak == u32::MAX {
                u32::MAX
            } else {
                (previous_streak + 1) as u32
            }
        } else {
            0
        },
        final(report).compaction_required == (final(report).physical_breach_streak
            >= retention.physical_breach_limit),
        final(report).physical_bytes_before == retention.physical_current_bytes,
        final(report).physical_bytes_after == physical_bytes_after,
        final(report).physical_baseline_bytes == retention.physical_baseline_bytes,
        final(report).physical_target_bytes == retention.physical_target_bytes,
        final(report).physical_ceiling_bytes == retention.physical_ceiling_bytes,
        final(report).demoted_l3 == old(report).demoted_l3,
        final(report).demoted_l2 == old(report).demoted_l2,
        final(report).purged_versions == old(report).purged_versions,
        final(report).last_version_cursor == old(report).last_version_cursor,
        final(report).vacuum_pages == old(report).vacuum_pages,
        final(report).checkpoint_order == old(report).checkpoint_order,
{
    let target_breached = physical_bytes_after > retention.physical_target_bytes;
    let streak: u32 = if target_breached {
        if previous_streak == u32::MAX {
            u32::MAX
        } else {
            previous_streak + 1
        }
    } else {
        0
    };
    report.physical_bytes_before = retention.physical_current_bytes;
    report.physical_bytes_after = physical_bytes_after;
    report.physical_baseline_bytes = retention.physical_baseline_bytes;
    report.physical_target_bytes = retention.physical_target_bytes;
    report.physical_ceiling_bytes = retention.physical_ceiling_bytes;
    report.physical_target_breached = target_breached;
    report.physical_ceiling_breached = physical_bytes_after > retention.physical_ceiling_bytes;
    report.physical_breach_streak = streak;
    report.compaction_required = streak >= retention.physical_breach_limit;
}

// ---------------------------------------------------------------------
// The intent mirror.

/// The temporary rows that mirror a run's intent into the store's
/// metadata while it holds the store.
pub open spec fn mirror_rows(
    run: MaintenanceRun,
    action: MaintenanceAction,
    generation: Seq<char>,
    fencing_token: i64,
    wall_now: i64,
    plan_fingerprint: Seq<char>,
    source_floor: Seq<char>,
) -> Seq<(Seq<char>, Seq<char>)> {
    seq![
        ("maintenance_tmp_run_id"@, run.run_id@),
        ("maintenance_tmp_action"@, crate::store::maintenance::action_text(action)),
        ("maintenance_tmp_source_generation_name"@, generation),
        ("maintenance_tmp_owner_id"@, run.owner_id@),
        ("maintenance_tmp_owner_pid"@, nat_text(run.owner_pid as nat)),
        ("maintenance_tmp_fencing_token"@, int_text(fencing_token as int)),
        ("maintenance_tmp_heartbeat_at"@, int_text(wall_now as int)),
        ("maintenance_tmp_started_at"@, int_text(wall_now as int)),
        ("maintenance_tmp_plan_fingerprint"@, plan_fingerprint),
        ("maintenance_tmp_source_min_writer_version"@, source_floor),
    ]
}

fn text_of(chars: Vec<char>) -> (s: String)
    ensures
        s@ == chars@,
{
    let mut s = String::new();
    push_chars(&mut s, chars.as_slice());
    s
}

/// The rows that mirror a run's intent into the store, in the order they
/// are written.
pub fn intent_mirror_rows(
    run: &MaintenanceRun,
    action: MaintenanceAction,
    generation: &str,
    fencing_token: i64,
    wall_now: i64,
    plan_fingerprint: &str,
    source_floor: &str,
) -> (r: Vec<(String, String)>)
    ensures
        crate::store::generation::row_texts(r@) == mirror_rows(
            *run,
            action,
            generation@,
            fencing_token,
            wall_now,
            plan_fingerprint@,
            source_floor@,
        ),
{
    let mut out: Vec<(String, String)> = Vec::new();
    out.push((owned("maintenance_tmp_run_id"), owned(run.run_id.as_str())));
    out.push((owned("maintenance_tmp_action"), owned(action.as_str())));
    out.push((owned("maintenance_tmp_source_generation_name"), owned(generation)));
    out.push((owned("maintenance_tmp_owner_id"), owned(run.owner_id.as_str())));
    out.push((owned("maintenance_tmp_owner_pid"), text_of(u64_text(run.owner_pid as u64))));
    out.push((owned("maintenance_tmp_fencing_token"), text_of(i64_text(fencing_token))));
    out.push((owned("maintenance_tmp_heartbeat_at"), text_of(i64_text(wall_now))));
    out.push((owned("maintenance_tmp_started_at"), text_of(i64_text(wall_now))));
    out.push((owned("maintenance_tmp_plan_fingerprint"), owned(plan_fingerprint)));
    out.push((owned("maintenance_tmp_source_min_writer_version"), owned(source_floor)));
    assert(crate::store::generation::row_texts(out@) =~= mirror_rows(
        *run,
        action,
        generation@,
        fencing_token,
        wall_now,
        plan_fingerprint@,
        source_floor@,
    ));
    out
}

} // verus!

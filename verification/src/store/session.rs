//! The coordinator as one process holds it: the layout and family it
//! serves, the lease holder it acts for, and the fencing token it last
//! acquired. Acquisitions are decided over what the coordinator database
//! holds; the token it remembers decides renewals.

use vstd::prelude::*;

use crate::store::coordinator::{
    acquisition_outcome, holder_valid, some_intent, some_lease, CoordinatorError, ExistingLease, IntentIdentity,
    LeaseHolder, LeasePlan, MaintenanceOwnerFence, ReconcileOutcome, plan_lease_acquisition,
};
use crate::store::layout::StoreLayout;
use crate::text::{owned, str_eq};

verus! {

/// One process's coordinator.
#[derive(Debug, Clone)]
pub struct StoreCoordinator {
    layout: StoreLayout,
    family_id: String,
    holder: Option<LeaseHolder>,
    held_fencing_token: Option<i64>,
}

/// The value of a coordinator.
pub struct CoordinatorView {
    pub layout: StoreLayout,
    pub family_id: Seq<char>,
    pub holder: Option<LeaseHolder>,
    pub held_fencing_token: Option<i64>,
}

impl View for StoreCoordinator {
    type V = CoordinatorView;

    closed spec fn view(&self) -> CoordinatorView {
        CoordinatorView {
            layout: self.layout,
            family_id: self.family_id@,
            holder: self.holder,
            held_fencing_token: self.held_fencing_token,
        }
    }
}

/// An owner fence is complete: run and owner named, a live process, a
/// positive token.
pub open spec fn owner_fence_valid(o: MaintenanceOwnerFence) -> bool {
    o.run_id@.len() > 0 && o.owner_id@.len() > 0 && o.owner_pid != 0 && o.fencing_token > 0
}

/// The holder is the fence's owner process.
pub open spec fn holder_is_owner(h: LeaseHolder, o: MaintenanceOwnerFence) -> bool {
    h.holder_id@ == o.owner_id@ && h.holder_pid == o.owner_pid
}

/// A holder can take the lease: it names itself, its version and its
/// process.
pub fn check_holder(holder: &LeaseHolder) -> (r: Result<(), CoordinatorError>)
    ensures
        r is Ok <==> holder_valid(*holder),
        r is Err ==> (r matches Err(CoordinatorError::InvalidRequest)),
{
    if holder.holder_id.as_str().is_empty() || holder.holder_version.as_str().is_empty() || holder.holder_pid == 0 {
        Err(CoordinatorError::InvalidRequest)
    } else {
        Ok(())
    }
}

/// A maintenance owner fence is complete and names the holder's process.
pub fn check_owner_fence(holder: &LeaseHolder, owner: &MaintenanceOwnerFence) -> (r: Result<(), CoordinatorError>)
    ensures
        r is Ok <==> (owner_fence_valid(*owner) && holder_is_owner(*holder, *owner)),
        r is Err ==> (r matches Err(CoordinatorError::InvalidRequest)),
{
    if owner.run_id.as_str().is_empty() || owner.owner_id.as_str().is_empty() || owner.owner_pid == 0
        || owner.fencing_token <= 0 {
        return Err(CoordinatorError::InvalidRequest);
    }
    if !str_eq(holder.holder_id.as_str(), owner.owner_id.as_str()) || holder.holder_pid != owner.owner_pid {
        return Err(CoordinatorError::InvalidRequest);
    }
    Ok(())
}

impl StoreCoordinator {
    /// A coordinator for `layout`, whose store belongs to `family_id`,
    /// acting for `holder` if given; it holds no lease yet.
    pub fn new(layout: StoreLayout, family_id: &str, holder: Option<LeaseHolder>) -> (r: Self)
        ensures
            r@.layout == layout,
            r@.family_id == family_id@,
            r@.holder == holder,
            r@.held_fencing_token is None,
    {
        StoreCoordinator { layout, family_id: owned(family_id), holder, held_fencing_token: None }
    }

    pub fn layout(&self) -> (r: &StoreLayout)
        ensures
            *r == self@.layout,
    {
        &self.layout
    }

    pub fn family_id(&self) -> (r: &str)
        ensures
            r@ == self@.family_id,
    {
        self.family_id.as_str()
    }

    pub fn holder(&self) -> (r: Option<&LeaseHolder>)
        ensures
            match r {
                Some(h) => self@.holder == Some(*h),
                None => self@.holder is None,
            },
    {
        match &self.holder {
            Some(h) => Some(h),
            None => None,
        }
    }

    pub fn held_fencing_token(&self) -> (r: Option<i64>)
        ensures
            r == self@.held_fencing_token,
    {
        self.held_fencing_token
    }

    /// Decides an ordinary acquisition (no maintenance bypass) over the
    /// live intent and the lease row, renewing only under the token this
    /// coordinator last acquired.
    pub fn try_acquire_or_takeover(
        &self,
        holder: &LeaseHolder,
        live_intent: Option<&IntentIdentity>,
        existing: Option<&ExistingLease>,
        previous_holder_dead: bool,
        now: i64,
    ) -> (r: Result<LeasePlan, CoordinatorError>)
        ensures
            acquisition_outcome(
                *holder,
                None,
                some_intent(live_intent),
                some_lease(existing),
                self@.held_fencing_token,
                previous_holder_dead,
                now,
                r,
            ),
    {
        plan_lease_acquisition(
            holder,
            None,
            live_intent,
            existing,
            self.held_fencing_token,
            previous_holder_dead,
            now,
        )
    }

    /// Decides an acquisition under a maintenance owner fence: the fence
    /// must be complete and name the holder's process, and then the live
    /// intent must be exactly the fence's; the lease takes the fence's
    /// token.
    pub fn try_acquire_for_maintenance(
        &self,
        holder: &LeaseHolder,
        owner: &MaintenanceOwnerFence,
        live_intent: Option<&IntentIdentity>,
        existing: Option<&ExistingLease>,
        previous_holder_dead: bool,
        now: i64,
    ) -> (r: Result<LeasePlan, CoordinatorError>)
        ensures
            !owner_fence_valid(*owner) ==> (r matches Err(CoordinatorError::InvalidRequest)),
            owner_fence_valid(*owner) && !holder_is_owner(*holder, *owner) ==> (r matches Err(
                CoordinatorError::InvalidRequest,
            )),
            owner_fence_valid(*owner) && holder_is_owner(*holder, *owner) ==> acquisition_outcome(
                *holder,
                Some(*owner),
                some_intent(live_intent),
                some_lease(existing),
                self@.held_fencing_token,
                previous_holder_dead,
                now,
                r,
            ),
    {
        check_owner_fence(holder, owner)?;
        plan_lease_acquisition(
            holder,
            Some(owner),
            live_intent,
            existing,
            self.held_fencing_token,
            previous_holder_dead,
            now,
        )
    }

    /// Remembers the token of a lease this coordinator acquired.
    pub fn record_acquired(&mut self, fencing_token: i64)
        ensures
            final(self)@.held_fencing_token == Some(fencing_token),
            final(self)@.layout == old(self)@.layout,
            final(self)@.family_id == old(self)@.family_id,
            final(self)@.holder == old(self)@.holder,
    {
        self.held_fencing_token = Some(fencing_token);
    }

    /// Forgets the held token when the lease under it was released.
    pub fn record_release(&mut self, released: bool, fencing_token: i64)
        ensures
            final(self)@.held_fencing_token == if released && old(self)@.held_fencing_token == Some(
                fencing_token,
            ) {
                None
            } else {
                old(self)@.held_fencing_token
            },
            final(self)@.layout == old(self)@.layout,
            final(self)@.family_id == old(self)@.family_id,
            final(self)@.holder == old(self)@.holder,
    {
        if released && self.held_fencing_token == Some(fencing_token) {
            self.held_fencing_token = None;
        }
    }

    /// Commits a resolve request held by `owner_id`: both identifiers must
    /// be non-empty, the claim must still be current (then the request is
    /// reconciled), and the store must hold its commit.
    pub fn commit_resolve(
        &self,
        request_id: &str,
        owner_id: &str,
        claim_current: bool,
        outcome: Option<ReconcileOutcome>,
    ) -> (r: Result<ReconcileOutcome, CoordinatorError>)
        requires
            request_id@.len() > 0 && owner_id@.len() > 0 && claim_current ==> outcome is Some,
        ensures
            (request_id@.len() == 0 || owner_id@.len() == 0) ==> r == Err::<
                ReconcileOutcome,
                CoordinatorError,
            >(CoordinatorError::InvalidRequest),
            request_id@.len() > 0 && owner_id@.len() > 0 && !claim_current ==> (r matches Err(
                CoordinatorError::LeaseLost,
            )),
            request_id@.len() > 0 && owner_id@.len() > 0 && claim_current
                && !outcome.unwrap().committed_in_fact ==> (r matches Err(
                CoordinatorError::CoordinatorAheadOfStore { request_id: id },
            ) && id@ == request_id@),
            request_id@.len() > 0 && owner_id@.len() > 0 && claim_current
                && outcome.unwrap().committed_in_fact ==> r == Ok::<
                ReconcileOutcome,
                CoordinatorError,
            >(outcome.unwrap()),
    {
        if request_id.is_empty() || owner_id.is_empty() {
            return Err(CoordinatorError::InvalidRequest);
        }
        if !claim_current {
            return Err(CoordinatorError::LeaseLost);
        }
        match outcome {
            Some(o) => {
                if !o.committed_in_fact {
                    return Err(CoordinatorError::CoordinatorAheadOfStore { request_id: owned(request_id) });
                }
                Ok(o)
            },
            None => Err(CoordinatorError::LeaseLost),
        }
    }
}

} // verus!

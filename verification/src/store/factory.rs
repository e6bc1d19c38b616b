//! The connection factory: which family a connection must belong to, which
//! binary opens it, and the generation fence a maintenance or writer
//! connection carries. The checks a connection passes before it is handed
//! out are decisions over values read from the store and coordinator.

use vstd::prelude::*;

use crate::store::connection::{
    is_invalid_version, order_versions, required_writer_version, version_model, version_order,
    ParsedVersion, StoreConnectionError,
};
use crate::store::connection::compare_store_versions;
use crate::store::layout::StoreLayout;
use crate::store::maintenance::MaintenanceError;
use crate::num::{clamp_i64, saturating_add_i64, saturating_sub_i64};
use crate::text::{owned, str_eq};

verus! {

/// Ownership proof for the writes of one connection: the generation it was
/// minted for, the maintenance run (if any), the lease owner and token,
/// and when it was checked.
#[derive(Debug, Clone, PartialEq, Eq)]
pub struct GenerationFence {
    root: String,
    generation_name: String,
    run_id: Option<String>,
    owner_id: String,
    owner_pid: u32,
    fencing_token: i64,
    checked_at: i64,
}

/// The value of a fence.
pub struct FenceView {
    pub root: Seq<char>,
    pub generation_name: Seq<char>,
    pub run_id: Option<Seq<char>>,
    pub owner_id: Seq<char>,
    pub owner_pid: u32,
    pub fencing_token: i64,
    pub checked_at: i64,
}

/// The text an optional string holds.
pub open spec fn opt_text(o: Option<String>) -> Option<Seq<char>> {
    match o {
        Some(s) => Some(s@),
        None => None,
    }
}

impl View for GenerationFence {
    type V = FenceView;

    closed spec fn view(&self) -> FenceView {
        FenceView {
            root: self.root@,
            generation_name: self.generation_name@,
            run_id: opt_text(self.run_id),
            owner_id: self.owner_id@,
            owner_pid: self.owner_pid,
            fencing_token: self.fencing_token,
            checked_at: self.checked_at,
        }
    }
}

impl GenerationFence {
    /// The fence of a maintenance run over the layout's generation.
    pub fn maintenance(
        layout: &StoreLayout,
        run_id: &str,
        owner_id: &str,
        owner_pid: u32,
        fencing_token: i64,
        checked_at: i64,
    ) -> (r: Self)
        ensures
            r@.root == layout@.root,
            r@.generation_name == layout@.generation_name,
            r@.run_id == Some(run_id@),
            r@.owner_id == owner_id@,
            r@.owner_pid == owner_pid,
            r@.fencing_token == fencing_token,
            r@.checked_at == checked_at,
    {
        GenerationFence {
            root: owned(layout.root()),
            generation_name: owned(layout.generation_name()),
            run_id: Some(owned(run_id)),
            owner_id: owned(owner_id),
            owner_pid,
            fencing_token,
            checked_at,
        }
    }

    /// The fence of an ordinary writer that already holds the lease.
    pub fn writer(
        layout: &StoreLayout,
        owner_id: &str,
        owner_pid: u32,
        fencing_token: i64,
        checked_at: i64,
    ) -> (r: Self)
        ensures
            r@.root == layout@.root,
            r@.generation_name == layout@.generation_name,
            r@.run_id is None,
            r@.owner_id == owner_id@,
            r@.owner_pid == owner_pid,
            r@.fencing_token == fencing_token,
            r@.checked_at == checked_at,
    {
        GenerationFence {
            root: owned(layout.root()),
            generation_name: owned(layout.generation_name()),
            run_id: None,
            owner_id: owned(owner_id),
            owner_pid,
            fencing_token,
            checked_at,
        }
    }

    pub fn owner_id(&self) -> (r: &str)
        ensures
            r@ == self@.owner_id,
    {
        self.owner_id.as_str()
    }

    pub fn owner_pid(&self) -> (r: u32)
        ensures
            r == self@.owner_pid,
    {
        self.owner_pid
    }

    pub fn fencing_token(&self) -> (r: i64)
        ensures
            r == self@.fencing_token,
    {
        self.fencing_token
    }

    pub fn checked_at(&self) -> (r: i64)
        ensures
            r == self@.checked_at,
    {
        self.checked_at
    }

    /// Whether the fence belongs to a maintenance run.
    pub fn is_maintenance(&self) -> (r: bool)
        ensures
            r == (self@.run_id is Some),
    {
        self.run_id.is_some()
    }
}

/// Opens store connections under the family and binary compatibility
/// contract: the expected family, the running binary version, and the
/// optional fence that proves ownership of the generation.
#[derive(Debug, Clone)]
pub struct StoreConnectionFactory {
    layout: StoreLayout,
    expected_family_id: String,
    binary_version: String,
    generation_fence: Option<GenerationFence>,
}

/// The value of a factory.
pub struct FactoryView {
    pub layout: StoreLayout,
    pub expected_family_id: Seq<char>,
    pub binary_version: Seq<char>,
    pub generation_fence: Option<FenceView>,
}

/// The view of an optional fence.
pub open spec fn opt_fence(o: Option<GenerationFence>) -> Option<FenceView> {
    match o {
        Some(f) => Some(f@),
        None => None,
    }
}

impl View for StoreConnectionFactory {
    type V = FactoryView;

    closed spec fn view(&self) -> FactoryView {
        FactoryView {
            layout: self.layout,
            expected_family_id: self.expected_family_id@,
            binary_version: self.binary_version@,
            generation_fence: opt_fence(self.generation_fence),
        }
    }
}

/// The running binary version is strictly older than the required one.
pub open spec fn older_than(running: Seq<char>, required: Seq<char>) -> bool {
    version_order(version_model(running).unwrap(), version_model(required).unwrap())
        == std::cmp::Ordering::Less
}

/// The outcome of the reader floor check, as the contracts state it: the
/// family first, then the running version, then the floor, then the
/// comparison.
pub open spec fn reader_floor_ok(f: FactoryView, found_family: Seq<char>, min_reader: Seq<char>) -> bool {
    &&& found_family == f.expected_family_id
    &&& version_model(f.binary_version) is Some
    &&& version_model(min_reader) is Some
    &&& !older_than(f.binary_version, min_reader)
}

/// The text the writer floor resolves to, when all three texts parse.
pub open spec fn writer_floor_text(
    min_reader: Seq<char>,
    min_writer: Seq<char>,
    recorded: Seq<char>,
    allow_downgrade: bool,
) -> Seq<char> {
    let reader = version_model(min_reader).unwrap();
    let writer = version_model(min_writer).unwrap();
    let rec = version_model(recorded).unwrap();
    let use_reader = version_order(reader, writer) != std::cmp::Ordering::Less;
    let minimum = if use_reader { reader } else { writer };
    if allow_downgrade || version_order(minimum, rec) != std::cmp::Ordering::Less {
        if use_reader { min_reader } else { min_writer }
    } else {
        recorded
    }
}

/// The three floor texts all parse.
pub open spec fn floors_parse(min_reader: Seq<char>, min_writer: Seq<char>, recorded: Seq<char>) -> bool {
    version_model(min_reader) is Some && version_model(min_writer) is Some && version_model(
        recorded,
    ) is Some
}

/// The fence proves the live maintenance intent over this generation.
pub open spec fn fence_matches_intent(f: FactoryView, i: WriteIntent) -> bool {
    match f.generation_fence {
        Some(fence) => {
            &&& fence.root == f.layout@.root
            &&& fence.generation_name == f.layout@.generation_name
            &&& fence.run_id == Some(i.run_id@)
            &&& fence.owner_id == i.owner_id@
            &&& fence.owner_pid == i.owner_pid
            &&& fence.fencing_token == i.fencing_token
            &&& i.source_generation_name@ == f.layout@.generation_name
        },
        None => false,
    }
}

/// The maintenance intent row a write fence is checked against.
#[derive(Debug, Clone, PartialEq, Eq)]
pub struct WriteIntent {
    pub run_id: String,
    pub owner_id: String,
    pub owner_pid: u32,
    pub fencing_token: i64,
    pub source_generation_name: String,
    pub expires_at: i64,
}

/// The clock a lease check runs in: the wall clock when the fence was
/// minted near it (no more than five seconds ahead, ten minutes behind),
/// else the fence's own clock.
pub open spec fn fence_clock_spec(checked_at: i64, wall_now: i64) -> i64 {
    if checked_at <= clamp_i64(wall_now + 5_000) && clamp_i64(wall_now - checked_at) <= 600_000 {
        wall_now
    } else {
        checked_at
    }
}

/// The clock in which a fence's lease is checked.
pub fn fence_clock(checked_at: i64, wall_now: i64) -> (r: i64)
    ensures
        r == fence_clock_spec(checked_at, wall_now),
{
    let ahead_limit = saturating_add_i64(wall_now, 5_000);
    let behind = saturating_sub_i64(wall_now, checked_at);
    if checked_at <= ahead_limit && behind <= 600_000 {
        wall_now
    } else {
        checked_at
    }
}

impl StoreConnectionFactory {
    pub fn new(layout: StoreLayout, expected_family_id: &str, binary_version: &str) -> (r: Self)
        ensures
            r@.layout == layout,
            r@.expected_family_id == expected_family_id@,
            r@.binary_version == binary_version@,
            r@.generation_fence is None,
    {
        StoreConnectionFactory {
            layout,
            expected_family_id: owned(expected_family_id),
            binary_version: owned(binary_version),
            generation_fence: None,
        }
    }

    /// The same factory, carrying `fence` as its ownership proof.
    pub fn with_generation_fence(self, fence: GenerationFence) -> (r: Self)
        ensures
            r@.layout == self@.layout,
            r@.expected_family_id == self@.expected_family_id,
            r@.binary_version == self@.binary_version,
            r@.generation_fence == Some(fence@),
    {
        let mut next = self;
        next.generation_fence = Some(fence);
        next
    }

    pub fn layout(&self) -> (r: &StoreLayout)
        ensures
            *r == self@.layout,
    {
        &self.layout
    }

    pub fn binary_version(&self) -> (r: &str)
        ensures
            r@ == self@.binary_version,
    {
        self.binary_version.as_str()
    }

    pub fn expected_family_id(&self) -> (r: &str)
        ensures
            r@ == self@.expected_family_id,
    {
        self.expected_family_id.as_str()
    }

    pub fn generation_fence(&self) -> (r: Option<&GenerationFence>)
        ensures
            match r {
                Some(f) => self@.generation_fence == Some(f@),
                None => self@.generation_fence is None,
            },
    {
        match &self.generation_fence {
            Some(f) => Some(f),
            None => None,
        }
    }

    fn family_mismatch(&self, found_family: &str) -> (e: StoreConnectionError)
        ensures
            e matches StoreConnectionError::FamilyMismatch { expected, found }
                && expected@ == self@.expected_family_id && found@ == found_family@,
    {
        StoreConnectionError::FamilyMismatch {
            expected: owned(self.expected_family_id.as_str()),
            found: owned(found_family),
        }
    }

    /// Whether a reader may open a store of family `found_family` whose
    /// reader floor is `min_reader`: the family must match, and the running
    /// version must parse and be no older than the floor.
    pub fn check_reader_floor(&self, found_family: &str, min_reader: &str) -> (r: Result<
        (),
        StoreConnectionError,
    >)
        ensures
            r is Ok <==> reader_floor_ok(self@, found_family@, min_reader@),
            found_family@ != self@.expected_family_id ==> (r matches Err(
                StoreConnectionError::FamilyMismatch { expected, found },
            ) && expected@ == self@.expected_family_id && found@ == found_family@),
            found_family@ == self@.expected_family_id && version_model(self@.binary_version) is None
                ==> (r matches Err(e) && is_invalid_version(e, "binary_version", self@.binary_version)),
            found_family@ == self@.expected_family_id && version_model(self@.binary_version) is Some
                && version_model(min_reader@) is None ==> (r matches Err(e) && is_invalid_version(
                e,
                "min_reader_version",
                min_reader@,
            )),
            found_family@ == self@.expected_family_id && version_model(self@.binary_version) is Some
                && version_model(min_reader@) is Some && older_than(self@.binary_version, min_reader@)
                ==> (r matches Err(StoreConnectionError::ReaderVersionTooOld { running, required })
                && running@ == self@.binary_version && required@ == min_reader@),
    {
        if !str_eq(found_family, self.expected_family_id.as_str()) {
            return Err(self.family_mismatch(found_family));
        }
        let running = ParsedVersion::parse("binary_version", self.binary_version.as_str())?;
        let required = ParsedVersion::parse("min_reader_version", min_reader)?;
        match order_versions(&running, &required) {
            std::cmp::Ordering::Less => Err(
                StoreConnectionError::ReaderVersionTooOld {
                    running: owned(self.binary_version.as_str()),
                    required: owned(min_reader),
                },
            ),
            _ => Ok(()),
        }
    }

    /// Whether a writer may open a store of family `found_family` with the
    /// given floors and recorded binary version: the family must match, the
    /// three floor texts parse (reader, writer, recorded, in that order),
    /// the running version parses (then the resolved floor, again), and it
    /// is no older than the resolved writer floor.
    pub fn check_writer_floor(
        &self,
        found_family: &str,
        min_reader: &str,
        min_writer: &str,
        recorded: &str,
        allow_downgrade: bool,
    ) -> (r: Result<(), StoreConnectionError>)
        ensures
            r is Ok <==> {
                &&& found_family@ == self@.expected_family_id
                &&& floors_parse(min_reader@, min_writer@, recorded@)
                &&& version_model(self@.binary_version) is Some
                &&& !older_than(
                    self@.binary_version,
                    writer_floor_text(min_reader@, min_writer@, recorded@, allow_downgrade),
                )
            },
            found_family@ != self@.expected_family_id ==> (r matches Err(
                StoreConnectionError::FamilyMismatch { expected, found },
            ) && expected@ == self@.expected_family_id && found@ == found_family@),
            found_family@ == self@.expected_family_id && floors_parse(min_reader@, min_writer@, recorded@)
                && version_model(self@.binary_version) is Some && older_than(
                self@.binary_version,
                writer_floor_text(min_reader@, min_writer@, recorded@, allow_downgrade),
            ) ==> (r matches Err(StoreConnectionError::WriterVersionTooOld { running, required })
                && running@ == self@.binary_version && required@ == writer_floor_text(
                min_reader@,
                min_writer@,
                recorded@,
                allow_downgrade,
            )),
    {
        if !str_eq(found_family, self.expected_family_id.as_str()) {
            return Err(self.family_mismatch(found_family));
        }
        let floor = required_writer_version(min_reader, min_writer, recorded, allow_downgrade)?;
        let running = ParsedVersion::parse("binary_version", self.binary_version.as_str())?;
        let required = ParsedVersion::parse("min_writer_version", floor)?;
        match order_versions(&running, &required) {
            std::cmp::Ordering::Less => Err(
                StoreConnectionError::WriterVersionTooOld {
                    running: owned(self.binary_version.as_str()),
                    required: owned(floor),
                },
            ),
            _ => Ok(()),
        }
    }

    /// Whether this generation may begin a new mutation: it must still be
    /// the published one, be serving, and any live maintenance intent
    /// (expiring after `now_ms`) must be the one this factory's fence
    /// proves.
    pub fn check_generation_write_fence(
        &self,
        current_generation: &str,
        generation_state: &str,
        intent: Option<&WriteIntent>,
        now_ms: i64,
    ) -> (r: Result<(), StoreConnectionError>)
        ensures
            current_generation@ != self@.layout@.generation_name ==> (r matches Err(
                StoreConnectionError::CurrentGenerationChanged { expected, found },
            ) && expected@ == self@.layout@.generation_name && found@ == current_generation@),
            current_generation@ == self@.layout@.generation_name && generation_state@ != "serving"@
                ==> (r matches Err(StoreConnectionError::GenerationNotServing { state }) && state@
                == generation_state@),
            current_generation@ == self@.layout@.generation_name && generation_state@ == "serving"@
                ==> match intent {
                None => r is Ok,
                Some(i) => if i.expires_at <= now_ms || fence_matches_intent(self@, *i) {
                    r is Ok
                } else {
                    r matches Err(StoreConnectionError::MaintenanceInProgress { run_id }) && run_id@
                        == i.run_id@
                },
            },
    {
        proof {
            reveal_strlit("serving");
        }
        if !str_eq(current_generation, self.layout.generation_name()) {
            return Err(
                StoreConnectionError::CurrentGenerationChanged {
                    expected: owned(self.layout.generation_name()),
                    found: owned(current_generation),
                },
            );
        }
        if !str_eq(generation_state, "serving") {
            return Err(StoreConnectionError::GenerationNotServing { state: owned(generation_state) });
        }
        match intent {
            None => Ok(()),
            Some(i) => {
                if i.expires_at <= now_ms {
                    return Ok(());
                }
                let matching = match &self.generation_fence {
                    Some(fence) => {
                        let same_run = match &fence.run_id {
                            Some(run) => str_eq(run.as_str(), i.run_id.as_str()),
                            None => false,
                        };
                        str_eq(fence.root.as_str(), self.layout.root()) && str_eq(
                            fence.generation_name.as_str(),
                            self.layout.generation_name(),
                        ) && same_run && str_eq(fence.owner_id.as_str(), i.owner_id.as_str())
                            && fence.owner_pid == i.owner_pid && fence.fencing_token
                            == i.fencing_token && str_eq(
                            i.source_generation_name.as_str(),
                            self.layout.generation_name(),
                        )
                    },
                    None => false,
                };
                if matching {
                    Ok(())
                } else {
                    Err(StoreConnectionError::MaintenanceInProgress { run_id: owned(i.run_id.as_str()) })
                }
            },
        }
    }

    /// Whether a writer connection under `fence` still owns the store: the
    /// fence names this generation and the coordinator showed its lease
    /// live (`owns_lease`, checked at the fence's clock).
    pub fn check_writer_lease(&self, fence: &GenerationFence, owns_lease: bool) -> (r: Result<
        (),
        StoreConnectionError,
    >)
        ensures
            r is Ok <==> (fence@.root == self@.layout@.root && fence@.generation_name
                == self@.layout@.generation_name && owns_lease),
            r is Err ==> r == Err::<(), StoreConnectionError>(StoreConnectionError::WriterLeaseLost),
    {
        let owns_generation = str_eq(fence.root.as_str(), self.layout.root()) && str_eq(
            fence.generation_name.as_str(),
            self.layout.generation_name(),
        );
        if !owns_generation || !owns_lease {
            return Err(StoreConnectionError::WriterLeaseLost);
        }
        Ok(())
    }

    /// Whether the recorded binary version should advance to the running
    /// one: both must parse (running first), and the running one must be
    /// newer.
    pub fn binary_version_advances(&self, recorded: &str) -> (r: Result<bool, StoreConnectionError>)
        ensures
            match r {
                Ok(b) => version_model(self@.binary_version) is Some && version_model(recorded@) is Some
                    && b == (version_order(
                    version_model(self@.binary_version).unwrap(),
                    version_model(recorded@).unwrap(),
                ) == std::cmp::Ordering::Greater),
                Err(e) => (version_model(self@.binary_version) is None && is_invalid_version(
                    e,
                    "binary_version",
                    self@.binary_version,
                )) || (version_model(self@.binary_version) is Some && version_model(recorded@) is None
                    && is_invalid_version(e, "binary_version", recorded@)),
            },
    {
        let running = ParsedVersion::parse("binary_version", self.binary_version.as_str())?;
        let recorded_version = ParsedVersion::parse("binary_version", recorded)?;
        match order_versions(&running, &recorded_version) {
            std::cmp::Ordering::Greater => Ok(true),
            _ => Ok(false),
        }
    }
}

/// The writer floor a maintenance run raises the store to: the running
/// binary's version when it is newer than the source floor, else the
/// source floor itself. Either text failing to parse is a connection
/// error.
pub fn raised_writer_floor(binary_version: &str, source_floor: &str) -> (r: Result<String, MaintenanceError>)
    ensures
        match r {
            Ok(v) => version_model(binary_version@) is Some && version_model(source_floor@) is Some
                && v@ == if version_order(
                version_model(binary_version@).unwrap(),
                version_model(source_floor@).unwrap(),
            ) == std::cmp::Ordering::Greater {
                binary_version@
            } else {
                source_floor@
            },
            Err(e) => e matches MaintenanceError::Connection(c) && ((version_model(binary_version@) is None
                && is_invalid_version(c, "version", binary_version@)) || (version_model(
                binary_version@,
            ) is Some && version_model(source_floor@) is None && is_invalid_version(
                c,
                "version",
                source_floor@,
            ))),
        },
{
    match compare_store_versions(binary_version, source_floor) {
        Ok(std::cmp::Ordering::Greater) => Ok(owned(binary_version)),
        Ok(_) => Ok(owned(source_floor)),
        Err(e) => Err(MaintenanceError::Connection(e)),
    }
}

} // verus!

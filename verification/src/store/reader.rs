//! Reader registrations: the requests a reader makes, who holds a
//! registration, and the immutable manifest snapshot it pins, whose
//! fingerprint is a SHA-256 digest of a length-framed encoding.

use vstd::prelude::*;

use crate::json::{sha256, sha256_of};
use crate::text::{
    framed, hex_text, is_lower_hex, lemma_hex_text_shape, push_be_u64, push_framed, push_hex, be_u64,
    string_of,
};

verus! {

/// A request to register a reader on a view's current generation.
#[derive(Debug, Clone, PartialEq, Eq)]
pub struct ReaderAcquireRequest {
    family_id: String,
    view_id: String,
    generation_name: String,
    owner_label: String,
    owner_pid: u32,
    owner_nonce: String,
    lease_ms: u64,
}

impl ReaderAcquireRequest {
    /// The family id this holds.
    pub closed spec fn family_id_value(&self) -> Seq<char> {
        self.family_id@
    }

    /// The view id this holds.
    pub closed spec fn view_id_value(&self) -> Seq<char> {
        self.view_id@
    }

    /// The generation name this holds.
    pub closed spec fn generation_name_value(&self) -> Seq<char> {
        self.generation_name@
    }

    /// The owner label this holds.
    pub closed spec fn owner_label_value(&self) -> Seq<char> {
        self.owner_label@
    }

    /// The owner pid this holds.
    pub closed spec fn owner_pid_value(&self) -> u32 {
        self.owner_pid
    }

    /// The owner nonce this holds.
    pub closed spec fn owner_nonce_value(&self) -> Seq<char> {
        self.owner_nonce@
    }

    /// The lease ms this holds.
    pub closed spec fn lease_ms_value(&self) -> u64 {
        self.lease_ms
    }

    pub fn new(
        family_id: String,
        view_id: String,
        generation_name: String,
        owner_label: String,
        owner_pid: u32,
        owner_nonce: String,
        lease_ms: u64,
    ) -> (r: Self)
        ensures
            r.family_id_value() == family_id@,
            r.view_id_value() == view_id@,
            r.generation_name_value() == generation_name@,
            r.owner_label_value() == owner_label@,
            r.owner_pid_value() == owner_pid,
            r.owner_nonce_value() == owner_nonce@,
            r.lease_ms_value() == lease_ms,
    {
        ReaderAcquireRequest { family_id, view_id, generation_name, owner_label, owner_pid, owner_nonce, lease_ms }
    }

    pub fn family_id(&self) -> (r: &str)
        ensures
            r@ == self.family_id_value(),
    {
        self.family_id.as_str()
    }

    pub fn view_id(&self) -> (r: &str)
        ensures
            r@ == self.view_id_value(),
    {
        self.view_id.as_str()
    }

    pub fn generation_name(&self) -> (r: &str)
        ensures
            r@ == self.generation_name_value(),
    {
        self.generation_name.as_str()
    }

    pub fn owner_label(&self) -> (r: &str)
        ensures
            r@ == self.owner_label_value(),
    {
        self.owner_label.as_str()
    }

    pub fn owner_pid(&self) -> (r: u32)
        ensures
            r == self.owner_pid_value(),
    {
        self.owner_pid
    }

    pub fn owner_nonce(&self) -> (r: &str)
        ensures
            r@ == self.owner_nonce_value(),
    {
        self.owner_nonce.as_str()
    }

    pub fn lease_ms(&self) -> (r: u64)
        ensures
            r == self.lease_ms_value(),
    {
        self.lease_ms
    }

}

/// A request to extend a reader registration's lease.
#[derive(Debug, Clone, PartialEq, Eq)]
pub struct ReaderRenewRequest {
    family_id: String,
    pin_id: String,
    owner_nonce: String,
    owner_pid: u32,
    lease_ms: u64,
}

impl ReaderRenewRequest {
    /// The family id this holds.
    pub closed spec fn family_id_value(&self) -> Seq<char> {
        self.family_id@
    }

    /// The pin id this holds.
    pub closed spec fn pin_id_value(&self) -> Seq<char> {
        self.pin_id@
    }

    /// The owner nonce this holds.
    pub closed spec fn owner_nonce_value(&self) -> Seq<char> {
        self.owner_nonce@
    }

    /// The owner pid this holds.
    pub closed spec fn owner_pid_value(&self) -> u32 {
        self.owner_pid
    }

    /// The lease ms this holds.
    pub closed spec fn lease_ms_value(&self) -> u64 {
        self.lease_ms
    }

    pub fn new(
        family_id: String,
        pin_id: String,
        owner_nonce: String,
        owner_pid: u32,
        lease_ms: u64,
    ) -> (r: Self)
        ensures
            r.family_id_value() == family_id@,
            r.pin_id_value() == pin_id@,
            r.owner_nonce_value() == owner_nonce@,
            r.owner_pid_value() == owner_pid,
            r.lease_ms_value() == lease_ms,
    {
        ReaderRenewRequest { family_id, pin_id, owner_nonce, owner_pid, lease_ms }
    }

    pub fn family_id(&self) -> (r: &str)
        ensures
            r@ == self.family_id_value(),
    {
        self.family_id.as_str()
    }

    pub fn pin_id(&self) -> (r: &str)
        ensures
            r@ == self.pin_id_value(),
    {
        self.pin_id.as_str()
    }

    pub fn owner_nonce(&self) -> (r: &str)
        ensures
            r@ == self.owner_nonce_value(),
    {
        self.owner_nonce.as_str()
    }

    pub fn owner_pid(&self) -> (r: u32)
        ensures
            r == self.owner_pid_value(),
    {
        self.owner_pid
    }

    pub fn lease_ms(&self) -> (r: u64)
        ensures
            r == self.lease_ms_value(),
    {
        self.lease_ms
    }

}

/// A request to end a reader registration.
#[derive(Debug, Clone, PartialEq, Eq)]
pub struct ReaderReleaseRequest {
    family_id: String,
    pin_id: String,
    owner_nonce: String,
}

impl ReaderReleaseRequest {
    /// The family id this holds.
    pub closed spec fn family_id_value(&self) -> Seq<char> {
        self.family_id@
    }

    /// The pin id this holds.
    pub closed spec fn pin_id_value(&self) -> Seq<char> {
        self.pin_id@
    }

    /// The owner nonce this holds.
    pub closed spec fn owner_nonce_value(&self) -> Seq<char> {
        self.owner_nonce@
    }

    pub fn new(
        family_id: String,
        pin_id: String,
        owner_nonce: String,
    ) -> (r: Self)
        ensures
            r.family_id_value() == family_id@,
            r.pin_id_value() == pin_id@,
            r.owner_nonce_value() == owner_nonce@,
    {
        ReaderReleaseRequest { family_id, pin_id, owner_nonce }
    }

    pub fn family_id(&self) -> (r: &str)
        ensures
            r@ == self.family_id_value(),
    {
        self.family_id.as_str()
    }

    pub fn pin_id(&self) -> (r: &str)
        ensures
            r@ == self.pin_id_value(),
    {
        self.pin_id.as_str()
    }

    pub fn owner_nonce(&self) -> (r: &str)
        ensures
            r@ == self.owner_nonce_value(),
    {
        self.owner_nonce.as_str()
    }

}

/// Who holds a reader registration.
#[derive(Debug, Clone, PartialEq, Eq)]
pub struct ReaderOwnerIdentity {
    pin_id: String,
    owner_nonce: String,
    owner_label: String,
    owner_pid: u32,
    owner_birth_identity: String,
}

impl ReaderOwnerIdentity {
    /// The pin id this holds.
    pub closed spec fn pin_id_value(&self) -> Seq<char> {
        self.pin_id@
    }

    /// The owner nonce this holds.
    pub closed spec fn owner_nonce_value(&self) -> Seq<char> {
        self.owner_nonce@
    }

    /// The owner label this holds.
    pub closed spec fn owner_label_value(&self) -> Seq<char> {
        self.owner_label@
    }

    /// The owner pid this holds.
    pub closed spec fn owner_pid_value(&self) -> u32 {
        self.owner_pid
    }

    /// The owner birth identity this holds.
    pub closed spec fn owner_birth_identity_value(&self) -> Seq<char> {
        self.owner_birth_identity@
    }

    pub fn new(
        pin_id: String,
        owner_nonce: String,
        owner_label: String,
        owner_pid: u32,
        owner_birth_identity: String,
    ) -> (r: Self)
        ensures
            r.pin_id_value() == pin_id@,
            r.owner_nonce_value() == owner_nonce@,
            r.owner_label_value() == owner_label@,
            r.owner_pid_value() == owner_pid,
            r.owner_birth_identity_value() == owner_birth_identity@,
    {
        ReaderOwnerIdentity { pin_id, owner_nonce, owner_label, owner_pid, owner_birth_identity }
    }

    pub fn pin_id(&self) -> (r: &str)
        ensures
            r@ == self.pin_id_value(),
    {
        self.pin_id.as_str()
    }

    pub fn owner_nonce(&self) -> (r: &str)
        ensures
            r@ == self.owner_nonce_value(),
    {
        self.owner_nonce.as_str()
    }

    pub fn owner_label(&self) -> (r: &str)
        ensures
            r@ == self.owner_label_value(),
    {
        self.owner_label.as_str()
    }

    pub fn owner_pid(&self) -> (r: u32)
        ensures
            r == self.owner_pid_value(),
    {
        self.owner_pid
    }

    pub fn owner_birth_identity(&self) -> (r: &str)
        ensures
            r@ == self.owner_birth_identity_value(),
    {
        self.owner_birth_identity.as_str()
    }

}

/// The identity tag that opens every snapshot fingerprint's input.
pub open spec fn snapshot_tag() -> Seq<u8> {
    crate::text::utf8_bytes("julie-reader-snapshot-v1\u{0}"@)
}

/// The bytes a snapshot fingerprint digests: the tag, then the family,
/// store instance and view framed by length, the manifest generation,
/// the manifest hash and generation name framed by length, and the
/// extraction epoch, served log sequence and retained log floor, each
/// integer as eight big-endian bytes.
pub open spec fn snapshot_frame(
    family_id: Seq<char>,
    store_instance_id: Seq<char>,
    view_id: Seq<char>,
    manifest_generation: i64,
    manifest_hash: Seq<char>,
    generation_name: Seq<char>,
    extraction_identity_epoch: i64,
    served_store_log_sequence: i64,
    min_retained_store_log_sequence: i64,
) -> Seq<u8> {
    snapshot_tag() + framed(family_id) + framed(store_instance_id) + framed(view_id) + be_u64(
        manifest_generation as u64,
    ) + framed(manifest_hash) + framed(generation_name) + be_u64(extraction_identity_epoch as u64)
        + be_u64(served_store_log_sequence as u64) + be_u64(min_retained_store_log_sequence as u64)
}

/// The store instance of a generation: `family:generation`.
pub open spec fn instance_text(family_id: Seq<char>, generation_name: Seq<char>) -> Seq<char> {
    family_id + seq![':'] + generation_name
}

/// The manifest a reader registration pins, with its fingerprint.
#[derive(Debug, Clone, PartialEq, Eq)]
pub struct ReaderManifestSnapshot {
    family_id: String,
    view_id: String,
    manifest_generation: i64,
    generation_name: String,
    store_instance_id: String,
    manifest_hash: String,
    extraction_identity_epoch: i64,
    served_store_log_sequence: i64,
    min_retained_store_log_sequence: i64,
    snapshot_fingerprint: String,
}

impl ReaderManifestSnapshot {
    pub closed spec fn family_id_value(&self) -> Seq<char> {
        self.family_id@
    }

    pub closed spec fn view_id_value(&self) -> Seq<char> {
        self.view_id@
    }

    pub closed spec fn manifest_generation_value(&self) -> i64 {
        self.manifest_generation
    }

    pub closed spec fn generation_name_value(&self) -> Seq<char> {
        self.generation_name@
    }

    pub closed spec fn store_instance_id_value(&self) -> Seq<char> {
        self.store_instance_id@
    }

    pub closed spec fn manifest_hash_value(&self) -> Seq<char> {
        self.manifest_hash@
    }

    pub closed spec fn extraction_identity_epoch_value(&self) -> i64 {
        self.extraction_identity_epoch
    }

    pub closed spec fn served_store_log_sequence_value(&self) -> i64 {
        self.served_store_log_sequence
    }

    pub closed spec fn min_retained_store_log_sequence_value(&self) -> i64 {
        self.min_retained_store_log_sequence
    }

    pub closed spec fn snapshot_fingerprint_value(&self) -> Seq<char> {
        self.snapshot_fingerprint@
    }

    /// A snapshot of a manifest; its store instance is
    /// `family:generation` and its fingerprint is the lowercase hex
    /// SHA-256 digest of `snapshot_frame`.
    pub fn new(
        family_id: String,
        view_id: String,
        manifest_generation: i64,
        generation_name: String,
        manifest_hash: String,
        extraction_identity_epoch: i64,
        served_store_log_sequence: i64,
        min_retained_store_log_sequence: i64,
    ) -> (r: Self)
        ensures
            r.family_id_value() == family_id@,
            r.view_id_value() == view_id@,
            r.manifest_generation_value() == manifest_generation,
            r.generation_name_value() == generation_name@,
            r.store_instance_id_value() == instance_text(family_id@, generation_name@),
            r.manifest_hash_value() == manifest_hash@,
            r.extraction_identity_epoch_value() == extraction_identity_epoch,
            r.served_store_log_sequence_value() == served_store_log_sequence,
            r.min_retained_store_log_sequence_value() == min_retained_store_log_sequence,
            r.snapshot_fingerprint_value() == hex_text(
                sha256_of(
                    snapshot_frame(
                        family_id@,
                        instance_text(family_id@, generation_name@),
                        view_id@,
                        manifest_generation,
                        manifest_hash@,
                        generation_name@,
                        extraction_identity_epoch,
                        served_store_log_sequence,
                        min_retained_store_log_sequence,
                    ),
                ),
            ),
            r.snapshot_fingerprint_value().len() == 64,
            forall|i: int|
                0 <= i < 64 ==> is_lower_hex(#[trigger] r.snapshot_fingerprint_value()[i]),
    {
        let mut store_instance_id = family_id.clone();
        crate::text::push_char(&mut store_instance_id, ':');
        crate::text::push_str(&mut store_instance_id, generation_name.as_str());
        let mut frame: Vec<u8> = Vec::new();
        crate::text::push_bytes(&mut frame, "julie-reader-snapshot-v1\u{0}".as_bytes());
        push_framed(&mut frame, family_id.as_str());
        push_framed(&mut frame, store_instance_id.as_str());
        push_framed(&mut frame, view_id.as_str());
        push_be_u64(&mut frame, manifest_generation as u64);
        push_framed(&mut frame, manifest_hash.as_str());
        push_framed(&mut frame, generation_name.as_str());
        push_be_u64(&mut frame, extraction_identity_epoch as u64);
        push_be_u64(&mut frame, served_store_log_sequence as u64);
        push_be_u64(&mut frame, min_retained_store_log_sequence as u64);
        let digest = sha256(frame.as_slice());
        let mut hex: Vec<char> = Vec::new();
        push_hex(&mut hex, digest.as_slice());
        assert(store_instance_id@ =~= instance_text(family_id@, generation_name@));
        assert(frame@ =~= snapshot_frame(
            family_id@,
            instance_text(family_id@, generation_name@),
            view_id@,
            manifest_generation,
            manifest_hash@,
            generation_name@,
            extraction_identity_epoch,
            served_store_log_sequence,
            min_retained_store_log_sequence,
        ));
        assert(hex@ =~= hex_text(sha256_of(frame@)));
        proof {
            lemma_hex_text_shape(digest@);
        }
        ReaderManifestSnapshot {
            family_id,
            view_id,
            manifest_generation,
            generation_name,
            store_instance_id,
            manifest_hash,
            extraction_identity_epoch,
            served_store_log_sequence,
            min_retained_store_log_sequence,
            snapshot_fingerprint: string_of(hex.as_slice()),
        }
    }

    pub fn family_id(&self) -> (r: &str)
        ensures
            r@ == self.family_id_value(),
    {
        self.family_id.as_str()
    }

    pub fn view_id(&self) -> (r: &str)
        ensures
            r@ == self.view_id_value(),
    {
        self.view_id.as_str()
    }

    pub fn manifest_generation(&self) -> (r: i64)
        ensures
            r == self.manifest_generation_value(),
    {
        self.manifest_generation
    }

    pub fn generation_name(&self) -> (r: &str)
        ensures
            r@ == self.generation_name_value(),
    {
        self.generation_name.as_str()
    }

    pub fn store_instance_id(&self) -> (r: &str)
        ensures
            r@ == self.store_instance_id_value(),
    {
        self.store_instance_id.as_str()
    }

    pub fn manifest_hash(&self) -> (r: &str)
        ensures
            r@ == self.manifest_hash_value(),
    {
        self.manifest_hash.as_str()
    }

    pub fn extraction_identity_epoch(&self) -> (r: i64)
        ensures
            r == self.extraction_identity_epoch_value(),
    {
        self.extraction_identity_epoch
    }

    pub fn served_store_log_sequence(&self) -> (r: i64)
        ensures
            r == self.served_store_log_sequence_value(),
    {
        self.served_store_log_sequence
    }

    pub fn min_retained_store_log_sequence(&self) -> (r: i64)
        ensures
            r == self.min_retained_store_log_sequence_value(),
    {
        self.min_retained_store_log_sequence
    }

    pub fn snapshot_fingerprint(&self) -> (r: &str)
        ensures
            r@ == self.snapshot_fingerprint_value(),
    {
        self.snapshot_fingerprint.as_str()
    }

    fn duplicate(&self) -> (r: Self)
        ensures
            r == *self,
    {
        ReaderManifestSnapshot {
            family_id: self.family_id.clone(),
            view_id: self.view_id.clone(),
            manifest_generation: self.manifest_generation,
            generation_name: self.generation_name.clone(),
            store_instance_id: self.store_instance_id.clone(),
            manifest_hash: self.manifest_hash.clone(),
            extraction_identity_epoch: self.extraction_identity_epoch,
            served_store_log_sequence: self.served_store_log_sequence,
            min_retained_store_log_sequence: self.min_retained_store_log_sequence,
            snapshot_fingerprint: self.snapshot_fingerprint.clone(),
        }
    }
}

/// A live reader registration: who holds it, what it pins, and its lease.
#[derive(Debug, Clone, PartialEq, Eq)]
pub struct ReaderRegistration {
    identity: ReaderOwnerIdentity,
    snapshot: ReaderManifestSnapshot,
    acquired_at: i64,
    heartbeat_at: i64,
    expires_at: i64,
}

impl ReaderRegistration {
    pub closed spec fn identity_value(&self) -> ReaderOwnerIdentity {
        self.identity
    }

    pub closed spec fn snapshot_value(&self) -> ReaderManifestSnapshot {
        self.snapshot
    }

    pub closed spec fn acquired_at_value(&self) -> i64 {
        self.acquired_at
    }

    pub closed spec fn heartbeat_at_value(&self) -> i64 {
        self.heartbeat_at
    }

    pub closed spec fn expires_at_value(&self) -> i64 {
        self.expires_at
    }

    pub fn new(
        identity: ReaderOwnerIdentity,
        snapshot: ReaderManifestSnapshot,
        acquired_at: i64,
        heartbeat_at: i64,
        expires_at: i64,
    ) -> (r: Self)
        ensures
            r.identity_value() == identity,
            r.snapshot_value() == snapshot,
            r.acquired_at_value() == acquired_at,
            r.heartbeat_at_value() == heartbeat_at,
            r.expires_at_value() == expires_at,
    {
        ReaderRegistration { identity, snapshot, acquired_at, heartbeat_at, expires_at }
    }

    pub fn identity(&self) -> (r: &ReaderOwnerIdentity)
        ensures
            *r == self.identity_value(),
    {
        &self.identity
    }

    pub fn snapshot(&self) -> (r: &ReaderManifestSnapshot)
        ensures
            *r == self.snapshot_value(),
    {
        &self.snapshot
    }

    pub fn acquired_at(&self) -> (r: i64)
        ensures
            r == self.acquired_at_value(),
    {
        self.acquired_at
    }

    pub fn heartbeat_at(&self) -> (r: i64)
        ensures
            r == self.heartbeat_at_value(),
    {
        self.heartbeat_at
    }

    pub fn expires_at(&self) -> (r: i64)
        ensures
            r == self.expires_at_value(),
    {
        self.expires_at
    }
}

/// The outcome of a successful reader acquisition.
pub struct ReaderAcquireResult {
    registration: ReaderRegistration,
}

impl ReaderAcquireResult {
    pub closed spec fn registration_value(&self) -> ReaderRegistration {
        self.registration
    }

    pub fn new(registration: ReaderRegistration) -> (r: Self)
        ensures
            r.registration_value() == registration,
    {
        ReaderAcquireResult { registration }
    }

    pub fn registration(&self) -> (r: &ReaderRegistration)
        ensures
            *r == self.registration_value(),
    {
        &self.registration
    }

    pub fn into_registration(self) -> (r: ReaderRegistration)
        ensures
            r == self.registration_value(),
    {
        self.registration
    }
}

/// What a report says of a reader registration.
pub struct ReaderReportFacts {
    pin_id: String,
    owner_nonce: String,
    owner_pid: u32,
    snapshot: ReaderManifestSnapshot,
    expires_at: i64,
    warning: Option<String>,
}

impl ReaderReportFacts {
    pub closed spec fn pin_id_value(&self) -> Seq<char> {
        self.pin_id@
    }

    pub closed spec fn owner_nonce_value(&self) -> Seq<char> {
        self.owner_nonce@
    }

    pub closed spec fn owner_pid_value(&self) -> u32 {
        self.owner_pid
    }

    pub closed spec fn snapshot_value(&self) -> ReaderManifestSnapshot {
        self.snapshot
    }

    pub closed spec fn expires_at_value(&self) -> i64 {
        self.expires_at
    }

    pub closed spec fn warning_value(&self) -> Option<Seq<char>> {
        match self.warning {
            Some(w) => Some(w@),
            None => None,
        }
    }

    /// The facts of a registration, with an optional warning.
    pub fn from_registration(registration: &ReaderRegistration, warning: Option<String>) -> (r: Self)
        ensures
            r.pin_id_value() == registration.identity_value().pin_id_value(),
            r.owner_nonce_value() == registration.identity_value().owner_nonce_value(),
            r.owner_pid_value() == registration.identity_value().owner_pid_value(),
            r.snapshot_value() == registration.snapshot_value(),
            r.expires_at_value() == registration.expires_at_value(),
            r.warning_value() == match warning {
                Some(w) => Some(w@),
                None => None::<Seq<char>>,
            },
    {
        ReaderReportFacts {
            pin_id: registration.identity.pin_id.clone(),
            owner_nonce: registration.identity.owner_nonce.clone(),
            owner_pid: registration.identity.owner_pid,
            snapshot: registration.snapshot.duplicate(),
            expires_at: registration.expires_at,
            warning,
        }
    }

    pub fn pin_id(&self) -> (r: &str)
        ensures
            r@ == self.pin_id_value(),
    {
        self.pin_id.as_str()
    }

    pub fn owner_nonce(&self) -> (r: &str)
        ensures
            r@ == self.owner_nonce_value(),
    {
        self.owner_nonce.as_str()
    }

    pub fn owner_pid(&self) -> (r: u32)
        ensures
            r == self.owner_pid_value(),
    {
        self.owner_pid
    }

    pub fn snapshot(&self) -> (r: &ReaderManifestSnapshot)
        ensures
            *r == self.snapshot_value(),
    {
        &self.snapshot
    }

    /// A registration protects exactly one manifest.
    pub fn protected_manifest_count(&self) -> (r: usize)
        ensures
            r == 1,
    {
        1
    }

    pub fn expires_at(&self) -> (r: i64)
        ensures
            r == self.expires_at_value(),
    {
        self.expires_at
    }

    pub fn warning(&self) -> (r: Option<&str>)
        ensures
            match r {
                Some(w) => self.warning_value() == Some(w@),
                None => self.warning_value() is None,
            },
    {
        match &self.warning {
            Some(w) => Some(w.as_str()),
            None => None,
        }
    }
}

} // verus!

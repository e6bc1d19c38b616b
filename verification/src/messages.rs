//! What each error of the library says to a person: the sentence its
//! `message` method writes. Strings and identifiers appear quoted as
//! std's `Debug` formatter quotes them, numbers in decimal.

use vstd::prelude::*;

use crate::jsonl::JsonlExportError;
use crate::model::FileStatus;
use crate::store::connection::StoreConnectionError;
use crate::store::coordinator::CoordinatorError;
use crate::store::generation::{join_strings, joined, texts, GenerationError};
use crate::store::layout::StoreLayoutError;
use crate::store::log::StoreLogError;
use crate::store::maintenance::MaintenanceError;
use crate::store::manifest::ManifestStoreError;
use crate::store::model::StoreProjectionError;
use crate::text::{debug_quote, debug_text, i64_text, int_text, nat_text, owned, push_chars, push_str, u64_text};

verus! {

/// A string as `Debug` quotes it.
pub open spec fn quoted(s: Seq<char>) -> Seq<char> {
    debug_text(s)
}

/// A signed number in decimal.
pub open spec fn decimal(n: int) -> Seq<char> {
    int_text(n)
}

/// An optional generation as `Debug` writes it: `Some(n)` or `None`.
pub open spec fn optional_number(g: Option<u64>) -> Seq<char> {
    match g {
        Some(n) => "Some("@ + nat_text(n as nat) + ")"@,
        None => "None"@,
    }
}

fn push_quoted(m: &mut String, s: &str)
    ensures
        final(m)@ == old(m)@ + quoted(s@),
{
    let q = debug_quote(s);
    push_str(m, q.as_str());
}

fn push_int(m: &mut String, n: i64)
    ensures
        final(m)@ == old(m)@ + decimal(n as int),
{
    let digits = i64_text(n);
    push_chars(m, digits.as_slice());
}

fn push_nat(m: &mut String, n: u64)
    ensures
        final(m)@ == old(m)@ + nat_text(n as nat),
{
    let digits = u64_text(n);
    push_chars(m, digits.as_slice());
}

fn push_optional(m: &mut String, g: Option<u64>)
    ensures
        final(m)@ == old(m)@ + optional_number(g),
{
    match g {
        Some(n) => {
            push_str(m, "Some(");
            push_nat(m, n);
            push_str(m, ")");
        },
        None => push_str(m, "None"),
    }
}

// ---------------------------------------------------------------------
// Connections.

/// What a connection error says.
pub open spec fn connection_message(e: StoreConnectionError) -> Seq<char> {
    match e {
        StoreConnectionError::FamilyMismatch { expected, found } => "store family "@ + quoted(found@)
            + " does not match "@ + quoted(expected@),
        StoreConnectionError::ReaderVersionTooOld { running, required } => "binary "@ + running@
            + " cannot read this store; version "@ + required@ + " is required"@,
        StoreConnectionError::WriterVersionTooOld { running, required } => "binary "@ + running@
            + " cannot write this store; version "@ + required@ + " is required"@,
        StoreConnectionError::CurrentGenerationChanged { expected, found } => "store generation changed from "@
            + quoted(expected@) + " to "@ + quoted(found@),
        StoreConnectionError::GenerationNotServing { state } => "store generation is "@ + quoted(state@)
            + ", not serving"@,
        StoreConnectionError::MaintenanceInProgress { run_id } => "store maintenance run "@ + quoted(run_id@)
            + " is in progress"@,
        StoreConnectionError::WriterLeaseLost => "store writer lease fencing check failed"@,
        StoreConnectionError::WriterLeaseUnavailable { detail } => "store writer lease is unavailable: "@
            + detail@,
        StoreConnectionError::MissingMetadata { key } => "store metadata is missing "@ + key@,
        StoreConnectionError::InvalidVersion { field, value } => "store metadata "@ + field@
            + " has invalid version "@ + quoted(value@),
        StoreConnectionError::PragmaMismatch { pragma, expected, found } => "SQLite pragma "@ + pragma@ + " is "@
            + decimal(found as int) + ", expected "@ + decimal(expected as int),
        StoreConnectionError::TextPragmaMismatch { pragma, expected, found } => "SQLite pragma "@ + pragma@
            + " is "@ + quoted(found@) + ", expected "@ + quoted(expected@),
    }
}

impl StoreConnectionError {
    /// The sentence this error says.
    pub fn message(&self) -> (r: String)
        ensures
            r@ == connection_message(*self),
    {
        match self {
            StoreConnectionError::FamilyMismatch { expected, found } => {
                let mut m = owned("store family ");
                push_quoted(&mut m, found.as_str());
                push_str(&mut m, " does not match ");
                push_quoted(&mut m, expected.as_str());
                m
            },
            StoreConnectionError::ReaderVersionTooOld { running, required } => {
                let mut m = owned("binary ");
                push_str(&mut m, running.as_str());
                push_str(&mut m, " cannot read this store; version ");
                push_str(&mut m, required.as_str());
                push_str(&mut m, " is required");
                m
            },
            StoreConnectionError::WriterVersionTooOld { running, required } => {
                let mut m = owned("binary ");
                push_str(&mut m, running.as_str());
                push_str(&mut m, " cannot write this store; version ");
                push_str(&mut m, required.as_str());
                push_str(&mut m, " is required");
                m
            },
            StoreConnectionError::CurrentGenerationChanged { expected, found } => {
                let mut m = owned("store generation changed from ");
                push_quoted(&mut m, expected.as_str());
                push_str(&mut m, " to ");
                push_quoted(&mut m, found.as_str());
                m
            },
            StoreConnectionError::GenerationNotServing { state } => {
                let mut m = owned("store generation is ");
                push_quoted(&mut m, state.as_str());
                push_str(&mut m, ", not serving");
                m
            },
            StoreConnectionError::MaintenanceInProgress { run_id } => {
                let mut m = owned("store maintenance run ");
                push_quoted(&mut m, run_id.as_str());
                push_str(&mut m, " is in progress");
                m
            },
            StoreConnectionError::WriterLeaseLost => owned("store writer lease fencing check failed"),
            StoreConnectionError::WriterLeaseUnavailable { detail } => {
                let mut m = owned("store writer lease is unavailable: ");
                push_str(&mut m, detail.as_str());
                m
            },
            StoreConnectionError::MissingMetadata { key } => {
                let mut m = owned("store metadata is missing ");
                push_str(&mut m, key);
                m
            },
            StoreConnectionError::InvalidVersion { field, value } => {
                let mut m = owned("store metadata ");
                push_str(&mut m, field);
                push_str(&mut m, " has invalid version ");
                push_quoted(&mut m, value.as_str());
                m
            },
            StoreConnectionError::PragmaMismatch { pragma, expected, found } => {
                let mut m = owned("SQLite pragma ");
                push_str(&mut m, pragma);
                push_str(&mut m, " is ");
                push_int(&mut m, *found);
                push_str(&mut m, ", expected ");
                push_int(&mut m, *expected);
                m
            },
            StoreConnectionError::TextPragmaMismatch { pragma, expected, found } => {
                let mut m = owned("SQLite pragma ");
                push_str(&mut m, pragma);
                push_str(&mut m, " is ");
                push_quoted(&mut m, found.as_str());
                push_str(&mut m, ", expected ");
                push_quoted(&mut m, expected);
                m
            },
        }
    }
}


// ---------------------------------------------------------------------
// Layouts.

/// What a layout error says.
pub open spec fn layout_message(e: StoreLayoutError) -> Seq<char> {
    match e {
        StoreLayoutError::FamilyMismatch { expected, found } => "store family "@ + quoted(found@)
            + " does not match "@ + quoted(expected@),
        StoreLayoutError::CurrentMissing { path } => "store CURRENT is missing at "@ + path@,
        StoreLayoutError::CurrentRecoveryRequired { generations } =>
            "store CURRENT is missing beside published generations: "@ + joined(texts(generations@), ", "@),
        StoreLayoutError::PartialGenerationRecoveryRequired { path } =>
            "partial generation requires owned recovery at "@ + path@,
        StoreLayoutError::InvalidGeneration { value } => "invalid store generation name "@ + quoted(value@),
        StoreLayoutError::PathEscapesRoot { path } => "store path escapes the family root: "@ + path@,
        StoreLayoutError::UnexpectedPathType { path, expected } => "store path "@ + path@ + " is not a "@
            + expected@,
        StoreLayoutError::PragmaMismatch { pragma, expected, found } => "SQLite pragma "@ + pragma@ + " is "@
            + decimal(found as int) + ", expected "@ + decimal(expected as int),
        StoreLayoutError::TextPragmaMismatch { pragma, expected, found } => "SQLite pragma "@ + pragma@
            + " is "@ + quoted(found@) + ", expected "@ + quoted(expected@),
    }
}

impl StoreLayoutError {
    /// The sentence this error says.
    pub fn message(&self) -> (r: String)
        ensures
            r@ == layout_message(*self),
    {
        match self {
            StoreLayoutError::FamilyMismatch { expected, found } => {
                let mut m = owned("store family ");
                push_quoted(&mut m, found.as_str());
                push_str(&mut m, " does not match ");
                push_quoted(&mut m, expected.as_str());
                m
            },
            StoreLayoutError::CurrentMissing { path } => {
                let mut m = owned("store CURRENT is missing at ");
                push_str(&mut m, path.as_str());
                m
            },
            StoreLayoutError::CurrentRecoveryRequired { generations } => {
                let mut m = owned("store CURRENT is missing beside published generations: ");
                let list = join_strings(generations, ", ");
                push_str(&mut m, list.as_str());
                m
            },
            StoreLayoutError::PartialGenerationRecoveryRequired { path } => {
                let mut m = owned("partial generation requires owned recovery at ");
                push_str(&mut m, path.as_str());
                m
            },
            StoreLayoutError::InvalidGeneration { value } => {
                let mut m = owned("invalid store generation name ");
                push_quoted(&mut m, value.as_str());
                m
            },
            StoreLayoutError::PathEscapesRoot { path } => {
                let mut m = owned("store path escapes the family root: ");
                push_str(&mut m, path.as_str());
                m
            },
            StoreLayoutError::UnexpectedPathType { path, expected } => {
                let mut m = owned("store path ");
                push_str(&mut m, path.as_str());
                push_str(&mut m, " is not a ");
                push_str(&mut m, expected);
                m
            },
            StoreLayoutError::PragmaMismatch { pragma, expected, found } => {
                let mut m = owned("SQLite pragma ");
                push_str(&mut m, pragma);
                push_str(&mut m, " is ");
                push_int(&mut m, *found);
                push_str(&mut m, ", expected ");
                push_int(&mut m, *expected);
                m
            },
            StoreLayoutError::TextPragmaMismatch { pragma, expected, found } => {
                let mut m = owned("SQLite pragma ");
                push_str(&mut m, pragma);
                push_str(&mut m, " is ");
                push_quoted(&mut m, found.as_str());
                push_str(&mut m, ", expected ");
                push_quoted(&mut m, expected);
                m
            },
        }
    }
}

// ---------------------------------------------------------------------
// The store log.

/// What a store-log error says.
pub open spec fn log_message(e: StoreLogError) -> Seq<char> {
    match e {
        StoreLogError::InvalidEntry => "store-log entry is invalid"@,
        StoreLogError::InvalidChunkIndex { chunk_index } => "request chunk index "@ + nat_text(
            chunk_index as nat,
        ) + " does not fit SQLite"@,
        StoreLogError::ChunkOutOfOrder { request_id, expected, actual } => "request "@ + quoted(request_id@)
            + " chunk "@ + nat_text(actual as nat) + " is out of order; expected "@ + nat_text(expected as nat),
        StoreLogError::RequestMismatch { sequence, expected, found } => "store-log sequence "@ + decimal(
            sequence as int,
        ) + " belongs to "@ + quoted(found@) + ", not "@ + quoted(expected@),
        StoreLogError::LogEntryNotFound { sequence } => "store-log sequence "@ + decimal(sequence as int)
            + " was not found"@,
        StoreLogError::TerminalSequence { sequence } => "terminal store-log sequence "@ + decimal(
            sequence as int,
        ) + " cannot be a chunk"@,
        StoreLogError::RequestAlreadyTerminal { request_id } => "request "@ + quoted(request_id@)
            + " is already terminal"@,
        StoreLogError::TerminalAlreadyExists { request_id } => "request "@ + quoted(request_id@)
            + " already has a terminal entry"@,
        StoreLogError::InvalidLevel { value } => "store-log level "@ + decimal(value as int) + " is invalid"@,
    }
}

impl StoreLogError {
    /// The sentence this error says.
    pub fn message(&self) -> (r: String)
        ensures
            r@ == log_message(*self),
    {
        match self {
            StoreLogError::InvalidEntry => owned("store-log entry is invalid"),
            StoreLogError::InvalidChunkIndex { chunk_index } => {
                let mut m = owned("request chunk index ");
                push_nat(&mut m, *chunk_index);
                push_str(&mut m, " does not fit SQLite");
                m
            },
            StoreLogError::ChunkOutOfOrder { request_id, expected, actual } => {
                let mut m = owned("request ");
                push_quoted(&mut m, request_id.as_str());
                push_str(&mut m, " chunk ");
                push_nat(&mut m, *actual);
                push_str(&mut m, " is out of order; expected ");
                push_nat(&mut m, *expected);
                m
            },
            StoreLogError::RequestMismatch { sequence, expected, found } => {
                let mut m = owned("store-log sequence ");
                push_int(&mut m, *sequence);
                push_str(&mut m, " belongs to ");
                push_quoted(&mut m, found.as_str());
                push_str(&mut m, ", not ");
                push_quoted(&mut m, expected.as_str());
                m
            },
            StoreLogError::LogEntryNotFound { sequence } => {
                let mut m = owned("store-log sequence ");
                push_int(&mut m, *sequence);
                push_str(&mut m, " was not found");
                m
            },
            StoreLogError::TerminalSequence { sequence } => {
                let mut m = owned("terminal store-log sequence ");
                push_int(&mut m, *sequence);
                push_str(&mut m, " cannot be a chunk");
                m
            },
            StoreLogError::RequestAlreadyTerminal { request_id } => {
                let mut m = owned("request ");
                push_quoted(&mut m, request_id.as_str());
                push_str(&mut m, " is already terminal");
                m
            },
            StoreLogError::TerminalAlreadyExists { request_id } => {
                let mut m = owned("request ");
                push_quoted(&mut m, request_id.as_str());
                push_str(&mut m, " already has a terminal entry");
                m
            },
            StoreLogError::InvalidLevel { value } => {
                let mut m = owned("store-log level ");
                push_int(&mut m, *value);
                push_str(&mut m, " is invalid");
                m
            },
        }
    }
}


// ---------------------------------------------------------------------
// The coordinator.

/// What a coordinator error says.
pub open spec fn coordinator_message(e: CoordinatorError) -> Seq<char> {
    match e {
        CoordinatorError::InvalidRequest => "coordinator request is invalid"@,
        CoordinatorError::IdempotencyConflict { idempotency_key, existing_request_id } => "idempotency key "@
            + quoted(idempotency_key@) + " belongs to request "@ + quoted(existing_request_id@),
        CoordinatorError::RequestIdConflict { request_id } => "request id "@ + quoted(request_id@)
            + " is already in use"@,
        CoordinatorError::RequestNotFound { request_id } => "coordinator request "@ + quoted(request_id@)
            + " was not found"@,
        CoordinatorError::CorruptRequest { detail } => "coordinator row is corrupt: "@ + detail@,
        CoordinatorError::CoordinatorAheadOfStore { request_id } => "coordinator request "@ + quoted(
            request_id@,
        ) + " is terminal without a terminal store effect"@,
        CoordinatorError::InvalidVersion { value } => "invalid version "@ + quoted(value@),
        CoordinatorError::InvalidTime { field, value } => "invalid "@ + field@ + " timestamp "@ + decimal(
            value as int,
        ),
        CoordinatorError::CursorRegression { consumer_id, current, requested } => "consumer cursor "@
            + quoted(consumer_id@) + " cannot regress from "@ + decimal(current as int) + " to "@ + decimal(
            requested as int,
        ),
        CoordinatorError::CursorAhead { requested, high_water } => "consumer cursor sequence "@ + decimal(
            requested as int,
        ) + " exceeds store-log high-water "@ + decimal(high_water as int),
        CoordinatorError::CursorGenerationConflict { consumer_id, current, requested } => "consumer cursor "@
            + quoted(consumer_id@) + " belongs to generation "@ + quoted(current@) + ", not "@ + quoted(
            requested@,
        ),
        CoordinatorError::InvalidGeneration { generation_name } => "invalid or missing generation "@ + quoted(
            generation_name@,
        ),
        CoordinatorError::WriterVersionTooOld { running, required } => "writer version "@ + quoted(running@)
            + " is below required version "@ + quoted(required@),
        CoordinatorError::LeaseUnavailable => "store-writer lease is held by another process"@,
        CoordinatorError::LeaseLost => "store-writer lease fencing check failed"@,
        CoordinatorError::MissingLeaseHolder => "coordinator has no configured lease holder"@,
        CoordinatorError::ExecutionFailed { request_id, detail } => "request "@ + quoted(request_id@)
            + " failed: "@ + detail@,
        CoordinatorError::InvalidPolicy => "coordinator policy is invalid"@,
        CoordinatorError::QuantumDeadlineExceeded { elapsed_ms, maximum_ms } => "coordinator quantum took "@
            + decimal(elapsed_ms as int) + " ms; maximum is "@ + decimal(maximum_ms as int) + " ms"@,
        CoordinatorError::StoreConnection(inner) => connection_message(inner),
    }
}

impl CoordinatorError {
    /// The sentence this error says.
    pub fn message(&self) -> (r: String)
        ensures
            r@ == coordinator_message(*self),
    {
        match self {
            CoordinatorError::InvalidRequest => owned("coordinator request is invalid"),
            CoordinatorError::IdempotencyConflict { idempotency_key, existing_request_id } => {
                let mut m = owned("idempotency key ");
                push_quoted(&mut m, idempotency_key.as_str());
                push_str(&mut m, " belongs to request ");
                push_quoted(&mut m, existing_request_id.as_str());
                m
            },
            CoordinatorError::RequestIdConflict { request_id } => {
                let mut m = owned("request id ");
                push_quoted(&mut m, request_id.as_str());
                push_str(&mut m, " is already in use");
                m
            },
            CoordinatorError::RequestNotFound { request_id } => {
                let mut m = owned("coordinator request ");
                push_quoted(&mut m, request_id.as_str());
                push_str(&mut m, " was not found");
                m
            },
            CoordinatorError::CorruptRequest { detail } => {
                let mut m = owned("coordinator row is corrupt: ");
                push_str(&mut m, detail.as_str());
                m
            },
            CoordinatorError::CoordinatorAheadOfStore { request_id } => {
                let mut m = owned("coordinator request ");
                push_quoted(&mut m, request_id.as_str());
                push_str(&mut m, " is terminal without a terminal store effect");
                m
            },
            CoordinatorError::InvalidVersion { value } => {
                let mut m = owned("invalid version ");
                push_quoted(&mut m, value.as_str());
                m
            },
            CoordinatorError::InvalidTime { field, value } => {
                let mut m = owned("invalid ");
                push_str(&mut m, field);
                push_str(&mut m, " timestamp ");
                push_int(&mut m, *value);
                m
            },
            CoordinatorError::CursorRegression { consumer_id, current, requested } => {
                let mut m = owned("consumer cursor ");
                push_quoted(&mut m, consumer_id.as_str());
                push_str(&mut m, " cannot regress from ");
                push_int(&mut m, *current);
                push_str(&mut m, " to ");
                push_int(&mut m, *requested);
                m
            },
            CoordinatorError::CursorAhead { requested, high_water } => {
                let mut m = owned("consumer cursor sequence ");
                push_int(&mut m, *requested);
                push_str(&mut m, " exceeds store-log high-water ");
                push_int(&mut m, *high_water);
                m
            },
            CoordinatorError::CursorGenerationConflict { consumer_id, current, requested } => {
                let mut m = owned("consumer cursor ");
                push_quoted(&mut m, consumer_id.as_str());
                push_str(&mut m, " belongs to generation ");
                push_quoted(&mut m, current.as_str());
                push_str(&mut m, ", not ");
                push_quoted(&mut m, requested.as_str());
                m
            },
            CoordinatorError::InvalidGeneration { generation_name } => {
                let mut m = owned("invalid or missing generation ");
                push_quoted(&mut m, generation_name.as_str());
                m
            },
            CoordinatorError::WriterVersionTooOld { running, required } => {
                let mut m = owned("writer version ");
                push_quoted(&mut m, running.as_str());
                push_str(&mut m, " is below required version ");
                push_quoted(&mut m, required.as_str());
                m
            },
            CoordinatorError::LeaseUnavailable => owned("store-writer lease is held by another process"),
            CoordinatorError::LeaseLost => owned("store-writer lease fencing check failed"),
            CoordinatorError::MissingLeaseHolder => owned("coordinator has no configured lease holder"),
            CoordinatorError::ExecutionFailed { request_id, detail } => {
                let mut m = owned("request ");
                push_quoted(&mut m, request_id.as_str());
                push_str(&mut m, " failed: ");
                push_str(&mut m, detail.as_str());
                m
            },
            CoordinatorError::InvalidPolicy => owned("coordinator policy is invalid"),
            CoordinatorError::QuantumDeadlineExceeded { elapsed_ms, maximum_ms } => {
                let mut m = owned("coordinator quantum took ");
                push_int(&mut m, *elapsed_ms);
                push_str(&mut m, " ms; maximum is ");
                push_int(&mut m, *maximum_ms);
                push_str(&mut m, " ms");
                m
            },
            CoordinatorError::StoreConnection(inner) => inner.message(),
        }
    }
}

// ---------------------------------------------------------------------
// Maintenance.

/// What a maintenance error says.
pub open spec fn maintenance_message(e: MaintenanceError) -> Seq<char> {
    match e {
        MaintenanceError::InspectionRaced { database } => database@ + " changed during maintenance inspection"@,
        MaintenanceError::UnknownRoot { kind, id } => "unknown "@ + kind@ + " root "@ + id@,
        MaintenanceError::InvalidPolicy { field } => "invalid maintenance policy "@ + field@,
        MaintenanceError::InvalidMetadata { field, value } => "invalid maintenance metadata "@ + field@ + "="@
            + quoted(value@),
        MaintenanceError::StalePlan => "maintenance plan no longer matches store roots"@,
        MaintenanceError::MaintenanceBusy => "store maintenance cannot acquire ownership"@,
        MaintenanceError::CapacityInsufficient => "insufficient capacity for the planned maintenance cohort"@,
        MaintenanceError::MaintenanceFenceLost => "maintenance ownership was lost"@,
        MaintenanceError::Connection(inner) => connection_message(inner),
        MaintenanceError::Coordinator(inner) => coordinator_message(inner),
    }
}

impl MaintenanceError {
    /// The sentence this error says.
    pub fn message(&self) -> (r: String)
        ensures
            r@ == maintenance_message(*self),
    {
        match self {
            MaintenanceError::InspectionRaced { database } => {
                let mut m = owned(database);
                push_str(&mut m, " changed during maintenance inspection");
                m
            },
            MaintenanceError::UnknownRoot { kind, id } => {
                let mut m = owned("unknown ");
                push_str(&mut m, kind);
                push_str(&mut m, " root ");
                push_str(&mut m, id.as_str());
                m
            },
            MaintenanceError::InvalidPolicy { field } => {
                let mut m = owned("invalid maintenance policy ");
                push_str(&mut m, field);
                m
            },
            MaintenanceError::InvalidMetadata { field, value } => {
                let mut m = owned("invalid maintenance metadata ");
                push_str(&mut m, field);
                push_str(&mut m, "=");
                push_quoted(&mut m, value.as_str());
                m
            },
            MaintenanceError::StalePlan => owned("maintenance plan no longer matches store roots"),
            MaintenanceError::MaintenanceBusy => owned("store maintenance cannot acquire ownership"),
            MaintenanceError::CapacityInsufficient => owned(
                "insufficient capacity for the planned maintenance cohort",
            ),
            MaintenanceError::MaintenanceFenceLost => owned("maintenance ownership was lost"),
            MaintenanceError::Connection(inner) => inner.message(),
            MaintenanceError::Coordinator(inner) => inner.message(),
        }
    }
}


// ---------------------------------------------------------------------
// Manifests.

/// What a manifest error says.
pub open spec fn manifest_message(e: ManifestStoreError) -> Seq<char> {
    match e {
        ManifestStoreError::EmptyViewId => "view id must be non-empty"@,
        ManifestStoreError::EmptyRoot => "view root must be non-empty"@,
        ManifestStoreError::EmptyRequestId => "request id must be non-empty"@,
        ManifestStoreError::InvalidPath { path } => "invalid manifest path "@ + quoted(path@),
        ManifestStoreError::DuplicatePath { path } => "duplicate manifest path "@ + quoted(path@),
        ManifestStoreError::InvalidEntry { path } => "invalid manifest entry for "@ + quoted(path@),
        ManifestStoreError::VersionNotFound { version_id } => "file version "@ + decimal(version_id as int)
            + " was not found"@,
        ManifestStoreError::VersionIncomplete { version_id } => "file version "@ + decimal(version_id as int)
            + " has no L1 completion stamp"@,
        ManifestStoreError::VersionPathMismatch { path, version_path } => "manifest path "@ + quoted(path@)
            + " does not match file-version path "@ + quoted(version_path@),
        ManifestStoreError::VersionLanguageMismatch { path, language, version_language } => "manifest path "@
            + quoted(path@) + " language "@ + quoted(language@) + " does not match file-version language "@
            + quoted(version_language@),
        ManifestStoreError::ObservedHashMismatch { path } => "indexed manifest path "@ + quoted(path@)
            + " does not match its file-version content hash"@,
        ManifestStoreError::ViewNotFound { view_id } => "view "@ + quoted(view_id@) + " was not found"@,
        ManifestStoreError::ViewRootMismatch { view_id, expected, found } => "view "@ + quoted(view_id@)
            + " root "@ + quoted(found@) + " does not match "@ + quoted(expected@),
        ManifestStoreError::GenerationOutOfRange { generation } => "manifest generation "@ + nat_text(
            generation as nat,
        ) + " does not fit SQLite"@,
        ManifestStoreError::GenerationMismatch { expected, actual } => "manifest generation "@
            + optional_number(actual) + " does not match expected "@ + optional_number(expected),
        ManifestStoreError::ManifestNotFound { view_id, generation } => "manifest "@ + quoted(view_id@)
            + " generation "@ + nat_text(generation as nat) + " was not found"@,
        ManifestStoreError::Log(inner) => log_message(inner),
    }
}

impl ManifestStoreError {
    /// The sentence this error says.
    pub fn message(&self) -> (r: String)
        ensures
            r@ == manifest_message(*self),
    {
        match self {
            ManifestStoreError::EmptyViewId => owned("view id must be non-empty"),
            ManifestStoreError::EmptyRoot => owned("view root must be non-empty"),
            ManifestStoreError::EmptyRequestId => owned("request id must be non-empty"),
            ManifestStoreError::InvalidPath { path } => {
                let mut m = owned("invalid manifest path ");
                push_quoted(&mut m, path.as_str());
                m
            },
            ManifestStoreError::DuplicatePath { path } => {
                let mut m = owned("duplicate manifest path ");
                push_quoted(&mut m, path.as_str());
                m
            },
            ManifestStoreError::InvalidEntry { path } => {
                let mut m = owned("invalid manifest entry for ");
                push_quoted(&mut m, path.as_str());
                m
            },
            ManifestStoreError::VersionNotFound { version_id } => {
                let mut m = owned("file version ");
                push_int(&mut m, *version_id);
                push_str(&mut m, " was not found");
                m
            },
            ManifestStoreError::VersionIncomplete { version_id } => {
                let mut m = owned("file version ");
                push_int(&mut m, *version_id);
                push_str(&mut m, " has no L1 completion stamp");
                m
            },
            ManifestStoreError::VersionPathMismatch { path, version_path } => {
                let mut m = owned("manifest path ");
                push_quoted(&mut m, path.as_str());
                push_str(&mut m, " does not match file-version path ");
                push_quoted(&mut m, version_path.as_str());
                m
            },
            ManifestStoreError::VersionLanguageMismatch { path, language, version_language } => {
                let mut m = owned("manifest path ");
                push_quoted(&mut m, path.as_str());
                push_str(&mut m, " language ");
                push_quoted(&mut m, language.as_str());
                push_str(&mut m, " does not match file-version language ");
                push_quoted(&mut m, version_language.as_str());
                m
            },
            ManifestStoreError::ObservedHashMismatch { path } => {
                let mut m = owned("indexed manifest path ");
                push_quoted(&mut m, path.as_str());
                push_str(&mut m, " does not match its file-version content hash");
                m
            },
            ManifestStoreError::ViewNotFound { view_id } => {
                let mut m = owned("view ");
                push_quoted(&mut m, view_id.as_str());
                push_str(&mut m, " was not found");
                m
            },
            ManifestStoreError::ViewRootMismatch { view_id, expected, found } => {
                let mut m = owned("view ");
                push_quoted(&mut m, view_id.as_str());
                push_str(&mut m, " root ");
                push_quoted(&mut m, found.as_str());
                push_str(&mut m, " does not match ");
                push_quoted(&mut m, expected.as_str());
                m
            },
            ManifestStoreError::GenerationOutOfRange { generation } => {
                let mut m = owned("manifest generation ");
                push_nat(&mut m, *generation);
                push_str(&mut m, " does not fit SQLite");
                m
            },
            ManifestStoreError::GenerationMismatch { expected, actual } => {
                let mut m = owned("manifest generation ");
                push_optional(&mut m, *actual);
                push_str(&mut m, " does not match expected ");
                push_optional(&mut m, *expected);
                m
            },
            ManifestStoreError::ManifestNotFound { view_id, generation } => {
                let mut m = owned("manifest ");
                push_quoted(&mut m, view_id.as_str());
                push_str(&mut m, " generation ");
                push_nat(&mut m, *generation);
                push_str(&mut m, " was not found");
                m
            },
            ManifestStoreError::Log(inner) => inner.message(),
        }
    }
}

// ---------------------------------------------------------------------
// Store projections, generations and exports.

/// A file status as stored.
pub open spec fn file_status_word(s: FileStatus) -> Seq<char> {
    match s {
        FileStatus::Indexed => "indexed"@,
        FileStatus::Unsupported => "unsupported"@,
        FileStatus::FailedPreserved => "failed_preserved"@,
    }
}

/// What a projection error says.
pub open spec fn projection_message(e: StoreProjectionError) -> Seq<char> {
    match e {
        StoreProjectionError::FileNotIndexed(status) => "store versions require indexed files, found "@
            + file_status_word(status),
        StoreProjectionError::MissingContentHash => "store versions require a content hash"@,
        StoreProjectionError::InvalidExtractionEpoch(epoch) => "extraction epoch must be positive, found "@
            + nat_text(epoch as nat),
        StoreProjectionError::NegativeContentBytes(bytes) => "content bytes must be non-negative, found "@
            + decimal(bytes as int),
        StoreProjectionError::NegativeLineCount(lines) => "line count must be non-negative, found "@ + decimal(
            lines as int,
        ),
    }
}

impl StoreProjectionError {
    /// The sentence this error says.
    pub fn message(&self) -> (r: String)
        ensures
            r@ == projection_message(*self),
    {
        match self {
            StoreProjectionError::FileNotIndexed(status) => {
                let mut m = owned("store versions require indexed files, found ");
                push_str(&mut m, status.as_str());
                m
            },
            StoreProjectionError::MissingContentHash => owned("store versions require a content hash"),
            StoreProjectionError::InvalidExtractionEpoch(epoch) => {
                let mut m = owned("extraction epoch must be positive, found ");
                push_nat(&mut m, *epoch as u64);
                m
            },
            StoreProjectionError::NegativeContentBytes(bytes) => {
                let mut m = owned("content bytes must be non-negative, found ");
                push_int(&mut m, *bytes);
                m
            },
            StoreProjectionError::NegativeLineCount(lines) => {
                let mut m = owned("line count must be non-negative, found ");
                push_int(&mut m, *lines);
                m
            },
        }
    }
}

impl GenerationError {
    /// The sentence this error says: its stable code.
    pub fn message(&self) -> (r: String)
        ensures
            r@ == crate::store::generation::generation_code(*self),
    {
        owned(self.code())
    }
}

/// What an export error says. A column that does not parse is named; the
/// parser's own account of the failure is not kept.
pub open spec fn export_message(e: JsonlExportError) -> Seq<char> {
    match e {
        JsonlExportError::Json { column } => "invalid JSON in "@ + column@,
        JsonlExportError::InvalidJsonShape { column, expected } => "invalid JSON shape in "@ + column@
            + ": expected "@ + expected@,
        JsonlExportError::MissingMetadata { key } => "missing required artifact metadata key "@ + key@,
        JsonlExportError::InvalidMetadata { key, value } => "invalid artifact metadata value for "@ + key@
            + ": "@ + value@,
    }
}

impl JsonlExportError {
    /// The sentence this error says.
    pub fn message(&self) -> (r: String)
        ensures
            r@ == export_message(*self),
    {
        match self {
            JsonlExportError::Json { column } => {
                let mut m = owned("invalid JSON in ");
                push_str(&mut m, column);
                m
            },
            JsonlExportError::InvalidJsonShape { column, expected } => {
                let mut m = owned("invalid JSON shape in ");
                push_str(&mut m, column);
                push_str(&mut m, ": expected ");
                push_str(&mut m, expected);
                m
            },
            JsonlExportError::MissingMetadata { key } => {
                let mut m = owned("missing required artifact metadata key ");
                push_str(&mut m, key);
                m
            },
            JsonlExportError::InvalidMetadata { key, value } => {
                let mut m = owned("invalid artifact metadata value for ");
                push_str(&mut m, key);
                push_str(&mut m, ": ");
                push_str(&mut m, value.as_str());
                m
            },
        }
    }
}

} // verus!

//! The store log's protocol: entries and records, the checks an entry
//! passes before it is appended, the order of a request's progress
//! chunks, and how a stored row reads back.

use vstd::prelude::*;

use crate::json::{is_json, json_parses};
use crate::store::model::StoreLevel;
use crate::text::owned;

verus! {

/// Coordinates and payload for one durable store-log entry.
#[derive(Debug, Clone, PartialEq, Eq)]
pub struct StoreLogEntry {
    pub request_id: String,
    pub event_kind: String,
    pub view_id: Option<String>,
    pub generation: Option<u64>,
    pub version_id: Option<i64>,
    pub level: Option<StoreLevel>,
    pub payload_json: String,
    pub created_at: String,
}

impl StoreLogEntry {
    /// An entry with no view, generation, version or level.
    pub fn new(request_id: String, event_kind: String, payload_json: String, created_at: String) -> (r: Self)
        ensures
            r.request_id == request_id,
            r.event_kind == event_kind,
            r.view_id is None,
            r.generation is None,
            r.version_id is None,
            r.level is None,
            r.payload_json == payload_json,
            r.created_at == created_at,
    {
        StoreLogEntry {
            request_id,
            event_kind,
            view_id: None,
            generation: None,
            version_id: None,
            level: None,
            payload_json,
            created_at,
        }
    }

    /// The same entry, for view `view_id`.
    pub fn with_view(self, view_id: String) -> (r: Self)
        ensures
            r == (StoreLogEntry { view_id: Some(view_id), ..self }),
    {
        let mut entry = self;
        entry.view_id = Some(view_id);
        entry
    }

    /// The same entry, for generation `generation`.
    pub fn with_generation(self, generation: u64) -> (r: Self)
        ensures
            r == (StoreLogEntry { generation: Some(generation), ..self }),
    {
        let mut entry = self;
        entry.generation = Some(generation);
        entry
    }

    /// The same entry, for file version `version_id`.
    pub fn with_version(self, version_id: i64) -> (r: Self)
        ensures
            r == (StoreLogEntry { version_id: Some(version_id), ..self }),
    {
        let mut entry = self;
        entry.version_id = Some(version_id);
        entry
    }

    /// The same entry, at level `level`.
    pub fn with_level(self, level: StoreLevel) -> (r: Self)
        ensures
            r == (StoreLogEntry { level: Some(level), ..self }),
    {
        let mut entry = self;
        entry.level = Some(level);
        entry
    }
}

/// A committed store-log row.
#[derive(Debug, Clone, PartialEq, Eq)]
pub struct StoreLogRecord {
    pub sequence: i64,
    pub request_id: String,
    pub event_kind: String,
    pub view_id: Option<String>,
    pub generation: Option<u64>,
    pub version_id: Option<i64>,
    pub level: Option<StoreLevel>,
    pub terminal: bool,
    pub payload_json: String,
    pub created_at: String,
}

/// A store-log protocol failure.
#[derive(Debug, Clone, PartialEq, Eq)]
pub enum StoreLogError {
    InvalidEntry,
    InvalidChunkIndex { chunk_index: u64 },
    ChunkOutOfOrder { request_id: String, expected: u64, actual: u64 },
    RequestMismatch { sequence: i64, expected: String, found: String },
    LogEntryNotFound { sequence: i64 },
    TerminalSequence { sequence: i64 },
    RequestAlreadyTerminal { request_id: String },
    TerminalAlreadyExists { request_id: String },
    InvalidLevel { value: i64 },
}

/// The stable code of a store-log error.
pub open spec fn log_error_code(e: StoreLogError) -> Seq<char> {
    match e {
        StoreLogError::InvalidEntry => "invalid_store_log_entry"@,
        StoreLogError::InvalidChunkIndex { .. } => "invalid_request_chunk_index"@,
        StoreLogError::ChunkOutOfOrder { .. } => "request_chunk_out_of_order"@,
        StoreLogError::RequestMismatch { .. } => "request_chunk_log_mismatch"@,
        StoreLogError::LogEntryNotFound { .. } => "store_log_entry_not_found"@,
        StoreLogError::TerminalSequence { .. } => "request_chunk_terminal_sequence"@,
        StoreLogError::RequestAlreadyTerminal { .. } => "request_already_terminal"@,
        StoreLogError::TerminalAlreadyExists { .. } => "terminal_already_exists"@,
        StoreLogError::InvalidLevel { .. } => "invalid_store_level"@,
    }
}

impl StoreLogError {
    pub fn code(&self) -> (r: &'static str)
        ensures
            r@ == log_error_code(*self),
    {
        proof {
            reveal_strlit("invalid_store_log_entry");
            reveal_strlit("invalid_request_chunk_index");
            reveal_strlit("request_chunk_out_of_order");
            reveal_strlit("request_chunk_log_mismatch");
            reveal_strlit("store_log_entry_not_found");
            reveal_strlit("request_chunk_terminal_sequence");
            reveal_strlit("request_already_terminal");
            reveal_strlit("terminal_already_exists");
            reveal_strlit("invalid_store_level");
        }
        match self {
            StoreLogError::InvalidEntry => "invalid_store_log_entry",
            StoreLogError::InvalidChunkIndex { .. } => "invalid_request_chunk_index",
            StoreLogError::ChunkOutOfOrder { .. } => "request_chunk_out_of_order",
            StoreLogError::RequestMismatch { .. } => "request_chunk_log_mismatch",
            StoreLogError::LogEntryNotFound { .. } => "store_log_entry_not_found",
            StoreLogError::TerminalSequence { .. } => "request_chunk_terminal_sequence",
            StoreLogError::RequestAlreadyTerminal { .. } => "request_already_terminal",
            StoreLogError::TerminalAlreadyExists { .. } => "terminal_already_exists",
            StoreLogError::InvalidLevel { .. } => "invalid_store_level",
        }
    }
}

/// Appends transaction-bound effects and reads the terminal idempotency
/// anchor; the rules it applies are the functions of this module.
pub struct StoreLog;

/// An entry that may be appended: a request, an event kind, a creation
/// time, and a JSON payload.
pub open spec fn entry_ok(e: StoreLogEntry) -> bool {
    e.request_id@.len() > 0 && e.event_kind@.len() > 0 && e.created_at@.len() > 0 && json_parses(
        e.payload_json@,
    )
}

/// Checks an entry before it is appended.
pub fn validate_entry(entry: &StoreLogEntry) -> (r: Result<(), StoreLogError>)
    ensures
        r is Ok <==> entry_ok(*entry),
        r is Err ==> r == Err::<(), StoreLogError>(StoreLogError::InvalidEntry),
{
    if entry.request_id.as_str().is_empty() || entry.event_kind.as_str().is_empty()
        || entry.created_at.as_str().is_empty() || !is_json(entry.payload_json.as_str()) {
        Err(StoreLogError::InvalidEntry)
    } else {
        Ok(())
    }
}

/// Checks the fields of a progress chunk: a request, a creation time,
/// and a JSON payload.
pub fn validate_progress_fields(request_id: &str, created_at: &str, payload_json: &str) -> (r: Result<
    (),
    StoreLogError,
>)
    ensures
        r is Ok <==> (request_id@.len() > 0 && created_at@.len() > 0 && json_parses(payload_json@)),
        r is Err ==> r == Err::<(), StoreLogError>(StoreLogError::InvalidEntry),
{
    if request_id.is_empty() || created_at.is_empty() || !is_json(payload_json) {
        Err(StoreLogError::InvalidEntry)
    } else {
        Ok(())
    }
}

/// An entry's generation as SQLite stores it: refused past `i64::MAX`.
pub fn generation_column(entry: &StoreLogEntry) -> (r: Result<Option<i64>, StoreLogError>)
    ensures
        match entry.generation {
            None => r == Ok::<Option<i64>, StoreLogError>(None),
            Some(g) => if g <= i64::MAX {
                r == Ok::<Option<i64>, StoreLogError>(Some(g as i64))
            } else {
                r == Err::<Option<i64>, StoreLogError>(StoreLogError::InvalidEntry)
            },
        },
{
    match entry.generation {
        None => Ok(None),
        Some(g) => if g <= i64::MAX as u64 {
            Ok(Some(g as i64))
        } else {
            Err(StoreLogError::InvalidEntry)
        },
    }
}

/// A chunk index as SQLite stores it: refused past `i64::MAX`.
pub fn chunk_index_column(chunk_index: u64) -> (r: Result<i64, StoreLogError>)
    ensures
        chunk_index <= i64::MAX ==> r == Ok::<i64, StoreLogError>(chunk_index as i64),
        chunk_index > i64::MAX ==> r == Err::<i64, StoreLogError>(
            StoreLogError::InvalidChunkIndex { chunk_index },
        ),
{
    if chunk_index <= i64::MAX as u64 {
        Ok(chunk_index as i64)
    } else {
        Err(StoreLogError::InvalidChunkIndex { chunk_index })
    }
}

/// A request still takes entries while it has no terminal entry.
pub fn ensure_request_open(request_id: &str, has_terminal: bool) -> (r: Result<(), StoreLogError>)
    ensures
        r is Ok <==> !has_terminal,
        r matches Err(e) ==> (e matches StoreLogError::RequestAlreadyTerminal { request_id: id } && id@
            == request_id@),
{
    if has_terminal {
        Err(StoreLogError::RequestAlreadyTerminal { request_id: owned(request_id) })
    } else {
        Ok(())
    }
}

/// A request takes one terminal entry only.
pub fn ensure_no_terminal(request_id: &str, has_terminal: bool) -> (r: Result<(), StoreLogError>)
    ensures
        r is Ok <==> !has_terminal,
        r matches Err(e) ==> (e matches StoreLogError::TerminalAlreadyExists { request_id: id } && id@
            == request_id@),
{
    if has_terminal {
        Err(StoreLogError::TerminalAlreadyExists { request_id: owned(request_id) })
    } else {
        Ok(())
    }
}

/// Chunks arrive in order: `chunk_index` must be the request's next
/// chunk, one past its last (`next` is that count, never negative).
pub fn validate_next_chunk(request_id: &str, next: i64, chunk_index: u64) -> (r: Result<(), StoreLogError>)
    requires
        next >= 0,
    ensures
        r is Ok <==> chunk_index == next,
        r matches Err(e) ==> (e matches StoreLogError::ChunkOutOfOrder { request_id: id, expected, actual }
            && id@ == request_id@ && expected == next && actual == chunk_index),
{
    let expected = next as u64;
    if expected == chunk_index {
        Ok(())
    } else {
        Err(StoreLogError::ChunkOutOfOrder { request_id: owned(request_id), expected, actual: chunk_index })
    }
}

/// A progress chunk must point at a non-terminal entry of its own
/// request; `owner` is the request and terminal flag of the entry at
/// `sequence`, if there is one.
pub fn check_sequence_owner(request_id: &str, sequence: i64, owner: Option<(&str, bool)>) -> (r: Result<
    (),
    StoreLogError,
>)
    ensures
        match owner {
            None => r == Err::<(), StoreLogError>(StoreLogError::LogEntryNotFound { sequence }),
            Some((found, terminal)) => if found@ != request_id@ {
                r matches Err(e) && (e matches StoreLogError::RequestMismatch { sequence: s, expected, found: f }
                    && s == sequence && expected@ == request_id@ && f@ == found@)
            } else if terminal {
                r == Err::<(), StoreLogError>(StoreLogError::TerminalSequence { sequence })
            } else {
                r is Ok
            },
        },
{
    match owner {
        None => Err(StoreLogError::LogEntryNotFound { sequence }),
        Some((found, terminal)) => {
            if !crate::text::str_eq(found, request_id) {
                return Err(
                    StoreLogError::RequestMismatch {
                        sequence,
                        expected: owned(request_id),
                        found: owned(found),
                    },
                );
            }
            if terminal {
                return Err(StoreLogError::TerminalSequence { sequence });
            }
            Ok(())
        },
    }
}

/// The level a stored number names.
pub open spec fn level_of_number(value: i64) -> Option<StoreLevel> {
    if value == 1 {
        Some(StoreLevel::L1)
    } else if value == 2 {
        Some(StoreLevel::L2)
    } else if value == 3 {
        Some(StoreLevel::L3)
    } else {
        None
    }
}

/// Reads a stored level number.
pub fn parse_level(value: i64) -> (r: Result<StoreLevel, StoreLogError>)
    ensures
        match level_of_number(value) {
            Some(l) => r == Ok::<StoreLevel, StoreLogError>(l),
            None => r == Err::<StoreLevel, StoreLogError>(StoreLogError::InvalidLevel { value }),
        },
{
    if value == 1 {
        Ok(StoreLevel::L1)
    } else if value == 2 {
        Ok(StoreLevel::L2)
    } else if value == 3 {
        Ok(StoreLevel::L3)
    } else {
        Err(StoreLogError::InvalidLevel { value })
    }
}

/// A terminal row as SQLite returns it, read back into a record: a
/// negative generation is invalid, and a level must be 1, 2 or 3.
pub fn record_from_row(
    sequence: i64,
    request_id: String,
    event_kind: String,
    view_id: Option<String>,
    generation: Option<i64>,
    version_id: Option<i64>,
    level: Option<i64>,
    terminal: bool,
    payload_json: String,
    created_at: String,
) -> (r: Result<StoreLogRecord, StoreLogError>)
    ensures
        (generation matches Some(g) && g < 0) ==> r == Err::<StoreLogRecord, StoreLogError>(
            StoreLogError::InvalidEntry,
        ),
        !(generation matches Some(g) && g < 0) && (level matches Some(v) && level_of_number(v) is None) ==> r
            == Err::<StoreLogRecord, StoreLogError>(StoreLogError::InvalidLevel { value: level->0 }),
        !(generation matches Some(g) && g < 0) && !(level matches Some(v) && level_of_number(v) is None) ==> (r matches Ok(
            rec,
        ) && rec.sequence == sequence && rec.request_id == request_id && rec.event_kind == event_kind
            && rec.view_id == view_id && rec.generation == match generation {
            Some(g) => Some(g as u64),
            None => None::<u64>,
        } && rec.version_id == version_id && rec.level == match level {
            Some(v) => level_of_number(v),
            None => None::<StoreLevel>,
        } && rec.terminal == terminal && rec.payload_json == payload_json && rec.created_at == created_at),
{
    let generation = match generation {
        Some(g) => {
            if g < 0 {
                return Err(StoreLogError::InvalidEntry);
            }
            Some(g as u64)
        },
        None => None,
    };
    let level = match level {
        Some(v) => match parse_level(v) {
            Ok(l) => Some(l),
            Err(e) => {
                return Err(e);
            },
        },
        None => None,
    };
    Ok(
        StoreLogRecord {
            sequence,
            request_id,
            event_kind,
            view_id,
            generation,
            version_id,
            level,
            terminal,
            payload_json,
            created_at,
        },
    )
}

} // verus!

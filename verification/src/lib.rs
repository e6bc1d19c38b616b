//! Durable extraction artifact support: row domains, report codes, the
//! store layout rules, version floors, the coordinator's lease and queue
//! decisions, manifest canonicalization, and maintenance planning.

pub mod artifact_schema;
pub mod text;
pub mod sorted;
pub mod store;
pub mod model;
pub mod resolution_store;
pub mod resolution_buffer;
pub mod num;
pub mod json;
pub mod memory;
pub mod reports;
pub mod metadata;
pub mod jsonl;
pub mod messages;

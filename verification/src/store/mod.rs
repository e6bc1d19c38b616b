//! The multi-generation store: its layout on disk, connection floors, the
//! coordinator's lease and queue rules, the store log, manifests,
//! generation lifecycle, maintenance planning, and reader registration.

pub mod connection;
pub mod layout;
pub mod model;
pub mod coordinator;
pub mod maintenance;
pub mod reader;
pub mod log;
pub mod manifest;
pub mod factory;
pub mod generation;
pub mod upkeep;
pub mod session;
pub mod pragmas;
pub mod manifest_build;
pub mod manifest_delta;
pub mod inspector;
pub mod projection;
pub mod quantum;

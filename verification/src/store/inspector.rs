//! What a maintenance inspection runs with: a connection factory, a clock,
//! a source of free-space figures, and the size of the window in which
//! versions are read.

use vstd::prelude::*;

use crate::json::sha256;
use crate::store::factory::StoreConnectionFactory;
use crate::store::maintenance::fingerprint_text;
use crate::text::{le_u64, push_bytes, push_hex, push_le_u64, utf8_bytes};

verus! {

/// The standard library's `std::io::Error`, declared so that capacity
/// probes can report one; the library never looks inside it.
#[verifier::external_type_specification]
#[verifier::external_body]
pub struct ExIoError(std::io::Error);

/// A source of the current time, in milliseconds since the Unix epoch.
pub trait MaintenanceClock {
    fn now_ms(&self) -> i64;
}

/// A source of free-space figures for the volume that holds a path
/// (paths are carried as text, as in `StoreLayout`).
pub trait CapacityProvider {
    fn free_bytes(&self, path: &str) -> Result<u64, std::io::Error>;

    fn staged_generation_bytes(&self, path: &str) -> Result<u64, std::io::Error>;
}

/// Versions read per window unless the inspector is told otherwise.
pub const DEFAULT_WINDOW_SIZE: usize = 512;

/// The smallest window an inspector reads with.
pub const MIN_WINDOW_SIZE: usize = 1;

/// The largest window an inspector reads with.
pub const MAX_WINDOW_SIZE: usize = 1000;

/// Reads a store and its coordinator to build a maintenance plan.
pub struct MaintenanceInspector<C, P> {
    factory: StoreConnectionFactory,
    clock: C,
    capacity: P,
    window_size: usize,
}

impl<C: MaintenanceClock, P: CapacityProvider> MaintenanceInspector<C, P> {
    /// The window size in use.
    pub closed spec fn window_value(&self) -> usize {
        self.window_size
    }

    /// The factory it opens connections with.
    pub closed spec fn factory_value(&self) -> StoreConnectionFactory {
        self.factory
    }

    /// The clock it reads.
    pub closed spec fn clock_value(&self) -> C {
        self.clock
    }

    /// The source of free-space figures.
    pub closed spec fn capacity_value(&self) -> P {
        self.capacity
    }

    /// An inspector with the default window.
    pub fn new(factory: StoreConnectionFactory, clock: C, capacity: P) -> (r: Self)
        ensures
            r.window_value() == DEFAULT_WINDOW_SIZE,
            r.factory_value() == factory,
            r.clock_value() == clock,
            r.capacity_value() == capacity,
    {
        MaintenanceInspector { factory, clock, capacity, window_size: DEFAULT_WINDOW_SIZE }
    }

    /// The same inspector, reading `window_size` versions per window,
    /// brought into `MIN_WINDOW_SIZE..=MAX_WINDOW_SIZE`.
    pub fn with_window_size(self, window_size: usize) -> (r: Self)
        ensures
            r.window_value() == (if window_size < MIN_WINDOW_SIZE {
                MIN_WINDOW_SIZE
            } else if window_size > MAX_WINDOW_SIZE {
                MAX_WINDOW_SIZE
            } else {
                window_size
            }),
            r.factory_value() == self.factory_value(),
            r.clock_value() == self.clock_value(),
            r.capacity_value() == self.capacity_value(),
    {
        let clamped = if window_size < MIN_WINDOW_SIZE {
            MIN_WINDOW_SIZE
        } else if window_size > MAX_WINDOW_SIZE {
            MAX_WINDOW_SIZE
        } else {
            window_size
        };
        MaintenanceInspector {
            factory: self.factory,
            clock: self.clock,
            capacity: self.capacity,
            window_size: clamped,
        }
    }

    /// The window size in use.
    pub fn window_size(&self) -> (r: usize)
        ensures
            r == self.window_value(),
    {
        self.window_size
    }

    /// The factory it opens connections with.
    pub fn factory(&self) -> (r: &StoreConnectionFactory)
        ensures
            *r == self.factory_value(),
    {
        &self.factory
    }

    /// The clock it reads.
    pub fn clock(&self) -> (r: &C)
        ensures
            *r == self.clock_value(),
    {
        &self.clock
    }

    /// The source of free-space figures.
    pub fn capacity(&self) -> (r: &P)
        ensures
            *r == self.capacity_value(),
    {
        &self.capacity
    }
}

/// The fingerprint of a database file: the SHA-256 digest, as
/// `sha256:` and lowercase hexadecimal digits, of the bytes of its
/// canonical path followed by the eight little-endian bytes of its
/// length. The caller canonicalizes the path and reads the length.
pub fn root_fingerprint(canonical_path: &str, file_len: u64) -> (r: String)
    ensures
        r@ == fingerprint_text(utf8_bytes(canonical_path@) + le_u64(file_len)),
{
    let mut data: Vec<u8> = Vec::new();
    push_bytes(&mut data, canonical_path.as_bytes());
    push_le_u64(&mut data, file_len);
    assert(data@ =~= utf8_bytes(canonical_path@) + le_u64(file_len));
    let digest = sha256(data.as_slice());
    let mut text: Vec<char> = crate::text::chars_of("sha256:");
    push_hex(&mut text, digest.as_slice());
    proof {
        reveal_strlit("sha256:");
    }
    crate::text::string_of(text.as_slice())
}

} // verus!

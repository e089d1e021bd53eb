//! Reader for the Java Flight Recorder (JFR) binary recording format.
//!
//! A recording is a sequence of self-describing chunks.  Each chunk carries
//! its own schema (type metadata), an interned constant pool and a stream of
//! events.  The reader decodes a chunk held in memory: callers load the
//! recording bytes and hand them to [`reader::JfrReader`].

use vstd::prelude::*;

pub mod reader;

verus! {

/// Reserved event type id of the metadata event.
pub const EVENT_TYPE_METADATA: i64 = 0;

/// Reserved event type id of a constant-pool event.
pub const EVENT_TYPE_CONSTANT_POOL: i64 = 1;

/// Format version of a chunk, read from the bytes right after the magic.
/// Supported major versions are 1 and 2.
#[derive(Copy, Clone, Debug, Eq, PartialEq, Structural)]
pub struct Version {
    pub major: i16,
    pub minor: i16,
}

} // verus!

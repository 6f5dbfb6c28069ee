//! The checksum of a source file and the map of the checksums that an index has stored.

use crate::text_map::TextMap;
use vstd::prelude::*;

verus! {

/// What is remembered of a source file to see later whether it has changed: its length
/// in bytes and the time of its last change, as seconds and nanoseconds since the Unix
/// epoch.
#[derive(Debug, Clone, Copy, PartialEq, Eq, Structural)]
pub struct Checksum {
    pub length: u64,
    pub modified_secs: u64,
    pub modified_nanos: u32,
}

/// The checksums of the source files that an index holds, by the files' absolute paths.
pub type ChecksumMap = TextMap<Checksum>;

} // verus!

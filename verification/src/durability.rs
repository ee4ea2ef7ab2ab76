//! Durability policy for clove1db writes.

use vstd::prelude::*;

verus! {

/// How aggressively clove1db flushes data to durable storage.
///
/// Both modes always use atomic tmp→rename for sidecar files (migration JSON, blobs)
/// so a crash never leaves a final path half-written with NULs.
///
/// - `Strict` (default): `sync_all` on sidecar files and immediate durability on
///   database commits.
/// - `Fast`: skip fsync / immediate durability for throughput; still atomic.
#[derive(Debug, Clone, Copy, PartialEq, Eq, Structural)]
pub enum DurabilityMode {
    Strict,
    Fast,
}

impl DurabilityMode {
    /// The default mode: `Strict`.
    pub fn default_mode() -> (r: Self)
        ensures
            r == DurabilityMode::Strict,
    {
        DurabilityMode::Strict
    }

    pub fn is_strict(self) -> (r: bool)
        ensures
            r == (self == DurabilityMode::Strict),
    {
        matches!(self, DurabilityMode::Strict)
    }

    pub fn is_fast(self) -> (r: bool)
        ensures
            r == (self == DurabilityMode::Fast),
    {
        matches!(self, DurabilityMode::Fast)
    }
}

impl Default for DurabilityMode {
    fn default() -> (r: Self)
        ensures
            r == DurabilityMode::Strict,
    {
        DurabilityMode::Strict
    }
}

/// Default max entries per redb commit batch (writes + deletes).
pub const DEFAULT_MAX_COMMIT_BATCH_ENTRIES: usize = 512;

} // verus!

//! Data-cache statistics of an opened dataset.

use vstd::prelude::*;

verus! {

/// Data-cache statistics owned by one opened dataset.
#[derive(Clone, Copy, Debug, PartialEq, Eq, Structural)]
pub struct LanceDataCacheStatistics {
    /// Requested bytes returned from usable data-cache entries.
    pub bytes_read_from_cache: u64,
    /// Requested bytes returned after a data-cache miss or fallback.
    pub bytes_read_from_remote: u64,
}

impl Default for LanceDataCacheStatistics {
    fn default() -> (statistics: LanceDataCacheStatistics)
        ensures
            statistics == (LanceDataCacheStatistics {
                bytes_read_from_cache: 0,
                bytes_read_from_remote: 0,
            }),
    {
        LanceDataCacheStatistics { bytes_read_from_cache: 0, bytes_read_from_remote: 0 }
    }
}

} // verus!

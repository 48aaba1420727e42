//! Shared Lance sessions.

use vstd::prelude::*;
use vstd::string::StringExecFns;

use crate::error;
use crate::error::{ffi_try, LanceError, LastError};
use crate::text;

verus! {

/// Snapshot of a session's metadata and index cache statistics.
#[derive(Clone, Copy, Debug, PartialEq, Eq, Structural)]
pub struct LanceSessionCacheStats {
    pub index_cache_hits: u64,
    pub index_cache_misses: u64,
    pub index_cache_entries: u64,
    pub index_cache_size_bytes: u64,
    pub metadata_cache_hits: u64,
    pub metadata_cache_misses: u64,
    pub metadata_cache_entries: u64,
    pub metadata_cache_size_bytes: u64,
}

/// Statistics of one cache of a session.
#[derive(Clone, Copy, Debug, PartialEq, Eq, Structural)]
pub struct CacheStats {
    pub hits: u64,
    pub misses: u64,
    pub num_entries: usize,
    pub size_bytes: usize,
}

/// What a number that does not fit in `usize` reports.
pub open spec fn exceeds_usize(value: u64, field: Seq<char>) -> Option<error::Report> {
    if value > usize::MAX {
        Some(
            error::invalid(
                field + "="@ + text::decimal(value as nat) + " exceeds usize::MAX on this target"@,
            ),
        )
    } else {
        None
    }
}

/// Converts a number of the C interface; `field` names it in the failure.
pub fn u64_to_usize(value: u64, field: &str) -> (result: Result<usize, LanceError>)
    ensures
        match result {
            Ok(converted) => converted == value && exceeds_usize(value, field@) is None,
            Err(error) => exceeds_usize(value, field@) == Some(error@),
        },
{
    if value > usize::MAX as u64 {
        let mut message: String = field.to_owned();
        message.append("=");
        text::push_decimal(&mut message, value);
        message.append(" exceeds usize::MAX on this target");
        return Err(LanceError::invalid_text(message));
    }
    Ok(value as usize)
}

/// How a session is built: the size of each cache. The index cache has its own
/// size unless a backend brings its own.
#[derive(Clone, Copy, Debug, PartialEq, Eq, Structural)]
pub enum SessionPlan {
    /// Both caches live in memory.
    InMemory { index_cache_size_bytes: usize, metadata_cache_size_bytes: usize },
    /// A backend serves index entries.
    WithIndexBackend { metadata_cache_size_bytes: usize },
}

/// The first size of a session that does not fit in `usize`.
pub open spec fn session_sizes_failure(
    index_cache_size_bytes: u64,
    metadata_cache_size_bytes: u64,
) -> Option<error::Report> {
    if exceeds_usize(index_cache_size_bytes, "index_cache_size_bytes"@) is Some {
        exceeds_usize(index_cache_size_bytes, "index_cache_size_bytes"@)
    } else {
        exceeds_usize(metadata_cache_size_bytes, "metadata_cache_size_bytes"@)
    }
}

/// Plans a session.
pub fn session_new_with_factories(
    index_cache_size_bytes: u64,
    metadata_cache_size_bytes: u64,
    has_index_backend: bool,
) -> (result: Result<SessionPlan, LanceError>)
    ensures
        match result {
            Ok(plan) => {
                &&& session_sizes_failure(index_cache_size_bytes, metadata_cache_size_bytes) is None
                &&& plan == (if has_index_backend {
                    SessionPlan::WithIndexBackend {
                        metadata_cache_size_bytes: metadata_cache_size_bytes as usize,
                    }
                } else {
                    SessionPlan::InMemory {
                        index_cache_size_bytes: index_cache_size_bytes as usize,
                        metadata_cache_size_bytes: metadata_cache_size_bytes as usize,
                    }
                })
            },
            Err(error) => session_sizes_failure(index_cache_size_bytes, metadata_cache_size_bytes)
                == Some(error@),
        },
{
    let index_cache_size_bytes: usize = match u64_to_usize(
        index_cache_size_bytes,
        "index_cache_size_bytes",
    ) {
        Ok(size) => size,
        Err(error) => {
            return Err(error);
        },
    };
    let metadata_cache_size_bytes: usize = match u64_to_usize(
        metadata_cache_size_bytes,
        "metadata_cache_size_bytes",
    ) {
        Ok(size) => size,
        Err(error) => {
            return Err(error);
        },
    };
    if has_index_backend {
        Ok(SessionPlan::WithIndexBackend { metadata_cache_size_bytes })
    } else {
        Ok(SessionPlan::InMemory { index_cache_size_bytes, metadata_cache_size_bytes })
    }
}

/// Copies the statistics of a session's caches: `session` holds those of the
/// index cache and of the metadata cache.
pub fn lance_session_get_cache_stats(
    last: &mut LastError,
    session: Option<(CacheStats, CacheStats)>,
    out_stats: Option<&mut LanceSessionCacheStats>,
) -> (status: i32)
    ensures
        error::reports(
            status,
            final(last)@,
            if session is None || out_stats is None {
                Some(error::invalid("session and out_stats must not be NULL"@))
            } else {
                None
            },
        ),
        out_stats matches Some(out) ==> *final(out) == (match session {
            None => *out,
            Some((index, metadata)) => LanceSessionCacheStats {
                index_cache_hits: index.hits,
                index_cache_misses: index.misses,
                index_cache_entries: index.num_entries as u64,
                index_cache_size_bytes: index.size_bytes as u64,
                metadata_cache_hits: metadata.hits,
                metadata_cache_misses: metadata.misses,
                metadata_cache_entries: metadata.num_entries as u64,
                metadata_cache_size_bytes: metadata.size_bytes as u64,
            },
        }),
{
    match (session, out_stats) {
        (Some((index, metadata)), Some(out)) => {
            *out = LanceSessionCacheStats {
                index_cache_hits: index.hits,
                index_cache_misses: index.misses,
                index_cache_entries: index.num_entries as u64,
                index_cache_size_bytes: index.size_bytes as u64,
                metadata_cache_hits: metadata.hits,
                metadata_cache_misses: metadata.misses,
                metadata_cache_entries: metadata.num_entries as u64,
                metadata_cache_size_bytes: metadata.size_bytes as u64,
            };
            ffi_try(last, Ok(()))
        },
        _ => ffi_try(
            last,
            Err(LanceError::invalid("session and out_stats must not be NULL")),
        ),
    }
}

/// A size is refused if and only if memory cannot address it, with its own name; the
/// sizes of a session are checked one by one, that of the index cache first.
pub proof fn law_sizes_must_be_addressable(index: u64, metadata: u64, field: Seq<char>)
    ensures
        exceeds_usize(index, field) is None <==> index <= usize::MAX,
        index > usize::MAX ==> exceeds_usize(index, field) == Some(
            error::invalid(
                field + "="@ + text::decimal(index as nat)
                    + " exceeds usize::MAX on this target"@,
            ),
        ),
        session_sizes_failure(index, metadata) is None <==> index <= usize::MAX && metadata
            <= usize::MAX,
        index > usize::MAX ==> session_sizes_failure(index, metadata) == Some(
            error::invalid(
                "index_cache_size_bytes"@ + "="@ + text::decimal(index as nat)
                    + " exceeds usize::MAX on this target"@,
            ),
        ),
        index <= usize::MAX && metadata > usize::MAX ==> session_sizes_failure(index, metadata)
            == Some(
            error::invalid(
                "metadata_cache_size_bytes"@ + "="@ + text::decimal(metadata as nat)
                    + " exceeds usize::MAX on this target"@,
            ),
        ),
{
}

} // verus!

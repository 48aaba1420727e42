//! Restoring a dataset to an older version.

use vstd::prelude::*;

use crate::error;
use crate::error::LanceError;

verus! {

/// How a version is restored: it is checked out and always committed anew, even
/// where it is the latest already, so that a concurrent writer cannot stay
/// ahead of it.
#[derive(Clone, Copy, Debug, PartialEq, Eq, Structural)]
pub struct RestorePlan {
    /// The version to check out.
    pub version: u64,
    /// Whether a new manifest is committed.
    pub commit: bool,
    /// Whether the restored dataset gets statistics of its own.
    pub attach_data_cache: bool,
}

/// The first failure among the arguments of a restore.
pub open spec fn restore_failure(dataset_is_null: bool, version: u64) -> Option<error::Report> {
    if dataset_is_null {
        Some(error::invalid("dataset must not be NULL"@))
    } else if version == 0 {
        Some(
            error::invalid("version must be >= 1; 0 is reserved as the \"latest\" sentinel"@),
        )
    } else {
        None
    }
}

/// Plans a restore.
pub fn restore_inner(dataset_is_null: bool, version: u64, has_data_cache: bool) -> (result: Result<
    RestorePlan,
    LanceError,
>)
    ensures
        match result {
            Ok(plan) => restore_failure(dataset_is_null, version) is None && plan == (RestorePlan {
                version,
                commit: true,
                attach_data_cache: has_data_cache,
            }),
            Err(error) => restore_failure(dataset_is_null, version) == Some(error@),
        },
{
    if dataset_is_null {
        return Err(LanceError::invalid("dataset must not be NULL"));
    }
    if version == 0 {
        return Err(
            LanceError::invalid(
                "version must be >= 1; 0 is reserved as the \"latest\" sentinel",
            ),
        );
    }
    Ok(RestorePlan { version, commit: true, attach_data_cache: has_data_cache })
}

/// A restore is accepted if and only if there is a dataset and the version is not the
/// one that stands for the latest.
pub proof fn law_restore_needs_a_version(dataset_is_null: bool, version: u64)
    ensures
        restore_failure(dataset_is_null, version) is None <==> !dataset_is_null && version >= 1,
        dataset_is_null ==> restore_failure(dataset_is_null, version) == Some(
            error::invalid("dataset must not be NULL"@),
        ),
        !dataset_is_null && version < 1 ==> restore_failure(dataset_is_null, version) == Some(
            error::invalid("version must be >= 1; 0 is reserved as the \"latest\" sentinel"@),
        ),
{
}

} // verus!

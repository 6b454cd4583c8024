//! The cached project list and how long it may be used.

use crate::error::Error;
use crate::toggl::Project;
use vstd::prelude::*;

verus! {

/// The age in seconds beyond which the cached project list counts no more:
/// five minutes.
pub const CACHE_EXPIRY_SECS: u64 = 5 * 60;

/// What is known of the time at which the cache was last written.
#[derive(Debug, Clone, Copy, PartialEq, Eq, Structural)]
pub enum Modified {
    /// The time is not recorded.
    Unknown,
    /// The cache was written this many whole seconds ago.
    SecondsAgo(u64),
    /// The cache claims to have been written in the future.
    Ahead,
}

/// The age of the cache in seconds, where one is known. A cache written in
/// the future counts as just too old.
pub open spec fn age_secs(modified: Modified) -> Option<u64> {
    match modified {
        Modified::Unknown => None,
        Modified::SecondsAgo(secs) => Some(secs),
        Modified::Ahead => Some((CACHE_EXPIRY_SECS + 1) as u64),
    }
}

/// Whether the cache is too old to be used. A cache of unknown age is not.
pub open spec fn expired(modified: Modified) -> bool {
    match age_secs(modified) {
        Some(secs) => secs > CACHE_EXPIRY_SECS,
        None => false,
    }
}

/// Whether the cache is too old to be used.
pub fn is_expired(modified: Modified) -> (r: bool)
    ensures
        r == expired(modified),
{
    let age = match modified {
        Modified::Unknown => {
            return false;
        },
        Modified::SecondsAgo(secs) => secs,
        Modified::Ahead => CACHE_EXPIRY_SECS + 1,
    };
    age > CACHE_EXPIRY_SECS
}

/// The cached project list, where it may be used: it must not have expired
/// and must have been read. `contents` is what was read from the cache, if
/// anything could be.
pub fn retrieve_projects_cache(modified: Modified, contents: Option<Vec<Project>>) -> (r: Result<
    Vec<Project>,
    Error,
>)
    ensures
        match r {
            Ok(projects) => !expired(modified) && contents == Some(projects),
            Err(e) => if expired(modified) {
                e is CacheExpired
            } else {
                contents is None && e is CacheUnreadable
            },
        },
{
    if is_expired(modified) {
        return Err(Error::CacheExpired);
    }
    match contents {
        Some(projects) => Ok(projects),
        None => Err(Error::CacheUnreadable),
    }
}

} // verus!

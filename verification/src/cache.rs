//! The on-disk cache of upstream version lists: an entry is fresh while
//! its age is within the time-to-live; a stale entry is still used when
//! the upstream cannot be reached.

use vstd::prelude::*;

verus! {

/// How long upstream version lists stay fresh: six hours, in seconds.
pub const PACKAGE_CACHE_TTL_SECS: u64 = 21600;

/// A cache file and how long its contents stay fresh.
pub struct DiskCache {
    pub path: String,
    /// The time-to-live: whole seconds and nanoseconds.
    pub ttl_secs: u64,
    pub ttl_nanos: u32,
}

/// `a > b` for durations given as seconds and nanoseconds.
pub open spec fn longer(a_secs: u64, a_nanos: u32, b_secs: u64, b_nanos: u32) -> bool {
    a_secs > b_secs || (a_secs == b_secs && a_nanos > b_nanos)
}

impl DiskCache {
    /// A cache at `path` whose contents stay fresh for `ttl_secs` seconds.
    pub fn new(path: String, ttl_secs: u64) -> (r: DiskCache)
        ensures
            r.path@ == path@,
            r.ttl_secs == ttl_secs,
            r.ttl_nanos == 0,
    {
        DiskCache { path, ttl_secs, ttl_nanos: 0 }
    }

    /// Whether the cached contents may be served without asking upstream,
    /// given the file's age (`None` when the file, its modification time,
    /// or an age not in the future could not be had): fresh unless older
    /// than the time-to-live.
    pub fn is_fresh(&self, age: Option<(u64, u32)>) -> (r: bool)
        ensures
            r == match age {
                Some((s, n)) => !longer(s, n, self.ttl_secs, self.ttl_nanos),
                None => false,
            },
    {
        match age {
            Some((s, n)) => !(s > self.ttl_secs || (s == self.ttl_secs && n > self.ttl_nanos)),
            None => false,
        }
    }
}

} // verus!

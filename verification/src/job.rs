//! The per-profile execution context.
//!
//! A [`Job`] bundles the configuration of one profile's pipeline run —
//! the profile path, the retention cutoff and the minimum count to keep
//! — with a payload slot that each pipeline stage replaces.  The
//! configuration never changes across stages; only the payload moves.

use vstd::prelude::*;

use crate::timestamp::Timestamp;

verus! {

/// One profile's pipeline context: immutable configuration plus the
/// payload of the current stage.
#[derive(Debug, PartialEq, Eq)]
pub struct Job<T> {
    path: String,
    keep_since: Timestamp,
    keep_at_least: usize,
    data: T,
}

impl<T> Job<T> {
    /// The profile path this job works on.
    pub closed spec fn spec_path(&self) -> Seq<char> {
        self.path@
    }

    /// The retention cutoff: generations potentially active at or after
    /// this time are kept.
    pub closed spec fn spec_keep_since(&self) -> Timestamp {
        self.keep_since
    }

    /// The minimum number of recent generations to keep.
    pub closed spec fn spec_keep_at_least(&self) -> usize {
        self.keep_at_least
    }

    /// The payload of the current stage.
    pub closed spec fn spec_data(&self) -> T {
        self.data
    }

    /// Creates a new job for the profile at `path`.
    pub fn new(path: String, keep_since: Timestamp, keep_at_least: usize, data: T) -> (r: Job<T>)
        ensures
            r.spec_path() == path@,
            r.spec_keep_since() == keep_since,
            r.spec_keep_at_least() == keep_at_least,
            r.spec_data() == data,
    {
        Job { path, keep_since, keep_at_least, data }
    }

    /// The profile path.
    pub fn path(&self) -> (r: &String)
        ensures
            r@ == self.spec_path(),
    {
        &self.path
    }

    /// The retention cutoff date.
    pub fn keep_since(&self) -> (r: Timestamp)
        ensures
            r == self.spec_keep_since(),
    {
        self.keep_since
    }

    /// The minimum number of recent generations to keep.
    pub fn keep_at_least(&self) -> (r: usize)
        ensures
            r == self.spec_keep_at_least(),
    {
        self.keep_at_least
    }

    /// The payload of the current stage.
    pub fn data(&self) -> (r: &T)
        ensures
            r == &self.spec_data(),
    {
        &self.data
    }

    /// Returns a new job with the same configuration and `data` as the
    /// payload.
    pub fn set_data<U>(&self, data: U) -> (r: Job<U>)
        ensures
            r.spec_path() == self.spec_path(),
            r.spec_keep_since() == self.spec_keep_since(),
            r.spec_keep_at_least() == self.spec_keep_at_least(),
            r.spec_data() == data,
    {
        Job { path: self.path.clone(), keep_since: self.keep_since, keep_at_least: self.keep_at_least, data }
    }
}

} // verus!

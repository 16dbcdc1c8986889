//! Pruning of point-in-time snapshots ("generations") of versioned profile
//! directories.
//!
//! The crate centres on two pieces: the retention algorithm, which selects
//! the generations that are safe to delete while honouring a count-based
//! floor and an age-based floor, and the per-profile pipeline that drives
//! that algorithm and isolates failures between profiles.  The external
//! snapshot manager is only ever spoken to through plain values: callers
//! hand its textual output in and carry the selected generation ids out.

use vstd::prelude::*;

pub mod gc;
pub mod generation;
pub mod generation_set;
pub mod interface;
pub mod job;
pub mod pipeline;
pub mod profiles;
pub mod text;
pub mod timestamp;
pub mod user;

pub use generation::Generation;
pub use generation::ParseError;
pub use generation_set::GenerationSet;
pub use job::Job;
pub use profiles::Profile;
pub use timestamp::Timestamp;

verus! {

/// Wraps `value` in `Some` when `condition` holds, and returns `None`
/// otherwise.
pub fn optional<T>(condition: bool, value: T) -> (r: Option<T>)
    ensures
        r == if condition {
            Option::Some(value)
        } else {
            Option::None::<T>
        },
{
    match condition {
        true => Some(value),
        false => None,
    }
}

} // verus!

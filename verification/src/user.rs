//! Identity lookups as plain decisions.
//!
//! Discovering the invoking user is a stateless query against the
//! operating system: callers read the current user id and the relevant
//! environment variables and hand the plain values in; the decisions
//! here are pure.

use vstd::prelude::*;

verus! {

/// Whether the given user id is the superuser's.
pub fn is_root(uid: u32) -> (r: bool)
    ensures
        r == (uid == 0),
{
    uid == 0
}

/// Picks the real username behind the process: when running as the
/// superuser the invoking user is the value of `SUDO_USER`, otherwise
/// the value of `USER`.
pub fn get_real_username(root: bool, sudo_user: Option<String>, user: Option<String>) -> (r: Option<
    String,
>)
    ensures
        root ==> r == sudo_user,
        !root ==> r == user,
{
    if root {
        sudo_user
    } else {
        user
    }
}

} // verus!

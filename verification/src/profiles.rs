//! Profile paths.
//!
//! A [`Profile`] names the path of one versioned profile directory.
//! The default paths for a user follow fixed templates; only the
//! username varies, and the system profile is added for the superuser.
//! Reading the identity and environment that feed the username is the
//! caller's concern (see [`crate::user`]).

use vstd::prelude::*;

verus! {

/// The path of one profile directory.
#[derive(Debug, Clone, PartialEq, Eq)]
pub struct Profile {
    path: String,
}

impl Profile {
    /// The path this profile lives at.
    pub closed spec fn spec_path(&self) -> Seq<char> {
        self.path@
    }

    /// Creates a profile from the given path.
    pub fn new(path: String) -> (r: Profile)
        ensures
            r.spec_path() == path@,
    {
        Profile { path }
    }

    /// The path this profile lives at.
    pub fn path(&self) -> (r: &String)
        ensures
            r@ == self.spec_path(),
    {
        &self.path
    }

    /// The default profile paths for the named user: the per-user
    /// profile and the home-manager profile, plus the system profile
    /// when running as the superuser.
    pub fn all_for_user(username: &str, root: bool) -> (r: Vec<Profile>)
        ensures
            r@.len() == if root {
                3int
            } else {
                2int
            },
            r@[0].spec_path() == "/nix/var/nix/profiles/per-user/"@ + username@ + "/profile"@,
            r@[1].spec_path() == "/home/"@ + username@
                + "/.local/state/nix/profiles/home-manager"@,
            root ==> r@[2].spec_path() == "/nix/var/nix/profiles/system"@,
    {
        let mut out: Vec<Profile> = Vec::new();
        let per_user = String::from_str("/nix/var/nix/profiles/per-user/").concat(
            username,
        ).concat("/profile");
        out.push(Profile { path: per_user });
        let home = String::from_str("/home/").concat(username).concat(
            "/.local/state/nix/profiles/home-manager",
        );
        out.push(Profile { path: home });
        if root {
            out.push(Profile { path: String::from_str("/nix/var/nix/profiles/system") });
        }
        out
    }
}

} // verus!

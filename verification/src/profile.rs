//! Choosing the profile that is currently in use.

use vstd::prelude::*;
use vstd::string::*;

use crate::models::{Profile, ProfileView};

verus! {

/// One profile of an account, as the upstream service lists it.
#[derive(Debug)]
pub struct ProfileDescriptor {
    pub profile_id: String,
    pub username: String,
    pub profile_name: String,
    pub avatar: String,
    pub maturity_rating: String,
    pub is_primary: bool,
    pub is_selected: bool,
}

/// Why no profile could be chosen.
#[derive(Clone, Copy, Debug, PartialEq, Eq, Structural)]
pub enum ProfileError {
    /// No listed profile is flagged as selected.
    NoActiveProfile,
}

impl ProfileError {
    /// The error in words.
    pub fn message(&self) -> (r: String)
        ensures
            r@ == "No active profile found"@,
    {
        String::from_str("No active profile found")
    }
}

/// The profile record made of a descriptor.
pub open spec fn profile_of(d: ProfileDescriptor) -> ProfileView {
    ProfileView {
        profile_id: d.profile_id@,
        username: d.username@,
        profile_name: d.profile_name@,
        avatar: d.avatar@,
        maturity_rating: d.maturity_rating@,
        is_primary: d.is_primary,
    }
}

/// Whether `i` is the position of the first selected profile of `profiles`.
pub open spec fn first_selected(profiles: Seq<ProfileDescriptor>, i: int) -> bool {
    &&& 0 <= i < profiles.len()
    &&& profiles[i].is_selected
    &&& forall|j: int| 0 <= j < i ==> !(#[trigger] profiles[j]).is_selected
}

/// Picks the first profile that is flagged as selected; fails when none is.
pub fn select_active(profiles: Vec<ProfileDescriptor>) -> (r: Result<Profile, ProfileError>)
    ensures
        match r {
            Ok(p) => exists|i: int| #[trigger]
                first_selected(profiles@, i) && p@ == profile_of(profiles@[i]),
            Err(e) => e == ProfileError::NoActiveProfile && forall|i: int|
                0 <= i < profiles@.len() ==> !(#[trigger] profiles@[i]).is_selected,
        },
{
    let mut i: usize = 0;
    while i < profiles.len()
        invariant
            i <= profiles.len(),
            forall|j: int| 0 <= j < i ==> !(#[trigger] profiles@[j]).is_selected,
        decreases profiles.len() - i,
    {
        if profiles[i].is_selected {
            let active = &profiles[i];
            let p = Profile {
                profile_id: active.profile_id.clone(),
                username: active.username.clone(),
                profile_name: active.profile_name.clone(),
                avatar: active.avatar.clone(),
                maturity_rating: active.maturity_rating.clone(),
                is_primary: active.is_primary,
            };
            proof {
                assert(first_selected(profiles@, i as int));
            }
            return Ok(p);
        }
        i += 1;
    }
    Err(ProfileError::NoActiveProfile)
}

} // verus!

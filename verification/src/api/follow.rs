//! The follow toggle, dispatched from one entry point.

use vstd::prelude::*;

use crate::domain::{Profile, ProfileView, User};
use crate::errors::GetUserError;
use crate::store::users::profile_of_record;
use crate::store::{follow_tr, unfollow_tr, Repository, StoreModel};

verus! {

/// Which way the follow toggle is applied.
#[derive(Clone, Copy, PartialEq, Eq, Structural, Debug)]
pub enum Action {
    Follow,
    Unfollow,
}

/// Applies the follow toggle for this user on this profile and returns the
/// up-to-date view. After `Follow` the view says following; after
/// `Unfollow` it does not, unless the profile is the user's own — the
/// self-follow from creation is permanent.
pub fn apply(user: &User, profile: Profile, action: Action, repo: &mut Repository) -> (r: Result<
    ProfileView,
    GetUserError,
>)
    requires
        old(repo).wf(),
    ensures
        final(repo).wf(),
        r is Ok <==> old(repo)@.has_username(profile.username@) && (action == Action::Follow
            ==> old(repo)@.has_user_id(user.id)),
        r matches Err(e) ==> final(repo)@ == old(repo)@ && (!old(repo)@.has_username(
            profile.username@,
        ) ==> (e matches GetUserError::NotFoundByUsername { username: n } && n@
            == profile.username@)),
        r matches Ok(v) ==> {
            let m = old(repo)@;
            let m2 = final(repo)@;
            let followed = m.users[m.username_idx(profile.username@)];
            &&& v.viewer == user.id
            &&& v.profile == profile_of_record(followed)
            &&& (action == Action::Follow ==> v.following && m2.follows == follow_tr(
                m.follows,
                user.id,
                followed.id,
            ) && m2 == (StoreModel { follows: m2.follows, ..m }) && m2.is_following(
                user.id,
                followed.id,
            ))
            &&& (action == Action::Unfollow && followed.id == user.id ==> m2 == m && v.following)
            &&& (action == Action::Unfollow && followed.id != user.id ==> !v.following
                && m2.follows == unfollow_tr(m.follows, user.id, followed.id) && m2 == (StoreModel {
                follows: m2.follows,
                ..m
            }) && !m2.is_following(user.id, followed.id))
        },
{
    match action {
        Action::Follow => user.follow(profile, repo),
        Action::Unfollow => user.unfollow(profile, repo),
    }
}

} // verus!

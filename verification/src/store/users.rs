//! User rows: sign-up, partial update, lookups, login, and the follow
//! relationship.

use vstd::prelude::*;

use crate::domain::{Profile, ProfileView, SignUp, User, UserUpdate};
use crate::errors::{DatabaseError, GetUserError, LoginError, SignUpError};
use crate::password::{hash_of, lemma_hash_well_formed, HashedPassword};
use crate::store::{
    follow_tr, follows_contains, follows_pair_count, lemma_email_idx, lemma_follows_filter,
    lemma_follows_prefix, lemma_has_slug_prefix, lemma_has_user_id_prefix, lemma_user_idx,
    lemma_username_idx, unfollow_tr, FollowRecord, Repository, StoreModel, UserRecord,
};

verus! {

/// The user value a stored row denotes.
pub open spec fn user_of_record(rec: UserRecord) -> User {
    User {
        id: rec.id,
        email: rec.email,
        profile: Profile { username: rec.username, bio: rec.bio, image: rec.image },
    }
}

/// The profile a stored row denotes.
pub open spec fn profile_of_record(rec: UserRecord) -> Profile {
    Profile { username: rec.username, bio: rec.bio, image: rec.image }
}

/// When sign-up is owed success: free username, free email, and an id
/// counter that has not reached the machine limit.
pub open spec fn can_sign_up(m: StoreModel, username: Seq<char>, email: Seq<char>) -> bool {
    !m.has_username(username) && !m.has_email(email) && m.next_user_id < u128::MAX as int
}

impl Repository {
    /// Signs a new user up: checks username and email uniqueness, stores
    /// the password hash (never the clear text), and establishes the
    /// self-follow relationship in the same logical unit.
    pub fn sign_up(&mut self, sign_up: SignUp) -> (r: Result<User, SignUpError>)
        requires
            old(self).wf(),
        ensures
            final(self).wf(),
            r is Ok <==> can_sign_up(old(self)@, sign_up.username@, sign_up.email@),
            r matches Err(e) ==> final(self)@ == old(self)@ && (e == SignUpError::UsernameTaken <==> old(
                self,
            )@.has_username(sign_up.username@)) && (e == SignUpError::EmailTaken <==> !old(
                self,
            )@.has_username(sign_up.username@) && old(self)@.has_email(sign_up.email@)),
            r matches Ok(u) ==> {
                let m = old(self)@;
                let m2 = final(self)@;
                let rec = m2.users.last();
                &&& u.id == m.next_user_id as u128
                &&& u.email == sign_up.email
                &&& u.profile.username == sign_up.username
                &&& u.profile.bio is None
                &&& u.profile.image is None
                &&& m2.users == m.users.push(rec)
                &&& rec.id == u.id
                &&& rec.username == sign_up.username
                &&& rec.email == sign_up.email
                &&& rec.password_hash@ == hash_of(sign_up.password.clear_text())
                &&& rec.bio is None
                &&& rec.image is None
                &&& m2.follows == m.follows.push(
                    FollowRecord { follower_id: u.id, followed_id: u.id },
                )
                &&& m2.is_following(u.id, u.id)
                &&& m2.articles == m.articles
                &&& m2.comments == m.comments
                &&& m2.favorites == m.favorites
                &&& m2.next_user_id == m.next_user_id + 1
                &&& m2.next_comment_id == m.next_comment_id
                &&& m2.clock == m.clock
            },
    {
        if self.find_user_by_username(sign_up.username.as_str()).is_some() {
            return Err(SignUpError::UsernameTaken);
        }
        if self.find_user_by_email(sign_up.email.as_str()).is_some() {
            return Err(SignUpError::EmailTaken);
        }
        if self.next_user_id == u128::MAX {
            return Err(SignUpError::DatabaseError);
        }
        let ghost m = self@;
        let id = self.next_user_id;
        let hashed = sign_up.password.hash();
        let rec = UserRecord {
            id,
            username: sign_up.username.clone(),
            email: sign_up.email.clone(),
            password_hash: hashed.into_string(),
            bio: Option::None,
            image: Option::None,
        };
        self.users.push(rec);
        self.follows.push(FollowRecord { follower_id: id, followed_id: id });
        self.next_user_id = id + 1;
        proof {
            let m2 = self@;
            lemma_hash_well_formed(sign_up.password.clear_text());
            lemma_has_user_id_prefix(m, m2);
            lemma_has_slug_prefix(m, m2);
            lemma_follows_prefix(m.follows, m2.follows);
            // The new follow row references a fresh id no old row carries.
            assert forall|i: int|
                0 <= i < m.follows.len() implies (#[trigger] m2.follows[i]).follower_id != id && (
            m2.follows[i]).followed_id != id by {
                assert(m.has_user_id(m.follows[i].follower_id));
                assert(m.has_user_id(m.follows[i].followed_id));
                let a = choose|j: int|
                    0 <= j < m.users.len() && (#[trigger] m.users[j]).id == m.follows[
                        i
                    ].follower_id;
                let b = choose|j: int|
                    0 <= j < m.users.len() && (#[trigger] m.users[j]).id == m.follows[
                        i
                    ].followed_id;
                assert(m.users[a].id < m.next_user_id);
                assert(m.users[b].id < m.next_user_id);
            }
            assert(m2.users_wf()) by {
                assert(follows_contains(m2.follows, id, id)) by {
                    assert(m2.follows.last().follower_id == id);
                }
                assert forall|i: int| 0 <= i < m2.users.len() implies m2.is_following(
                    (#[trigger] m2.users[i]).id,
                    m2.users[i].id,
                ) by {
                    if i < m.users.len() {
                        assert(m.is_following(m.users[i].id, m.users[i].id));
                    }
                }
            }
            assert(m2.articles_wf());
            assert(m2.comments == m.comments);
            assert(m2.clock == m.clock);
            assert(m2.next_comment_id == m.next_comment_id);
            assert forall|i: int| 0 <= i < m2.comments.len() implies m2.has_slug(
                (#[trigger] m2.comments[i]).article_slug@,
            ) && m2.has_user_id(m2.comments[i].author_id) by {
                assert(m.comments[i] == m2.comments[i]);
                assert(m.has_slug(m.comments[i].article_slug@));
                assert(m.has_user_id(m.comments[i].author_id));
            }
            assert(m2.comments_wf());
            assert(m2.favorites == m.favorites);
            assert forall|i: int| 0 <= i < m2.favorites.len() implies m2.has_slug(
                (#[trigger] m2.favorites[i]).article_slug@,
            ) && m2.has_user_id(m2.favorites[i].user_id) by {
                assert(m.favorites[i] == m2.favorites[i]);
                assert(m.has_slug(m.favorites[i].article_slug@));
                assert(m.has_user_id(m.favorites[i].user_id));
            }
            assert(m2.favorites_wf());
            assert(m2.follows_wf()) by {
                assert(m2.has_user_id(id)) by {
                    assert(m2.users.last().id == id);
                }
            }
        }
        Ok(
            User {
                id,
                email: sign_up.email,
                profile: Profile {
                    username: sign_up.username,
                    bio: Option::None,
                    image: Option::None,
                },
            },
        )
    }
    /// Builds the user value of the row at a known index.
    fn user_at(&self, i: usize) -> (u: User)
        requires
            0 <= i < self@.users.len(),
        ensures
            u == user_of_record(self@.users[i as int]),
    {
        let rec = &self.users[i];
        User {
            id: rec.id,
            email: rec.email.clone(),
            profile: Profile {
                username: rec.username.clone(),
                bio: crate::domain::clone_opt_string(&rec.bio),
                image: crate::domain::clone_opt_string(&rec.image),
            },
        }
    }

    /// Looks a user up by id; `Ok` exactly when the id exists.
    pub fn get_user_by_id(&self, user_id: u128) -> (r: Result<User, GetUserError>)
        requires
            self.wf(),
        ensures
            r is Ok <==> self@.has_user_id(user_id),
            r matches Ok(u) ==> u == user_of_record(self@.users[self@.user_idx(user_id)]),
            r matches Err(e) ==> e == (GetUserError::NotFound { user_id }),
    {
        match self.find_user_by_id(user_id) {
            Option::Some(i) => {
                proof {
                    lemma_user_idx(self@, i as int);
                }
                Ok(self.user_at(i))
            },
            Option::None => Err(GetUserError::NotFound { user_id }),
        }
    }

    /// Looks a profile up by username; `Ok` exactly when the username
    /// exists.
    pub fn get_profile(&self, username: &str) -> (r: Result<Profile, GetUserError>)
        requires
            self.wf(),
        ensures
            r is Ok <==> self@.has_username(username@),
            r matches Ok(p) ==> p == profile_of_record(
                self@.users[self@.username_idx(username@)],
            ),
            r matches Err(e) ==> (e matches GetUserError::NotFoundByUsername { username: n } && n@
                == username@),
    {
        match self.find_user_by_username(username) {
            Option::Some(i) => {
                proof {
                    lemma_username_idx(self@, i as int);
                }
                let rec = &self.users[i];
                Ok(
                    Profile {
                        username: rec.username.clone(),
                        bio: crate::domain::clone_opt_string(&rec.bio),
                        image: crate::domain::clone_opt_string(&rec.image),
                    },
                )
            },
            Option::None => Err(
                GetUserError::NotFoundByUsername { username: username.to_owned() },
            ),
        }
    }

    /// Whether the follow rows contain this pair.
    pub(crate) fn contains_follow(&self, follower: u128, followed: u128) -> (r: bool)
        ensures
            r == self@.is_following(follower, followed),
    {
        let mut i: usize = 0;
        while i < self.follows.len()
            invariant
                i <= self@.follows.len(),
                forall|j: int|
                    0 <= j < i ==> !((#[trigger] self@.follows[j]).follower_id == follower
                        && self@.follows[j].followed_id == followed),
            decreases self@.follows.len() - i,
        {
            if self.follows[i].follower_id == follower && self.follows[i].followed_id == followed {
                return true;
            }
            i = i + 1;
        }
        false
    }

    /// Whether the viewer follows the viewed user.
    pub fn is_following(&self, viewer: &User, viewed: &User) -> (r: Result<bool, DatabaseError>)
        ensures
            r matches Ok(b) && b == self@.is_following(viewer.id, viewed.id),
    {
        Ok(self.contains_follow(viewer.id, viewed.id))
    }

    /// Composes the profile view one viewer sees: the profile plus whether
    /// the viewer follows it. `Ok` exactly when the username exists.
    pub fn get_profile_view(&self, viewer: &User, username: &str) -> (r: Result<
        ProfileView,
        GetUserError,
    >)
        requires
            self.wf(),
        ensures
            r is Ok <==> self@.has_username(username@),
            r matches Ok(v) ==> {
                let rec = self@.users[self@.username_idx(username@)];
                &&& v.profile == profile_of_record(rec)
                &&& v.following == self@.is_following(viewer.id, rec.id)
                &&& v.viewer == viewer.id
            },
            r matches Err(e) ==> (e matches GetUserError::NotFoundByUsername { username: n } && n@
                == username@),
    {
        match self.find_user_by_username(username) {
            Option::Some(i) => {
                proof {
                    lemma_username_idx(self@, i as int);
                }
                let rec = &self.users[i];
                let following = self.contains_follow(viewer.id, rec.id);
                Ok(
                    ProfileView {
                        profile: Profile {
                            username: rec.username.clone(),
                            bio: crate::domain::clone_opt_string(&rec.bio),
                            image: crate::domain::clone_opt_string(&rec.image),
                        },
                        following,
                        viewer: viewer.id,
                    },
                )
            },
            Option::None => Err(
                GetUserError::NotFoundByUsername { username: username.to_owned() },
            ),
        }
    }

    /// Authenticates by email and clear-text password. A wrong password and
    /// an unknown email yield the same `NotFound`: the caller learns
    /// neither which failed, nor whether the email exists.
    pub fn get_user_by_email_and_password(&self, email: &str, password: &str) -> (r: Result<
        User,
        LoginError,
    >)
        requires
            self.wf(),
        ensures
            r is Ok <==> login_ok(self@, email@, password@),
            r matches Ok(u) ==> u == user_of_record(self@.users[self@.email_idx(email@)]),
            r matches Err(e) ==> e == LoginError::NotFound,
    {
        match self.find_user_by_email(email) {
            Option::Some(i) => {
                proof {
                    lemma_email_idx(self@, i as int);
                }
                let stored = HashedPassword::from_hash(self.users[i].password_hash.clone());
                match stored.verify(password) {
                    Ok(b) => {
                        if b {
                            Ok(self.user_at(i))
                        } else {
                            Err(LoginError::NotFound)
                        }
                    },
                    Err(_) => {
                        proof {
                            // Stored hashes are always in the hash format.
                            assert(false);
                        }
                        Err(LoginError::NotFound)
                    },
                }
            },
            Option::None => Err(LoginError::NotFound),
        }
    }
}

/// When a login is owed success: the email exists and the stored hash is
/// the hash of the candidate password.
pub open spec fn login_ok(m: StoreModel, email: Seq<char>, password: Seq<char>) -> bool {
    m.has_email(email) && m.users[m.email_idx(email)].password_hash@ == hash_of(password)
}

/// A user other than `id` already holds this username.
pub open spec fn username_taken_by_other(m: StoreModel, id: u128, name: Seq<char>) -> bool {
    exists|i: int|
        0 <= i < m.users.len() && (#[trigger] m.users[i]).username@ == name && m.users[i].id != id
}

/// A user other than `id` already holds this email.
pub open spec fn email_taken_by_other(m: StoreModel, id: u128, email: Seq<char>) -> bool {
    exists|i: int|
        0 <= i < m.users.len() && (#[trigger] m.users[i]).email@ == email && m.users[i].id != id
}

/// When a user update is owed success: the user exists and neither the new
/// username nor the new email collides with another user's.
pub open spec fn can_update_user(m: StoreModel, id: u128, update: UserUpdate) -> bool {
    &&& m.has_user_id(id)
    &&& match update.username {
        Option::Some(n) => !username_taken_by_other(m, id, n@),
        Option::None => true,
    }
    &&& match update.email {
        Option::Some(e) => !email_taken_by_other(m, id, e@),
        Option::None => true,
    }
}

impl Repository {
    /// Checks that no user other than `id` holds this username.
    fn username_free_for(&self, id: u128, name: &str) -> (r: bool)
        ensures
            r == !username_taken_by_other(self@, id, name@),
    {
        let mut i: usize = 0;
        while i < self.users.len()
            invariant
                i <= self@.users.len(),
                forall|j: int|
                    0 <= j < i ==> !((#[trigger] self@.users[j]).username@ == name@
                        && self@.users[j].id != id),
            decreases self@.users.len() - i,
        {
            if self.users[i].id != id && crate::ascii::str_eq(
                self.users[i].username.as_str(),
                name,
            ) {
                return false;
            }
            i = i + 1;
        }
        true
    }

    /// Checks that no user other than `id` holds this email.
    fn email_free_for(&self, id: u128, email: &str) -> (r: bool)
        ensures
            r == !email_taken_by_other(self@, id, email@),
    {
        let mut i: usize = 0;
        while i < self.users.len()
            invariant
                i <= self@.users.len(),
                forall|j: int|
                    0 <= j < i ==> !((#[trigger] self@.users[j]).email@ == email@
                        && self@.users[j].id != id),
            decreases self@.users.len() - i,
        {
            if self.users[i].id != id && crate::ascii::str_eq(self.users[i].email.as_str(), email) {
                return false;
            }
            i = i + 1;
        }
        true
    }

    /// Partially updates a user row. Absent email, username and password
    /// stay unchanged; bio and image always overwrite, clearing on `None`.
    /// A collision of the new username or email with another user's, or a
    /// missing user, is the opaque storage failure.
    pub fn update_user(&mut self, user: User, update: UserUpdate) -> (r: Result<
        User,
        DatabaseError,
    >)
        requires
            old(self).wf(),
        ensures
            final(self).wf(),
            r is Ok <==> can_update_user(old(self)@, user.id, update),
            r matches Err(e) ==> final(self)@ == old(self)@ && e == DatabaseError,
            r matches Ok(u) ==> {
                let m = old(self)@;
                let m2 = final(self)@;
                let idx = m.user_idx(user.id);
                let rec = m.users[idx];
                let rec2 = m2.users[idx];
                &&& m2.users == m.users.update(idx, rec2)
                &&& rec2.id == user.id
                &&& rec2.username == (match update.username {
                    Option::Some(n) => n,
                    Option::None => rec.username,
                })
                &&& rec2.email == (match update.email {
                    Option::Some(e) => e,
                    Option::None => rec.email,
                })
                &&& (match update.password {
                    Option::Some(p) => rec2.password_hash@ == hash_of(p.clear_text()),
                    Option::None => rec2.password_hash == rec.password_hash,
                })
                &&& rec2.bio == update.bio
                &&& rec2.image == update.image
                &&& u == user_of_record(rec2)
                &&& m2 == StoreModel { users: m2.users, ..m }
            },
    {
        let idx = match self.find_user_by_id(user.id) {
            Option::Some(i) => i,
            Option::None => {
                return Err(DatabaseError);
            },
        };
        proof {
            lemma_user_idx(self@, idx as int);
        }
        match &update.username {
            Option::Some(n) => {
                if !self.username_free_for(user.id, n.as_str()) {
                    return Err(DatabaseError);
                }
            },
            Option::None => {},
        }
        match &update.email {
            Option::Some(e) => {
                if !self.email_free_for(user.id, e.as_str()) {
                    return Err(DatabaseError);
                }
            },
            Option::None => {},
        }
        let ghost m = self@;
        let username = match &update.username {
            Option::Some(n) => n.clone(),
            Option::None => self.users[idx].username.clone(),
        };
        let email = match &update.email {
            Option::Some(e) => e.clone(),
            Option::None => self.users[idx].email.clone(),
        };
        let password_hash = match &update.password {
            Option::Some(p) => p.hash().into_string(),
            Option::None => self.users[idx].password_hash.clone(),
        };
        let rec2 = UserRecord {
            id: user.id,
            username,
            email,
            password_hash,
            bio: crate::domain::clone_opt_string(&update.bio),
            image: crate::domain::clone_opt_string(&update.image),
        };
        self.users[idx] = rec2;
        proof {
            let m2 = self@;
            match update.password {
                Option::Some(p) => lemma_hash_well_formed(p.clear_text()),
                Option::None => {},
            }
            // Ids are unchanged row for row, so every user lookup carries over.
            assert forall|x: u128| #[trigger] m.has_user_id(x) implies m2.has_user_id(x) by {
                let w = choose|w: int| 0 <= w < m.users.len() && (#[trigger] m.users[w]).id == x;
                assert(m2.users[w].id == x);
            }
            lemma_has_slug_prefix(m, m2);
            assert(m2.users_wf()) by {
                assert forall|i: int, j: int|
                    0 <= i < m2.users.len() && 0 <= j < m2.users.len() && i != j implies (
                #[trigger] m2.users[i]).id != (#[trigger] m2.users[j]).id && m2.users[i].username@
                    != m2.users[j].username@ && m2.users[i].email@ != m2.users[j].email@ by {
                    if i == idx as int || j == idx as int {
                        let o = if i == idx as int {
                            j
                        } else {
                            i
                        };
                        assert(m2.users[o] == m.users[o]);
                        assert(m.users[o].id != user.id);
                        match update.username {
                            Option::Some(n) => assert(!(m.users[o].username@ == n@ && m.users[o].id
                                != user.id)),
                            Option::None => assert(m.users[o].username@ != m.users[idx as
                                int].username@),
                        }
                        match update.email {
                            Option::Some(e) => assert(!(m.users[o].email@ == e@ && m.users[o].id
                                != user.id)),
                            Option::None => assert(m.users[o].email@ != m.users[idx as int].email@),
                        }
                    }
                }
                assert forall|i: int| 0 <= i < m2.users.len() implies m2.is_following(
                    (#[trigger] m2.users[i]).id,
                    m2.users[i].id,
                ) by {
                    assert(m2.users[i].id == m.users[i].id);
                    assert(m.is_following(m.users[i].id, m.users[i].id));
                }
            }
            assert(m2.articles_wf()) by {
                assert forall|i: int| 0 <= i < m2.articles.len() implies m2.has_user_id(
                    (#[trigger] m2.articles[i]).author_id,
                ) by {
                    assert(m.articles[i] == m2.articles[i]);
                    assert(m.has_user_id(m.articles[i].author_id));
                }
            }
            assert forall|i2: int| 0 <= i2 < m2.comments.len() implies m2.has_slug(
                (#[trigger] m2.comments[i2]).article_slug@,
            ) && m2.has_user_id(m2.comments[i2].author_id) by {
                assert(m.comments[i2] == m2.comments[i2]);
                assert(m.has_slug(m.comments[i2].article_slug@));
                assert(m.has_user_id(m.comments[i2].author_id));
            }
            assert(m2.comments_wf());
            assert forall|i2: int| 0 <= i2 < m2.favorites.len() implies m2.has_slug(
                (#[trigger] m2.favorites[i2]).article_slug@,
            ) && m2.has_user_id(m2.favorites[i2].user_id) by {
                assert(m.favorites[i2] == m2.favorites[i2]);
                assert(m.has_slug(m.favorites[i2].article_slug@));
                assert(m.has_user_id(m.favorites[i2].user_id));
            }
            assert(m2.favorites_wf());
            assert(m2.follows_wf()) by {
                assert forall|i2: int| 0 <= i2 < m2.follows.len() implies m2.has_user_id(
                    (#[trigger] m2.follows[i2]).follower_id,
                ) && m2.has_user_id(m2.follows[i2].followed_id) by {
                    assert(m.follows[i2] == m2.follows[i2]);
                    assert(m.has_user_id(m.follows[i2].follower_id));
                    assert(m.has_user_id(m.follows[i2].followed_id));
                }
            }
        }
        Ok(self.user_at(idx))
    }
}

impl Repository {
    /// Inserts the follow pair if it is absent: following twice is the
    /// idempotent no-op.
    pub fn follow(&mut self, follower: &User, to_be_followed: &Profile) -> (r: Result<
        (),
        GetUserError,
    >)
        requires
            old(self).wf(),
        ensures
            final(self).wf(),
            r is Ok <==> old(self)@.has_username(to_be_followed.username@) && old(
                self,
            )@.has_user_id(follower.id),
            r matches Err(e) ==> final(self)@ == old(self)@ && (!old(self)@.has_username(
                to_be_followed.username@,
            ) ==> (e matches GetUserError::NotFoundByUsername { username: n } && n@
                == to_be_followed.username@)) && (old(self)@.has_username(to_be_followed.username@)
                ==> e == (GetUserError::NotFound { user_id: follower.id })),
            r is Ok ==> {
                let m = old(self)@;
                let m2 = final(self)@;
                let followed_id = m.users[m.username_idx(to_be_followed.username@)].id;
                &&& m2.follows == follow_tr(m.follows, follower.id, followed_id)
                &&& m2.is_following(follower.id, followed_id)
                &&& follows_pair_count(m2.follows, follower.id, followed_id) == 1
                &&& m2 == StoreModel { follows: m2.follows, ..m }
            },
    {
        let followed_idx = match self.find_user_by_username(to_be_followed.username.as_str()) {
            Option::Some(i) => i,
            Option::None => {
                return Err(
                    GetUserError::NotFoundByUsername {
                        username: to_be_followed.username.clone(),
                    },
                );
            },
        };
        proof {
            lemma_username_idx(self@, followed_idx as int);
        }
        if self.find_user_by_id(follower.id).is_none() {
            return Err(GetUserError::NotFound { user_id: follower.id });
        }
        let followed_id = self.users[followed_idx].id;
        if self.contains_follow(follower.id, followed_id) {
            proof {
                crate::laws::lemma_follow_pair_count_of_distinct(
                    self@.follows,
                    follower.id,
                    followed_id,
                );
            }
            return Ok(());
        }
        let ghost m = self@;
        self.follows.push(FollowRecord { follower_id: follower.id, followed_id });
        proof {
            let m2 = self@;
            lemma_follows_prefix(m.follows, m2.follows);
            lemma_has_user_id_prefix(m, m2);
            lemma_has_slug_prefix(m, m2);
            assert(m2.follows.last().follower_id == follower.id);
            assert(m2.users_wf()) by {
                assert forall|i: int| 0 <= i < m2.users.len() implies m2.is_following(
                    (#[trigger] m2.users[i]).id,
                    m2.users[i].id,
                ) by {
                    assert(m.is_following(m.users[i].id, m.users[i].id));
                }
            }
            assert(m2.follows_wf()) by {
                assert(m2.has_user_id(follower.id) && m2.has_user_id(followed_id));
                assert forall|i: int, j: int|
                    0 <= i < m2.follows.len() && 0 <= j < m2.follows.len() && i != j implies !((
                #[trigger] m2.follows[i]).follower_id == (#[trigger] m2.follows[j]).follower_id
                    && m2.follows[i].followed_id == m2.follows[j].followed_id) by {
                    if i < m.follows.len() && j < m.follows.len() {
                    } else {
                        let k = if i < m.follows.len() {
                            i
                        } else {
                            j
                        };
                        assert(!follows_contains(m.follows, follower.id, followed_id));
                        assert(!(m.follows[k].follower_id == follower.id && m.follows[k].followed_id
                            == followed_id));
                    }
                }
            }
            assert(m2.articles_wf());
            assert forall|i2: int| 0 <= i2 < m2.comments.len() implies m2.has_slug(
                (#[trigger] m2.comments[i2]).article_slug@,
            ) && m2.has_user_id(m2.comments[i2].author_id) by {
                assert(m.comments[i2] == m2.comments[i2]);
                assert(m.has_slug(m.comments[i2].article_slug@));
                assert(m.has_user_id(m.comments[i2].author_id));
            }
            assert(m2.comments_wf());
            assert forall|i2: int| 0 <= i2 < m2.favorites.len() implies m2.has_slug(
                (#[trigger] m2.favorites[i2]).article_slug@,
            ) && m2.has_user_id(m2.favorites[i2].user_id) by {
                assert(m.favorites[i2] == m2.favorites[i2]);
                assert(m.has_slug(m.favorites[i2].article_slug@));
                assert(m.has_user_id(m.favorites[i2].user_id));
            }
            assert(m2.favorites_wf());
            crate::laws::lemma_follow_pair_count_of_distinct(m2.follows, follower.id, followed_id);
        }
        Ok(())
    }

    /// Removes the follow pair if it is present: unfollowing a pair that is
    /// not followed is the idempotent no-op. The self-follow every user
    /// carries from creation is permanent: unfollowing oneself changes
    /// nothing.
    pub fn unfollow(&mut self, follower: &User, to_be_unfollowed: &Profile) -> (r: Result<
        (),
        GetUserError,
    >)
        requires
            old(self).wf(),
        ensures
            final(self).wf(),
            r is Ok <==> old(self)@.has_username(to_be_unfollowed.username@),
            r matches Err(e) ==> final(self)@ == old(self)@ && (e
                matches GetUserError::NotFoundByUsername { username: n } && n@
                == to_be_unfollowed.username@),
            r is Ok ==> {
                let m = old(self)@;
                let m2 = final(self)@;
                let followed_id = m.users[m.username_idx(to_be_unfollowed.username@)].id;
                &&& followed_id == follower.id ==> m2 == m
                &&& followed_id != follower.id ==> m2.follows == unfollow_tr(
                    m.follows,
                    follower.id,
                    followed_id,
                ) && m2 == StoreModel { follows: m2.follows, ..m }
                &&& followed_id != follower.id ==> !m2.is_following(follower.id, followed_id)
                    && follows_pair_count(m2.follows, follower.id, followed_id) == 0
            },
    {
        let followed_idx = match self.find_user_by_username(to_be_unfollowed.username.as_str()) {
            Option::Some(i) => i,
            Option::None => {
                return Err(
                    GetUserError::NotFoundByUsername {
                        username: to_be_unfollowed.username.clone(),
                    },
                );
            },
        };
        proof {
            lemma_username_idx(self@, followed_idx as int);
        }
        let followed_id = self.users[followed_idx].id;
        if followed_id == follower.id {
            return Ok(());
        }
        let ghost m = self@;
        let ghost pred = crate::store::follow_keep_pred(follower.id, followed_id);
        let mut kept: Vec<FollowRecord> = Vec::new();
        let mut i: usize = 0;
        while i < self.follows.len()
            invariant
                i <= self@.follows.len(),
                self@ == m,
                pred == crate::store::follow_keep_pred(follower.id, followed_id),
                kept@ == m.follows.take(i as int).filter(pred),
            decreases self@.follows.len() - i,
        {
            broadcast use Seq::lemma_filter_push, Seq::lemma_take_succ_push;

            let f = self.follows[i];
            if !(f.follower_id == follower.id && f.followed_id == followed_id) {
                kept.push(f);
            }
            i = i + 1;
        }
        proof {
            assert(m.follows.take(m.follows.len() as int) == m.follows);
            assert(kept@ == m.follows.filter(pred));
        }
        self.follows = kept;
        proof {
            let m2 = self@;
            lemma_follows_filter(m.follows, pred);
            lemma_has_user_id_prefix(m, m2);
            lemma_has_slug_prefix(m, m2);
            assert forall|a: u128, b: u128|
                #[trigger] follows_contains(m2.follows, a, b) implies follows_contains(
                m.follows,
                a,
                b,
            ) by {
                let j = choose|j: int|
                    0 <= j < m2.follows.len() && (#[trigger] m2.follows[j]).follower_id == a
                        && m2.follows[j].followed_id == b;
                assert(m.follows.contains(m2.follows[j]));
                let w = choose|w: int| 0 <= w < m.follows.len() && m.follows[w] == m2.follows[j];
                assert(m.follows[w].follower_id == a);
            }
            assert(m2.users_wf()) by {
                assert forall|i2: int| 0 <= i2 < m2.users.len() implies m2.is_following(
                    (#[trigger] m2.users[i2]).id,
                    m2.users[i2].id,
                ) by {
                    let uid = m.users[i2].id;
                    assert(m.is_following(uid, uid));
                    let j = choose|j: int|
                        0 <= j < m.follows.len() && (#[trigger] m.follows[j]).follower_id == uid
                            && m.follows[j].followed_id == uid;
                    // The removed pair has distinct ids, so the self-follow row stays.
                    assert(pred(m.follows[j]));
                    Seq::lemma_filter_contains(m.follows, pred, j);
                    let w = choose|w: int|
                        0 <= w < m2.follows.len() && m2.follows[w] == m.follows[j];
                    assert(m2.follows[w].follower_id == uid);
                }
            }
            assert(m2.follows_wf()) by {
                assert forall|i2: int| 0 <= i2 < m2.follows.len() implies m2.has_user_id(
                    (#[trigger] m2.follows[i2]).follower_id,
                ) && m2.has_user_id(m2.follows[i2].followed_id) by {
                    assert(m.follows.contains(m2.follows[i2]));
                    let w = choose|w: int|
                        0 <= w < m.follows.len() && m.follows[w] == m2.follows[i2];
                    assert(m.has_user_id(m.follows[w].follower_id));
                    assert(m.has_user_id(m.follows[w].followed_id));
                }
            }
            assert(m2.articles_wf());
            assert forall|i2: int| 0 <= i2 < m2.comments.len() implies m2.has_slug(
                (#[trigger] m2.comments[i2]).article_slug@,
            ) && m2.has_user_id(m2.comments[i2].author_id) by {
                assert(m.comments[i2] == m2.comments[i2]);
                assert(m.has_slug(m.comments[i2].article_slug@));
                assert(m.has_user_id(m.comments[i2].author_id));
            }
            assert(m2.comments_wf());
            assert forall|i2: int| 0 <= i2 < m2.favorites.len() implies m2.has_slug(
                (#[trigger] m2.favorites[i2]).article_slug@,
            ) && m2.has_user_id(m2.favorites[i2].user_id) by {
                assert(m.favorites[i2] == m2.favorites[i2]);
                assert(m.has_slug(m.favorites[i2].article_slug@));
                assert(m.has_user_id(m.favorites[i2].user_id));
            }
            assert(m2.favorites_wf());
            assert(!m2.is_following(follower.id, followed_id)) by {
                if follows_contains(m2.follows, follower.id, followed_id) {
                    let j = choose|j: int|
                        0 <= j < m2.follows.len() && (#[trigger] m2.follows[j]).follower_id
                            == follower.id && m2.follows[j].followed_id == followed_id;
                    assert(pred(m2.follows[j]));
                }
            }
            crate::laws::lemma_follow_pair_count_of_distinct(m2.follows, follower.id, followed_id);
        }
        Ok(())
    }
}

} // verus!

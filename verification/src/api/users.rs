//! The request shape for updating the current user.

use vstd::prelude::*;

use crate::domain::UserUpdate;
use crate::password::{Password, PasswordError};

verus! {

/// The envelope a user update arrives in.
pub struct Request {
    pub user: UpdateUserRequest,
}

/// A partial user update as the caller hands it over. Absent email,
/// username and password stay unchanged; bio and image always overwrite.
pub struct UpdateUserRequest {
    pub email: Option<String>,
    pub username: Option<String>,
    pub password: Option<String>,
    pub image: Option<String>,
    pub bio: Option<String>,
}

impl UpdateUserRequest {
    /// The update this request denotes; an empty new password is a
    /// credential failure.
    pub fn try_into_update(self) -> (r: Result<UserUpdate, PasswordError>)
        ensures
            r is Ok <==> (match self.password {
                Option::Some(p) => p@.len() > 0,
                Option::None => true,
            }),
            r matches Ok(u) ==> u.email == self.email && u.username == self.username && u.bio
                == self.bio && u.image == self.image && (match self.password {
                Option::Some(p) => u.password matches Option::Some(pw) && pw.clear_text() == p@,
                Option::None => u.password is None,
            }),
            r matches Err(e) ==> e == PasswordError::EmptyClearText,
    {
        let password = match self.password {
            Option::Some(p) => {
                match Password::from_clear_text(p) {
                    Ok(pw) => Option::Some(pw),
                    Err(e) => {
                        return Err(e);
                    },
                }
            },
            Option::None => Option::None,
        };
        Ok(
            UserUpdate {
                email: self.email,
                username: self.username,
                password,
                bio: self.bio,
                image: self.image,
            },
        )
    }
}

} // verus!

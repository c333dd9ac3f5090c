//! The request shape for signing up.

use vstd::prelude::*;

use crate::domain::SignUp;
use crate::password::{Password, PasswordError};

verus! {

/// The envelope a registration request arrives in.
pub struct RegistrationRequest {
    pub user: NewUserRequest,
}

/// A new account as the caller hands it over, the password still clear.
pub struct NewUserRequest {
    pub username: String,
    pub email: String,
    pub password: String,
}

impl RegistrationRequest {
    /// The sign-up this request denotes; an empty password is a credential
    /// failure.
    pub fn try_into_sign_up(self) -> (r: Result<SignUp, PasswordError>)
        ensures
            r is Ok <==> self.user.password@.len() > 0,
            r matches Ok(s) ==> s.username == self.user.username && s.email == self.user.email
                && s.password.clear_text() == self.user.password@,
            r matches Err(e) ==> e == PasswordError::EmptyClearText,
    {
        let password = match Password::from_clear_text(self.user.password) {
            Ok(p) => p,
            Err(e) => {
                return Err(e);
            },
        };
        Ok(SignUp { username: self.user.username, email: self.user.email, password })
    }
}

} // verus!

//! The request shape for logging in.

use vstd::prelude::*;

verus! {

/// The envelope a login request arrives in.
pub struct AuthRequest {
    pub user: AuthUser,
}

/// The credentials a login attempt carries.
pub struct AuthUser {
    pub email: String,
    pub password: String,
}

} // verus!

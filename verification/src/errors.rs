//! The closed, per-operation error enums every aggregate operation returns.

use vstd::prelude::*;

use crate::password::PasswordError;

verus! {

/// An opaque internal storage failure; never carries detail to the caller.
#[derive(Clone, Copy, Debug, PartialEq, Eq, Structural)]
pub struct DatabaseError;

/// Why a sign-up was rejected.
#[derive(Clone, Copy, Debug, PartialEq, Eq, Structural)]
pub enum SignUpError {
    UsernameTaken,
    EmailTaken,
    DatabaseError,
}

/// Why a user lookup failed.
#[derive(Clone, Debug, PartialEq)]
pub enum GetUserError {
    NotFound { user_id: u128 },
    NotFoundByUsername { username: String },
    DatabaseError,
}

/// Why a login failed. A wrong password and an unknown email collapse into
/// the same `NotFound` variant, so a caller learns neither.
#[derive(Clone, Copy, Debug, PartialEq, Eq, Structural)]
pub enum LoginError {
    NotFound,
    PasswordError(PasswordError),
    DatabaseError,
}

/// Why publishing an article failed.
#[derive(Clone, Debug, PartialEq)]
pub enum PublishArticleError {
    AuthorNotFound,
    DuplicatedSlug { slug: String },
    DatabaseError,
}

/// Why an article lookup failed.
#[derive(Clone, Debug, PartialEq)]
pub enum GetArticleError {
    ArticleNotFound { slug: String },
    AuthorNotFound,
    DatabaseError,
}

/// Why changing an article failed. `Forbidden` is distinct from
/// `ArticleNotFound`, so a caller can tell "not yours" from "absent".
#[derive(Clone, Copy, Debug, PartialEq, Eq, Structural)]
pub enum ChangeArticleError {
    ArticleNotFound,
    Forbidden,
    DatabaseError,
}

/// Why deleting a comment failed.
#[derive(Clone, Copy, Debug, PartialEq, Eq, Structural)]
pub enum DeleteCommentError {
    CommentNotFound { comment_id: u64 },
    UserNotFound,
    Forbidden,
    DatabaseError,
}

} // verus!

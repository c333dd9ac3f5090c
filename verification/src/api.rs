//! The request and response shapes of the interface boundary, and the one
//! error type the boundary hands out. The transport layer owns parsing and
//! serialization; these types carry only plain values.

use vstd::prelude::*;

use crate::errors::{
    ChangeArticleError, DatabaseError, DeleteCommentError, GetArticleError, GetUserError,
    LoginError, PublishArticleError, SignUpError,
};
use crate::password::PasswordError;

pub mod comments;
pub mod favorite;
pub mod follow;
pub mod insert;
pub mod login;
pub mod register;
pub mod tags;
pub mod update;
pub mod users;

verus! {

/// A value stored or carried as a JSON document, such as an article's tag
/// list in its table column.
pub struct Json<T>(pub T);

impl<T> Json<T> {
    /// Hands the wrapped value back.
    pub fn into_inner(self) -> (r: T)
        ensures
            r == self.0,
    {
        self.0
    }
}

/// Every error an aggregate operation can surface at the boundary, one
/// variant per per-operation error enum.
#[derive(Clone, Debug, PartialEq)]
pub enum ApiError {
    Login(LoginError),
    ChangeArticle(ChangeArticleError),
    Database(DatabaseError),
    DeleteComment(DeleteCommentError),
    GetArticle(GetArticleError),
    GetUser(GetUserError),
    Password(PasswordError),
    PublishArticle(PublishArticleError),
    SignUp(SignUpError),
}

/// The HTTP status code each boundary error maps to: not-found is 404,
/// forbidden is 401, a client-side validation or credential failure is
/// 400, and every internal failure is 500.
pub open spec fn api_status(e: ApiError) -> int {
    match e {
        ApiError::Login(LoginError::NotFound) => 404,
        ApiError::Login(LoginError::PasswordError(_)) => 400,
        ApiError::Login(LoginError::DatabaseError) => 500,
        ApiError::ChangeArticle(ChangeArticleError::ArticleNotFound) => 404,
        ApiError::ChangeArticle(ChangeArticleError::Forbidden) => 401,
        ApiError::ChangeArticle(ChangeArticleError::DatabaseError) => 500,
        ApiError::Database(_) => 500,
        ApiError::DeleteComment(DeleteCommentError::CommentNotFound { .. }) => 404,
        ApiError::DeleteComment(DeleteCommentError::UserNotFound) => 404,
        ApiError::DeleteComment(DeleteCommentError::Forbidden) => 401,
        ApiError::DeleteComment(DeleteCommentError::DatabaseError) => 500,
        ApiError::GetArticle(_) => if e matches ApiError::GetArticle(
            GetArticleError::DatabaseError,
        ) {
            500
        } else {
            404
        },
        ApiError::GetUser(GetUserError::DatabaseError) => 500,
        ApiError::GetUser(_) => 404,
        ApiError::Password(_) => 400,
        ApiError::PublishArticle(PublishArticleError::AuthorNotFound) => 404,
        ApiError::PublishArticle(PublishArticleError::DuplicatedSlug { .. }) => 400,
        ApiError::PublishArticle(PublishArticleError::DatabaseError) => 500,
        ApiError::SignUp(_) => 500,
    }
}

impl ApiError {
    /// The HTTP status code this error maps to.
    pub fn status(&self) -> (r: u16)
        ensures
            r as int == api_status(*self),
    {
        match self {
            ApiError::Login(LoginError::NotFound) => 404,
            ApiError::Login(LoginError::PasswordError(_)) => 400,
            ApiError::Login(LoginError::DatabaseError) => 500,
            ApiError::ChangeArticle(ChangeArticleError::ArticleNotFound) => 404,
            ApiError::ChangeArticle(ChangeArticleError::Forbidden) => 401,
            ApiError::ChangeArticle(ChangeArticleError::DatabaseError) => 500,
            ApiError::Database(_) => 500,
            ApiError::DeleteComment(DeleteCommentError::CommentNotFound { .. }) => 404,
            ApiError::DeleteComment(DeleteCommentError::UserNotFound) => 404,
            ApiError::DeleteComment(DeleteCommentError::Forbidden) => 401,
            ApiError::DeleteComment(DeleteCommentError::DatabaseError) => 500,
            ApiError::GetArticle(GetArticleError::DatabaseError) => 500,
            ApiError::GetArticle(_) => 404,
            ApiError::GetUser(GetUserError::DatabaseError) => 500,
            ApiError::GetUser(_) => 404,
            ApiError::Password(_) => 400,
            ApiError::PublishArticle(PublishArticleError::AuthorNotFound) => 404,
            ApiError::PublishArticle(PublishArticleError::DuplicatedSlug { .. }) => 400,
            ApiError::PublishArticle(PublishArticleError::DatabaseError) => 500,
            ApiError::SignUp(_) => 500,
        }
    }

    /// The message the response body carries: internal failures hide their
    /// detail, a duplicate slug names its validation failure, everything
    /// else stays empty.
    pub fn error_message(&self) -> (r: String)
        ensures
            api_status(*self) == 500 ==> r@ == "Something went wrong"@,
            (*self matches ApiError::PublishArticle(PublishArticleError::DuplicatedSlug { .. }))
                ==> r@ == "Invalid slug"@,
            api_status(*self) != 500 && !(*self matches ApiError::PublishArticle(
                PublishArticleError::DuplicatedSlug { .. },
            )) ==> r@ =~= Seq::<char>::empty(),
    {
        let status = self.status();
        if status == 500 {
            "Something went wrong".to_owned()
        } else if matches!(
            self,
            ApiError::PublishArticle(PublishArticleError::DuplicatedSlug { .. })
        ) {
            "Invalid slug".to_owned()
        } else {
            let r = "".to_owned();
            proof {
                reveal_strlit("");
            }
            r
        }
    }
}

impl From<LoginError> for ApiError {
    fn from(e: LoginError) -> (r: Self) {
        ApiError::Login(e)
    }
}

impl vstd::std_specs::convert::FromSpecImpl<LoginError> for ApiError {
    open spec fn obeys_from_spec() -> bool {
        true
    }

    open spec fn from_spec(e: LoginError) -> Self {
        ApiError::Login(e)
    }
}

impl From<ChangeArticleError> for ApiError {
    fn from(e: ChangeArticleError) -> (r: Self) {
        ApiError::ChangeArticle(e)
    }
}

impl vstd::std_specs::convert::FromSpecImpl<ChangeArticleError> for ApiError {
    open spec fn obeys_from_spec() -> bool {
        true
    }

    open spec fn from_spec(e: ChangeArticleError) -> Self {
        ApiError::ChangeArticle(e)
    }
}

impl From<DatabaseError> for ApiError {
    fn from(e: DatabaseError) -> (r: Self) {
        ApiError::Database(e)
    }
}

impl vstd::std_specs::convert::FromSpecImpl<DatabaseError> for ApiError {
    open spec fn obeys_from_spec() -> bool {
        true
    }

    open spec fn from_spec(e: DatabaseError) -> Self {
        ApiError::Database(e)
    }
}

impl From<DeleteCommentError> for ApiError {
    fn from(e: DeleteCommentError) -> (r: Self) {
        ApiError::DeleteComment(e)
    }
}

impl vstd::std_specs::convert::FromSpecImpl<DeleteCommentError> for ApiError {
    open spec fn obeys_from_spec() -> bool {
        true
    }

    open spec fn from_spec(e: DeleteCommentError) -> Self {
        ApiError::DeleteComment(e)
    }
}

impl From<GetArticleError> for ApiError {
    fn from(e: GetArticleError) -> (r: Self) {
        ApiError::GetArticle(e)
    }
}

impl vstd::std_specs::convert::FromSpecImpl<GetArticleError> for ApiError {
    open spec fn obeys_from_spec() -> bool {
        true
    }

    open spec fn from_spec(e: GetArticleError) -> Self {
        ApiError::GetArticle(e)
    }
}

impl From<GetUserError> for ApiError {
    fn from(e: GetUserError) -> (r: Self) {
        ApiError::GetUser(e)
    }
}

impl vstd::std_specs::convert::FromSpecImpl<GetUserError> for ApiError {
    open spec fn obeys_from_spec() -> bool {
        true
    }

    open spec fn from_spec(e: GetUserError) -> Self {
        ApiError::GetUser(e)
    }
}

impl From<PasswordError> for ApiError {
    fn from(e: PasswordError) -> (r: Self) {
        ApiError::Password(e)
    }
}

impl vstd::std_specs::convert::FromSpecImpl<PasswordError> for ApiError {
    open spec fn obeys_from_spec() -> bool {
        true
    }

    open spec fn from_spec(e: PasswordError) -> Self {
        ApiError::Password(e)
    }
}

impl From<PublishArticleError> for ApiError {
    fn from(e: PublishArticleError) -> (r: Self) {
        ApiError::PublishArticle(e)
    }
}

impl vstd::std_specs::convert::FromSpecImpl<PublishArticleError> for ApiError {
    open spec fn obeys_from_spec() -> bool {
        true
    }

    open spec fn from_spec(e: PublishArticleError) -> Self {
        ApiError::PublishArticle(e)
    }
}

impl From<SignUpError> for ApiError {
    fn from(e: SignUpError) -> (r: Self) {
        ApiError::SignUp(e)
    }
}

impl vstd::std_specs::convert::FromSpecImpl<SignUpError> for ApiError {
    open spec fn obeys_from_spec() -> bool {
        true
    }

    open spec fn from_spec(e: SignUpError) -> Self {
        ApiError::SignUp(e)
    }
}

} // verus!

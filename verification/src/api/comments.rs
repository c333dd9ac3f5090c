//! The request shape for posting a comment.

use vstd::prelude::*;

use crate::domain::CommentContent;

verus! {

/// The envelope a comment request arrives in.
pub struct Request {
    pub comment: NewCommentRequest,
}

/// A comment as the caller hands it over.
pub struct NewCommentRequest {
    pub body: String,
}

impl Request {
    /// The comment content this request denotes.
    pub fn into_content(self) -> (r: CommentContent)
        ensures
            r.0 == self.comment.body,
    {
        CommentContent(self.comment.body)
    }
}

} // verus!

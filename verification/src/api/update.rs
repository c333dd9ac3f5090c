//! The request shape for updating an article.

use vstd::prelude::*;

use crate::domain::ArticleUpdate;

verus! {

/// The envelope an article update arrives in.
pub struct Request {
    pub article: UpdateArticleRequest,
}

/// A partial article update; absent fields stay unchanged.
pub struct UpdateArticleRequest {
    pub title: Option<String>,
    pub description: Option<String>,
    pub body: Option<String>,
}

impl Request {
    /// The update this request denotes.
    pub fn into_update(self) -> (r: ArticleUpdate)
        ensures
            r == (ArticleUpdate {
                title: self.article.title,
                description: self.article.description,
                body: self.article.body,
            }),
    {
        ArticleUpdate {
            title: self.article.title,
            description: self.article.description,
            body: self.article.body,
        }
    }
}

} // verus!

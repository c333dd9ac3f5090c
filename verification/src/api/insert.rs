//! The request shape for publishing an article.

use vstd::prelude::*;

use crate::domain::ArticleContent;

verus! {

/// The envelope a publish request arrives in.
pub struct Request {
    pub article: NewArticleRequest,
}

/// A draft as the caller hands it over; the tag list may be absent.
pub struct NewArticleRequest {
    pub title: String,
    pub description: String,
    pub body: String,
    pub tag_list: Option<Vec<String>>,
}

impl NewArticleRequest {
    /// The draft content this request denotes; an absent tag list is the
    /// empty one.
    pub fn into_content(self) -> (r: ArticleContent)
        ensures
            r.title == self.title,
            r.description == self.description,
            r.body == self.body,
            match self.tag_list {
                Option::Some(v) => r.tag_list == v,
                Option::None => r.tag_list@.len() == 0,
            },
    {
        ArticleContent {
            title: self.title,
            description: self.description,
            body: self.body,
            tag_list: match self.tag_list {
                Option::Some(v) => v,
                Option::None => Vec::new(),
            },
        }
    }
}

} // verus!

//! Value objects and aggregate data: profiles, users, articles, comments,
//! and the viewer-scoped read models composed from them.

use vstd::prelude::*;

use crate::slug::{slug_of, slugify};

verus! {

/// The public-facing subset of a user's identity.
#[derive(Clone, Debug, PartialEq)]
pub struct Profile {
    pub username: String,
    pub bio: Option<String>,
    pub image: Option<String>,
}

/// A user: opaque unique id, unique email, and the public profile.
/// The password hash lives in storage, never on this value.
#[derive(Clone, Debug, PartialEq)]
pub struct User {
    pub id: u128,
    pub email: String,
    pub profile: Profile,
}

/// The content of an article, as written by its author.
#[derive(Clone, Debug, PartialEq)]
pub struct ArticleContent {
    pub title: String,
    pub description: String,
    pub body: String,
    pub tag_list: Vec<String>,
}

/// Creation and last-update instants, as logical timestamps: a later write
/// always carries a strictly larger timestamp.
#[derive(Clone, Copy, Debug, PartialEq, Eq, Structural)]
pub struct ArticleMetadata {
    pub created_at: u64,
    pub updated_at: u64,
}

/// An article snapshot: content, unique slug, author profile, metadata and
/// the favorites count recomputed from the favorite relationship set.
#[derive(Clone, Debug, PartialEq)]
pub struct Article {
    pub content: ArticleContent,
    pub slug: String,
    pub author: Profile,
    pub metadata: ArticleMetadata,
    pub favorites_count: u64,
}

/// A partial update of an article; absent fields stay unchanged.
#[derive(Clone, Debug, PartialEq)]
pub struct ArticleUpdate {
    pub title: Option<String>,
    pub description: Option<String>,
    pub body: Option<String>,
}

/// The body of a comment.
#[derive(Clone, Debug, PartialEq)]
pub struct CommentContent(pub String);

/// A comment on an article.
#[derive(Clone, Debug, PartialEq)]
pub struct Comment {
    pub id: u64,
    pub author: Profile,
    pub body: String,
    pub created_at: u64,
    pub updated_at: u64,
}

/// A comment as one viewer sees it: the author carries the viewer's
/// follow relationship.
#[derive(Clone, Debug, PartialEq)]
pub struct CommentView {
    pub id: u64,
    pub author: ProfileView,
    pub body: String,
    pub created_at: u64,
    pub updated_at: u64,
}

/// An article as one viewer sees it: never persisted, always recomputed
/// from the aggregate plus the viewer's relationship rows.
#[derive(Clone, Debug, PartialEq)]
pub struct ArticleView {
    pub content: ArticleContent,
    pub slug: String,
    pub author: ProfileView,
    pub metadata: ArticleMetadata,
    pub favorited: bool,
    pub favorites_count: u64,
    pub viewer: u128,
}

/// A profile as one viewer sees it.
#[derive(Clone, Debug, PartialEq)]
pub struct ProfileView {
    pub profile: Profile,
    pub following: bool,
    pub viewer: u128,
}

/// A sign-up request: unique username, unique email, validated password.
pub struct SignUp {
    pub username: String,
    pub email: String,
    pub password: crate::password::Password,
}

/// A partial update of a user. Absent email, username and password stay
/// unchanged; bio and image always overwrite, clearing on `None`. That
/// asymmetry is deliberate and mirrors the update operation's contract.
pub struct UserUpdate {
    pub email: Option<String>,
    pub username: Option<String>,
    pub password: Option<crate::password::Password>,
    pub bio: Option<String>,
    pub image: Option<String>,
}

/// Pagination of a feed request.
#[derive(Clone, Copy, Debug, PartialEq, Eq, Structural)]
pub struct FeedQuery {
    pub limit: u64,
    pub offset: u64,
}

/// A filter for listing articles: by author username and by tag.
#[derive(Clone, Debug, PartialEq)]
pub struct ArticleQuery {
    pub author: Option<String>,
    pub favorited: Option<String>,
    pub tag: Option<String>,
}

/// Whether a favorite call changed state or was the idempotent no-op.
#[derive(Clone, Copy, Debug, PartialEq, Eq, Structural)]
pub enum FavoriteOutcome {
    NewFavorite,
    AlreadyAFavorite,
}

/// Whether an unfavorite call changed state or was the idempotent no-op.
#[derive(Clone, Copy, Debug, PartialEq, Eq, Structural)]
pub enum UnfavoriteOutcome {
    WasAFavorite,
    WasNotAFavorite,
}

/// The view of an optional string.
pub open spec fn opt_view(o: Option<String>) -> Option<Seq<char>> {
    match o {
        Option::None => Option::None,
        Option::Some(s) => Option::Some(s@),
    }
}

/// Copies an optional string, preserving equality.
pub fn clone_opt_string(o: &Option<String>) -> (r: Option<String>)
    ensures
        r == *o,
{
    match o {
        Option::None => Option::None,
        Option::Some(s) => Option::Some(s.clone()),
    }
}

/// Copies a tag list, preserving the sequence of strings.
pub fn clone_tags(v: &Vec<String>) -> (r: Vec<String>)
    ensures
        r@ == v@,
{
    let mut out: Vec<String> = Vec::new();
    let mut i: usize = 0;
    while i < v.len()
        invariant
            i <= v@.len(),
            out@.len() == i,
            forall|j: int| 0 <= j < i ==> out@[j] == v@[j],
        decreases v@.len() - i,
    {
        out.push(v[i].clone());
        i = i + 1;
    }
    proof {
        assert(out@ =~= v@);
    }
    out
}

impl Profile {
    /// Copies the profile, preserving equality.
    pub fn duplicate(&self) -> (r: Profile)
        ensures
            r == *self,
    {
        Profile {
            username: self.username.clone(),
            bio: clone_opt_string(&self.bio),
            image: clone_opt_string(&self.image),
        }
    }
}

impl User {
    /// Copies the user, preserving equality.
    pub fn duplicate(&self) -> (r: User)
        ensures
            r == *self,
    {
        User { id: self.id, email: self.email.clone(), profile: self.profile.duplicate() }
    }
}

/// Content equality: every field equal, the tag list as a sequence.
pub open spec fn content_eq(a: ArticleContent, b: ArticleContent) -> bool {
    a.title == b.title && a.description == b.description && a.body == b.body && a.tag_list@
        == b.tag_list@
}

impl ArticleContent {
    /// The slug this content derives: a pure function of the title alone.
    pub fn slug(&self) -> (r: String)
        ensures
            r@ == slug_of(self.title@),
    {
        slugify(self.title.as_str())
    }

    /// Copies the content; every field is preserved.
    pub fn duplicate(&self) -> (r: ArticleContent)
        ensures
            content_eq(r, *self),
    {
        ArticleContent {
            title: self.title.clone(),
            description: self.description.clone(),
            body: self.body.clone(),
            tag_list: clone_tags(&self.tag_list),
        }
    }
}

} // verus!

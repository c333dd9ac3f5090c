//! The aggregate operations: what a signed-in user may do, including the
//! authorization rules. Only an article's author may change or delete it,
//! and only a comment's author may delete the comment; `Forbidden` is
//! distinct from not-found.

use vstd::prelude::*;

use crate::domain::{
    Article, ArticleContent, ArticleUpdate, ArticleView, Comment, CommentContent, CommentView,
    FeedQuery, Profile, ProfileView, User, UserUpdate,
};
use crate::errors::{
    ChangeArticleError, DatabaseError, DeleteCommentError, GetUserError, PublishArticleError,
};
use crate::slug::slug_of;
use crate::store::articles::{can_publish, feed_page, view_of_article, view_of_row};
use crate::store::comments::can_comment;
use crate::store::users::{can_update_user, profile_of_record, user_of_record};
use crate::store::{
    follow_tr, unfavorite_tr, unfollow_tr, ArticleRecord, CommentRecord, FavoriteRecord,
    Repository, StoreModel,
};

verus! {

impl User {
    /// Publishes a draft under this user's name. A title whose slug is
    /// already taken is a hard conflict: no second row is ever created.
    pub fn publish(&self, draft: ArticleContent, repo: &mut Repository) -> (r: Result<
        Article,
        PublishArticleError,
    >)
        requires
            old(repo).wf(),
        ensures
            final(repo).wf(),
            r is Ok <==> can_publish(old(repo)@, draft.title@, self.id),
            r matches Err(_) ==> final(repo)@ == old(repo)@,
            r matches Ok(a) ==> {
                let m = old(repo)@;
                let m2 = final(repo)@;
                let rec = m2.articles.last();
                &&& m2.articles == m.articles.push(rec)
                &&& rec.slug@ == slug_of(draft.title@)
                &&& rec.title == draft.title
                &&& rec.author_id == self.id
                &&& m2 == (StoreModel { articles: m2.articles, clock: m.clock + 1, ..m })
                &&& a.content == draft
                &&& a.slug == rec.slug
                &&& a.author == self.profile
                &&& a.favorites_count == 0
                &&& m2.fav_count(rec.slug@) == 0
                &&& m2.has_slug(slug_of(draft.title@))
            },
    {
        repo.publish_article(draft, self)
    }

    /// Updates this user's own account; the partial-update semantics are
    /// the store's.
    pub fn update(self, update: UserUpdate, repo: &mut Repository) -> (r: Result<
        User,
        DatabaseError,
    >)
        requires
            old(repo).wf(),
        ensures
            final(repo).wf(),
            r is Ok <==> can_update_user(old(repo)@, self.id, update),
            r matches Err(e) ==> final(repo)@ == old(repo)@ && e == DatabaseError,
            r matches Ok(u) ==> {
                let m = old(repo)@;
                let m2 = final(repo)@;
                let idx = m.user_idx(self.id);
                let rec2 = m2.users[idx];
                &&& m2.users == m.users.update(idx, rec2)
                &&& rec2.id == self.id
                &&& rec2.bio == update.bio
                &&& rec2.image == update.image
                &&& u == user_of_record(rec2)
                &&& m2 == (StoreModel { users: m2.users, ..m })
            },
    {
        repo.update_user(self, update)
    }

    /// Deletes an article. Only the article's author may: any other user
    /// gets `Forbidden`, never a not-found, and the store is untouched.
    pub fn delete(&self, article: Article, repo: &mut Repository) -> (r: Result<
        (),
        ChangeArticleError,
    >)
        requires
            old(repo).wf(),
        ensures
            final(repo).wf(),
            r is Ok <==> article.author.username@ == self.profile.username@ && old(
                repo,
            )@.has_slug(article.slug@),
            r matches Err(e) ==> final(repo)@ == old(repo)@ && (e == ChangeArticleError::Forbidden
                <==> article.author.username@ != self.profile.username@) && (e
                == ChangeArticleError::ArticleNotFound <==> article.author.username@
                == self.profile.username@ && !old(repo)@.has_slug(article.slug@)),
            r is Ok ==> {
                let m = old(repo)@;
                let m2 = final(repo)@;
                &&& m2.articles == m.articles.filter(
                    (|a: ArticleRecord| a.slug@ != article.slug@),
                )
                &&& m2.comments == m.comments.filter(
                    (|c: CommentRecord| c.article_slug@ != article.slug@),
                )
                &&& m2.favorites == m.favorites.filter(
                    (|f: FavoriteRecord| f.article_slug@ != article.slug@),
                )
                &&& m2 == (StoreModel {
                    articles: m2.articles,
                    comments: m2.comments,
                    favorites: m2.favorites,
                    ..m
                })
                &&& !m2.has_slug(article.slug@)
            },
    {
        if !crate::ascii::str_eq(
            article.author.username.as_str(),
            self.profile.username.as_str(),
        ) {
            return Err(ChangeArticleError::Forbidden);
        }
        match repo.delete_article(&article) {
            Ok(()) => Ok(()),
            Err(_) => Err(ChangeArticleError::ArticleNotFound),
        }
    }

    /// Updates an article. Only the article's author may: any other user
    /// gets `Forbidden`, never a not-found, and the store is untouched.
    pub fn update_article(&self, article: Article, update: ArticleUpdate, repo: &mut Repository) -> (r:
        Result<Article, ChangeArticleError>)
        requires
            old(repo).wf(),
        ensures
            final(repo).wf(),
            r is Ok <==> article.author.username@ == self.profile.username@ && old(
                repo,
            )@.has_slug(article.slug@) && old(repo)@.clock < u64::MAX as int,
            r matches Err(e) ==> final(repo)@ == old(repo)@ && (e == ChangeArticleError::Forbidden
                <==> article.author.username@ != self.profile.username@) && (e
                == ChangeArticleError::ArticleNotFound <==> article.author.username@
                == self.profile.username@ && !old(repo)@.has_slug(article.slug@)),
            r matches Ok(a) ==> {
                let m = old(repo)@;
                let m2 = final(repo)@;
                let idx = m.slug_idx(article.slug@);
                let rec = m.articles[idx];
                let rec2 = m2.articles[idx];
                &&& m2.articles == m.articles.update(idx, rec2)
                &&& rec2.slug == rec.slug
                &&& rec2.title == (match update.title {
                    Option::Some(t) => t,
                    Option::None => rec.title,
                })
                &&& rec2.description == (match update.description {
                    Option::Some(d) => d,
                    Option::None => rec.description,
                })
                &&& rec2.body == (match update.body {
                    Option::Some(b) => b,
                    Option::None => rec.body,
                })
                &&& rec2.created_at == rec.created_at
                &&& rec2.updated_at == m.clock + 1
                &&& m2 == (StoreModel { articles: m2.articles, clock: m.clock + 1, ..m })
                &&& crate::store::articles::article_matches(a, m2, idx)
            },
    {
        if !crate::ascii::str_eq(
            article.author.username.as_str(),
            self.profile.username.as_str(),
        ) {
            return Err(ChangeArticleError::Forbidden);
        }
        if repo.find_article_by_slug(article.slug.as_str()).is_none() {
            return Err(ChangeArticleError::ArticleNotFound);
        }
        match repo.update_article(article, update) {
            Ok(a) => Ok(a),
            Err(_) => Err(ChangeArticleError::DatabaseError),
        }
    }

    /// Favorites an article and returns its up-to-date view: `favorited` is
    /// true and the count is recomputed, whether or not state changed.
    pub fn favorite(&self, article: Article, repo: &mut Repository) -> (r: Result<
        ArticleView,
        DatabaseError,
    >)
        requires
            old(repo).wf(),
        ensures
            final(repo).wf(),
            r is Ok <==> old(repo)@.has_slug(article.slug@) && old(repo)@.has_user_id(self.id)
                && old(repo)@.has_username(article.author.username@),
            r matches Err(e) ==> e == DatabaseError,
            !(old(repo)@.has_slug(article.slug@) && old(repo)@.has_user_id(self.id))
                ==> final(repo)@ == old(repo)@,
            r matches Ok(v) ==> {
                let m = old(repo)@;
                let m2 = final(repo)@;
                &&& m.is_favorite(article.slug@, self.id) ==> m2 == m
                &&& !m.is_favorite(article.slug@, self.id) ==> m2.favorites == m.favorites.push(
                    m2.favorites.last(),
                ) && m2.favorites.last().article_slug@ == article.slug@
                    && m2.favorites.last().user_id == self.id && m2 == (StoreModel {
                    favorites: m2.favorites,
                    ..m
                }) && m2.fav_count(article.slug@) == m.fav_count(article.slug@) + 1
                &&& m2.is_favorite(article.slug@, self.id)
                &&& view_of_article(v, m2, article, self.id)
                &&& v.favorited == true
                &&& v.favorites_count == m2.fav_count(article.slug@)
                &&& v.viewer == self.id
            },
    {
        match repo.favorite(&article, self) {
            Ok(_) => {},
            Err(e) => {
                return Err(e);
            },
        }
        match repo.get_article_view(self, article) {
            Ok(v) => Ok(v),
            Err(_) => Err(DatabaseError),
        }
    }

    /// Unfavorites an article and returns its up-to-date view: `favorited`
    /// is false, and unfavoriting a pair that was never favorited succeeds.
    pub fn unfavorite(&self, article: Article, repo: &mut Repository) -> (r: Result<
        ArticleView,
        DatabaseError,
    >)
        requires
            old(repo).wf(),
        ensures
            final(repo).wf(),
            r is Ok <==> old(repo)@.has_username(article.author.username@),
            r matches Err(e) ==> e == DatabaseError,
            final(repo)@.favorites == unfavorite_tr(old(repo)@.favorites, article.slug@, self.id),
            final(repo)@ == (StoreModel { favorites: final(repo)@.favorites, ..old(repo)@ }),
            !final(repo)@.is_favorite(article.slug@, self.id),
            r matches Ok(v) ==> {
                let m2 = final(repo)@;
                &&& view_of_article(v, m2, article, self.id)
                &&& v.favorited == false
                &&& v.favorites_count == m2.fav_count(article.slug@)
                &&& v.viewer == self.id
            },
    {
        match repo.unfavorite(&article, self) {
            Ok(_) => {},
            Err(e) => {
                return Err(e);
            },
        }
        match repo.get_article_view(self, article) {
            Ok(v) => Ok(v),
            Err(_) => Err(DatabaseError),
        }
    }

    /// Follows a profile and returns its view: `following` is true whether
    /// or not state changed. Following a profile that does not exist is
    /// the by-username not-found error.
    pub fn follow(&self, profile: Profile, repo: &mut Repository) -> (r: Result<
        ProfileView,
        GetUserError,
    >)
        requires
            old(repo).wf(),
        ensures
            final(repo).wf(),
            r is Ok <==> old(repo)@.has_username(profile.username@) && old(repo)@.has_user_id(
                self.id,
            ),
            r matches Err(e) ==> final(repo)@ == old(repo)@ && (!old(repo)@.has_username(
                profile.username@,
            ) ==> (e matches GetUserError::NotFoundByUsername { username: n } && n@
                == profile.username@)),
            r matches Ok(v) ==> {
                let m = old(repo)@;
                let m2 = final(repo)@;
                let followed = m.users[m.username_idx(profile.username@)];
                &&& m2.follows == follow_tr(m.follows, self.id, followed.id)
                &&& m2 == (StoreModel { follows: m2.follows, ..m })
                &&& m2.is_following(self.id, followed.id)
                &&& v.profile == profile_of_record(followed)
                &&& v.following == true
                &&& v.viewer == self.id
            },
    {
        match repo.follow(self, &profile) {
            Ok(()) => {},
            Err(e) => {
                return Err(e);
            },
        }
        match repo.get_profile_view(self, profile.username.as_str()) {
            Ok(v) => Ok(v),
            Err(e) => {
                proof {
                    assert(false);
                }
                Err(e)
            },
        }
    }

    /// Unfollows a profile and returns its view. Unfollowing a profile that
    /// is not followed is the idempotent no-op; the self-follow every user
    /// carries from creation is permanent.
    pub fn unfollow(&self, profile: Profile, repo: &mut Repository) -> (r: Result<
        ProfileView,
        GetUserError,
    >)
        requires
            old(repo).wf(),
        ensures
            final(repo).wf(),
            r is Ok <==> old(repo)@.has_username(profile.username@),
            r matches Err(e) ==> final(repo)@ == old(repo)@ && (e
                matches GetUserError::NotFoundByUsername { username: n } && n@
                == profile.username@),
            r matches Ok(v) ==> {
                let m = old(repo)@;
                let m2 = final(repo)@;
                let followed = m.users[m.username_idx(profile.username@)];
                &&& (followed.id == self.id ==> m2 == m && v.following == true)
                &&& (followed.id != self.id ==> m2.follows == unfollow_tr(
                    m.follows,
                    self.id,
                    followed.id,
                ) && m2 == (StoreModel { follows: m2.follows, ..m }) && v.following == false)
                &&& v.profile == profile_of_record(followed)
                &&& v.viewer == self.id
            },
    {
        match repo.unfollow(self, &profile) {
            Ok(()) => {},
            Err(e) => {
                return Err(e);
            },
        }
        match repo.get_profile_view(self, profile.username.as_str()) {
            Ok(v) => Ok(v),
            Err(e) => {
                proof {
                    assert(false);
                }
                Err(e)
            },
        }
    }

    /// Comments on an article.
    pub fn comment(&self, article: &Article, comment: CommentContent, repo: &mut Repository) -> (r:
        Result<Comment, DatabaseError>)
        requires
            old(repo).wf(),
        ensures
            final(repo).wf(),
            r is Ok <==> can_comment(old(repo)@, article.slug@, self.id),
            r matches Err(e) ==> final(repo)@ == old(repo)@ && e == DatabaseError,
            r matches Ok(c) ==> {
                let m = old(repo)@;
                let m2 = final(repo)@;
                let rec = m2.comments.last();
                &&& m2.comments == m.comments.push(rec)
                &&& rec.id == m.next_comment_id as u64
                &&& rec.article_slug@ == article.slug@
                &&& rec.author_id == self.id
                &&& rec.body == comment.0
                &&& c.id == rec.id
                &&& c.author == self.profile
                &&& c.body == comment.0
                &&& m2 == (StoreModel {
                    comments: m2.comments,
                    next_comment_id: m.next_comment_id + 1,
                    clock: m.clock + 1,
                    ..m
                })
            },
    {
        repo.comment_article(self, article, comment)
    }

    /// Deletes a comment. Only the comment's author may: any other user
    /// gets `Forbidden` and the store is untouched.
    pub fn delete_comment(&self, comment: Comment, repo: &mut Repository) -> (r: Result<
        (),
        DeleteCommentError,
    >)
        requires
            old(repo).wf(),
        ensures
            final(repo).wf(),
            r is Ok <==> comment.author.username@ == self.profile.username@,
            r matches Err(e) ==> final(repo)@ == old(repo)@ && e == DeleteCommentError::Forbidden,
            r is Ok ==> final(repo)@.comments == old(repo)@.comments.filter(
                (|c: CommentRecord| c.id != comment.id),
            ) && final(repo)@ == (StoreModel { comments: final(repo)@.comments, ..old(repo)@ })
                && !final(repo)@.has_comment(comment.id),
    {
        if !crate::ascii::str_eq(
            comment.author.username.as_str(),
            self.profile.username.as_str(),
        ) {
            return Err(DeleteCommentError::Forbidden);
        }
        match repo.delete_comment(comment.id) {
            Ok(()) => Ok(()),
            Err(e) => {
                proof {
                    assert(false);
                }
                Err(e)
            },
        }
    }

    /// This user's feed: the articles of everyone they follow, newest
    /// first, paginated by the query.
    pub fn feed(&self, query: FeedQuery, repo: &Repository) -> (r: Result<
        Vec<ArticleView>,
        DatabaseError,
    >)
        requires
            repo.wf(),
        ensures
            r matches Ok(vs) && {
                let page = feed_page(repo@, self.id, query.limit, query.offset);
                &&& vs@.len() == page.len()
                &&& forall|k: int|
                    0 <= k < vs@.len() ==> view_of_row(#[trigger] vs@[k], repo@, page[k], self.id)
            },
    {
        repo.feed(self, query)
    }
}

impl Article {
    /// The comments of this article, ordered by creation time ascending.
    pub fn comments(&self, repo: &Repository) -> (r: Result<Vec<Comment>, DatabaseError>)
        requires
            repo.wf(),
        ensures
            r matches Ok(cs) && {
                let idxs = crate::store::comments::comment_idxs(
                    repo@.comments,
                    self.slug@,
                    repo@.comments.len() as int,
                );
                &&& cs@.len() == idxs.len()
                &&& forall|k: int|
                    0 <= k < cs@.len() ==> cs@[k] == crate::store::comments::comment_at(
                        repo@,
                        idxs[k],
                    )
            },
    {
        repo.get_comments(self)
    }
}

impl Comment {
    /// This comment as one viewer sees it: the author profile carries the
    /// viewer's follow relationship.
    pub fn view(&self, viewer: &User, repo: &Repository) -> (r: Result<CommentView, GetUserError>)
        requires
            repo.wf(),
        ensures
            r is Ok <==> repo@.has_username(self.author.username@),
            r matches Ok(v) ==> {
                let author = repo@.users[repo@.username_idx(self.author.username@)];
                &&& v.id == self.id
                &&& v.body == self.body
                &&& v.created_at == self.created_at
                &&& v.updated_at == self.updated_at
                &&& v.author.profile == profile_of_record(author)
                &&& v.author.following == repo@.is_following(viewer.id, author.id)
                &&& v.author.viewer == viewer.id
            },
    {
        let pv = match repo.get_profile_view(viewer, self.author.username.as_str()) {
            Ok(pv) => pv,
            Err(e) => {
                return Err(e);
            },
        };
        Ok(
            CommentView {
                id: self.id,
                author: pv,
                body: self.body.clone(),
                created_at: self.created_at,
                updated_at: self.updated_at,
            },
        )
    }
}

} // verus!

//! Comment rows: creation, lookup, listing in creation order, deletion.

use vstd::prelude::*;

use crate::domain::{Article, Comment, CommentContent, Profile, User};
use crate::errors::{DatabaseError, DeleteCommentError};
use crate::store::users::profile_of_record;
use crate::store::{
    lemma_comment_idx, lemma_comments_filter, lemma_user_idx, CommentRecord, Repository,
    StoreModel,
};

verus! {

/// The comment value row `i` denotes, its author resolved to a profile.
pub open spec fn comment_at(m: StoreModel, i: int) -> Comment {
    let rec = m.comments[i];
    Comment {
        id: rec.id,
        author: profile_of_record(m.users[m.user_idx(rec.author_id)]),
        body: rec.body,
        created_at: rec.created_at,
        updated_at: rec.updated_at,
    }
}

/// The indices below `n` of the comment rows that belong to this slug, in
/// row order, which is creation order.
pub open spec fn comment_idxs(comments: Seq<CommentRecord>, slug: Seq<char>, n: int) -> Seq<int>
    decreases n,
{
    if n <= 0 {
        Seq::<int>::empty()
    } else if comments[n - 1].article_slug@ == slug {
        comment_idxs(comments, slug, n - 1).push(n - 1)
    } else {
        comment_idxs(comments, slug, n - 1)
    }
}

/// When commenting is owed success: the article and the author exist and
/// neither counter has reached the machine limit.
pub open spec fn can_comment(m: StoreModel, slug: Seq<char>, author_id: u128) -> bool {
    &&& m.has_slug(slug)
    &&& m.has_user_id(author_id)
    &&& m.next_comment_id < u64::MAX as int
    &&& m.clock < u64::MAX as int
}

impl Repository {
    /// Stores a comment by this user on this article; the comment always
    /// references an existing article and author at creation time.
    pub fn comment_article(&mut self, user: &User, article: &Article, comment: CommentContent) -> (r:
        Result<Comment, DatabaseError>)
        requires
            old(self).wf(),
        ensures
            final(self).wf(),
            r is Ok <==> can_comment(old(self)@, article.slug@, user.id),
            r matches Err(e) ==> final(self)@ == old(self)@ && e == DatabaseError,
            r matches Ok(c) ==> {
                let m = old(self)@;
                let m2 = final(self)@;
                let rec = m2.comments.last();
                &&& m2.comments == m.comments.push(rec)
                &&& rec.id == m.next_comment_id as u64
                &&& rec.article_slug@ == article.slug@
                &&& rec.author_id == user.id
                &&& rec.body == comment.0
                &&& rec.created_at == m.clock + 1
                &&& rec.updated_at == m.clock + 1
                &&& c.id == rec.id
                &&& c.author == user.profile
                &&& c.body == comment.0
                &&& c.created_at == rec.created_at
                &&& c.updated_at == rec.updated_at
                &&& m2 == StoreModel {
                    comments: m2.comments,
                    next_comment_id: m.next_comment_id + 1,
                    clock: m.clock + 1,
                    ..m
                }
            },
    {
        if self.find_article_by_slug(article.slug.as_str()).is_none() {
            return Err(DatabaseError);
        }
        if self.find_user_by_id(user.id).is_none() {
            return Err(DatabaseError);
        }
        if self.next_comment_id == u64::MAX || self.clock == u64::MAX {
            return Err(DatabaseError);
        }
        let ghost m = self@;
        let id = self.next_comment_id;
        let now = self.clock + 1;
        self.clock = now;
        self.next_comment_id = id + 1;
        let rec = CommentRecord {
            id,
            article_slug: article.slug.clone(),
            author_id: user.id,
            body: comment.0.clone(),
            created_at: now,
            updated_at: now,
        };
        self.comments.push(rec);
        proof {
            let m2 = self@;
            assert(m2.users_wf());
            assert(m2.articles_wf());
            assert(m2.favorites_wf());
            assert(m2.follows_wf());
            assert(m2.comments_wf()) by {
                assert(m2.has_slug(article.slug@) && m2.has_user_id(user.id));
                assert forall|i: int, j: int|
                    0 <= i < m2.comments.len() && 0 <= j < m2.comments.len() && i != j implies (
                #[trigger] m2.comments[i]).id != (#[trigger] m2.comments[j]).id by {
                    if i < m.comments.len() && j < m.comments.len() {
                    } else {
                        let k = if i < m.comments.len() {
                            i
                        } else {
                            j
                        };
                        assert(m.comments[k].id < m.next_comment_id);
                    }
                }
            }
        }
        Ok(
            Comment {
                id,
                author: user.profile.duplicate(),
                body: comment.0,
                created_at: now,
                updated_at: now,
            },
        )
    }

    /// Looks a comment up by id; `Ok` exactly when the id exists.
    pub fn get_comment(&self, comment_id: u64) -> (r: Result<Comment, DeleteCommentError>)
        requires
            self.wf(),
        ensures
            r is Ok <==> self@.has_comment(comment_id),
            r matches Ok(c) ==> c == comment_at(self@, self@.comment_idx(comment_id)),
            r matches Err(e) ==> e == (DeleteCommentError::CommentNotFound { comment_id }),
    {
        let i = match self.find_comment_by_id(comment_id) {
            Option::Some(i) => i,
            Option::None => {
                return Err(DeleteCommentError::CommentNotFound { comment_id });
            },
        };
        proof {
            lemma_comment_idx(self@, i as int);
        }
        let author_id = self.comments[i].author_id;
        let u = match self.find_user_by_id(author_id) {
            Option::Some(u) => u,
            Option::None => {
                proof {
                    assert(false);
                }
                return Err(DeleteCommentError::UserNotFound);
            },
        };
        proof {
            lemma_user_idx(self@, u as int);
        }
        let rec = &self.comments[i];
        let author = &self.users[u];
        Ok(
            Comment {
                id: rec.id,
                author: Profile {
                    username: author.username.clone(),
                    bio: crate::domain::clone_opt_string(&author.bio),
                    image: crate::domain::clone_opt_string(&author.image),
                },
                body: rec.body.clone(),
                created_at: rec.created_at,
                updated_at: rec.updated_at,
            },
        )
    }

    /// Lists the comments of an article, ordered by creation time
    /// ascending.
    pub fn get_comments(&self, article: &Article) -> (r: Result<Vec<Comment>, DatabaseError>)
        requires
            self.wf(),
        ensures
            r matches Ok(cs) && {
                let idxs = comment_idxs(self@.comments, article.slug@, self@.comments.len() as int);
                &&& cs@.len() == idxs.len()
                &&& forall|k: int| 0 <= k < cs@.len() ==> cs@[k] == comment_at(self@, idxs[k])
            },
    {
        let ghost m = self@;
        let ghost slug = article.slug@;
        let mut out: Vec<Comment> = Vec::new();
        let mut i: usize = 0;
        while i < self.comments.len()
            invariant
                self.wf(),
                self@ == m,
                slug == article.slug@,
                i <= m.comments.len(),
                out@.len() == comment_idxs(m.comments, slug, i as int).len(),
                forall|k: int|
                    0 <= k < out@.len() ==> out@[k] == comment_at(
                        m,
                        comment_idxs(m.comments, slug, i as int)[k],
                    ),
            decreases m.comments.len() - i,
        {
            if crate::ascii::str_eq(self.comments[i].article_slug.as_str(), article.slug.as_str()) {
                let author_id = self.comments[i].author_id;
                let u = match self.find_user_by_id(author_id) {
                    Option::Some(u) => u,
                    Option::None => {
                        proof {
                            assert(false);
                        }
                        return Err(DatabaseError);
                    },
                };
                proof {
                    lemma_user_idx(self@, u as int);
                }
                let rec = &self.comments[i];
                let author = &self.users[u];
                let c = Comment {
                    id: rec.id,
                    author: Profile {
                        username: author.username.clone(),
                        bio: crate::domain::clone_opt_string(&author.bio),
                        image: crate::domain::clone_opt_string(&author.image),
                    },
                    body: rec.body.clone(),
                    created_at: rec.created_at,
                    updated_at: rec.updated_at,
                };
                assert(c == comment_at(m, i as int));
                out.push(c);
            }
            i = i + 1;
        }
        Ok(out)
    }

    /// Deletes the comment row with this id if it exists; deleting an
    /// absent id changes nothing. The caller enforces authorization.
    pub fn delete_comment(&mut self, comment_id: u64) -> (r: Result<(), DeleteCommentError>)
        requires
            old(self).wf(),
        ensures
            final(self).wf(),
            r is Ok,
            final(self)@.comments == old(self)@.comments.filter(
                (|c: CommentRecord| c.id != comment_id),
            ),
            final(self)@ == (StoreModel { comments: final(self)@.comments, ..old(self)@ }),
            !final(self)@.has_comment(comment_id),
    {
        let ghost m = self@;
        let ghost pred = |c: CommentRecord| c.id != comment_id;
        let mut kept: Vec<CommentRecord> = Vec::new();
        let mut i: usize = 0;
        while i < self.comments.len()
            invariant
                i <= self@.comments.len(),
                self@ == m,
                pred == (|c: CommentRecord| c.id != comment_id),
                kept@ == m.comments.take(i as int).filter(pred),
            decreases self@.comments.len() - i,
        {
            broadcast use Seq::lemma_filter_push, Seq::lemma_take_succ_push;

            if self.comments[i].id != comment_id {
                let rec = &self.comments[i];
                let c = CommentRecord {
                    id: rec.id,
                    article_slug: rec.article_slug.clone(),
                    author_id: rec.author_id,
                    body: rec.body.clone(),
                    created_at: rec.created_at,
                    updated_at: rec.updated_at,
                };
                assert(c == m.comments[i as int]);
                kept.push(c);
            }
            i = i + 1;
        }
        proof {
            assert(m.comments.take(m.comments.len() as int) == m.comments);
        }
        self.comments = kept;
        proof {
            let m2 = self@;
            lemma_comments_filter(m.comments, pred);
            assert(m2.users_wf());
            assert(m2.articles_wf());
            assert(m2.favorites_wf());
            assert(m2.follows_wf());
            assert(m2.comments_wf()) by {
                assert forall|i2: int| 0 <= i2 < m2.comments.len() implies m2.has_slug(
                    (#[trigger] m2.comments[i2]).article_slug@,
                ) && m2.has_user_id(m2.comments[i2].author_id) by {
                    assert(m.comments.contains(m2.comments[i2]));
                    let w = choose|w: int|
                        0 <= w < m.comments.len() && m.comments[w] == m2.comments[i2];
                    assert(m.has_slug(m.comments[w].article_slug@));
                    assert(m.has_user_id(m.comments[w].author_id));
                }
                assert forall|i2: int|
                    0 <= i2 < m2.comments.len() implies (#[trigger] m2.comments[i2]).id
                    < m2.next_comment_id && m2.comments[i2].created_at <= m2.comments[i2].updated_at
                    && m2.comments[i2].updated_at <= m2.clock by {
                    assert(m.comments.contains(m2.comments[i2]));
                    let w = choose|w: int|
                        0 <= w < m.comments.len() && m.comments[w] == m2.comments[i2];
                    assert(m.comments[w].id < m.next_comment_id);
                }
            }
            assert(!m2.has_comment(comment_id)) by {
                if m2.has_comment(comment_id) {
                    let j = choose|j: int|
                        0 <= j < m2.comments.len() && (#[trigger] m2.comments[j]).id == comment_id;
                    assert(pred(m2.comments[j]));
                }
            }
        }
        Ok(())
    }
}

} // verus!

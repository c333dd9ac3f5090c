//! Article rows: publishing, lookup by slug, partial update, deletion with
//! its cascades, listing, the follow-based feed, view assembly and tags.

use vstd::prelude::*;

use crate::domain::{
    Article, ArticleContent, ArticleMetadata, ArticleQuery, ArticleView, FeedQuery, Profile,
    ProfileView, User,
};
use crate::errors::{DatabaseError, GetArticleError, PublishArticleError};
use crate::slug::slug_of;
use crate::store::users::profile_of_record;
use crate::store::{
    follows_contains, lemma_articles_filter, lemma_comments_filter, lemma_favorites_filter,
    lemma_has_slug_prefix, lemma_slug_idx, lemma_user_idx, lemma_username_idx, ArticleRecord,
    CommentRecord, FavoriteRecord, Repository, StoreModel,
};

verus! {

/// An article value reflects row `i`: same content, the author resolved to
/// a profile, and the favorites count recomputed from the favorite rows.
pub open spec fn article_matches(a: Article, m: StoreModel, i: int) -> bool {
    let rec = m.articles[i];
    &&& a.slug == rec.slug
    &&& a.content.title == rec.title
    &&& a.content.description == rec.description
    &&& a.content.body == rec.body
    &&& a.content.tag_list@ == rec.tag_list@
    &&& a.author == profile_of_record(m.users[m.user_idx(rec.author_id)])
    &&& a.metadata.created_at == rec.created_at
    &&& a.metadata.updated_at == rec.updated_at
    &&& a.favorites_count == m.fav_count(rec.slug@)
}

/// When publishing is owed success: the author exists, the slug derived
/// from the title is free, and the clock has not reached the machine limit.
pub open spec fn can_publish(m: StoreModel, title: Seq<char>, author_id: u128) -> bool {
    &&& m.has_user_id(author_id)
    &&& !m.has_slug(slug_of(title))
    &&& m.clock < u64::MAX as int
}

impl Repository {
    /// Builds the article value of the row at a known index, under the
    /// store invariant.
    fn article_at(&self, i: usize) -> (a: Article)
        requires
            self.wf(),
            0 <= i < self@.articles.len(),
        ensures
            article_matches(a, self@, i as int),
    {
        let rec = &self.articles[i];
        let author_idx = match self.find_user_by_id(rec.author_id) {
            Option::Some(u) => u,
            Option::None => {
                proof {
                    assert(false);
                }
                0
            },
        };
        proof {
            lemma_user_idx(self@, author_idx as int);
        }
        let author = &self.users[author_idx];
        let favorites_count = self.count_favorites(rec.slug.as_str());
        Article {
            content: ArticleContent {
                title: rec.title.clone(),
                description: rec.description.clone(),
                body: rec.body.clone(),
                tag_list: crate::domain::clone_tags(&rec.tag_list),
            },
            slug: rec.slug.clone(),
            author: Profile {
                username: author.username.clone(),
                bio: crate::domain::clone_opt_string(&author.bio),
                image: crate::domain::clone_opt_string(&author.image),
            },
            metadata: ArticleMetadata { created_at: rec.created_at, updated_at: rec.updated_at },
            favorites_count,
        }
    }

    /// Publishes a draft: derives the slug from the title and inserts the
    /// row. A pre-existing slug is a hard conflict — two drafts with the
    /// same title always collide, and no second row is ever created.
    pub fn publish_article(&mut self, draft: ArticleContent, author: &User) -> (r: Result<
        Article,
        PublishArticleError,
    >)
        requires
            old(self).wf(),
        ensures
            final(self).wf(),
            r is Ok <==> can_publish(old(self)@, draft.title@, author.id),
            r matches Err(e) ==> final(self)@ == old(self)@ && (e
                == PublishArticleError::AuthorNotFound <==> !old(self)@.has_user_id(author.id)) && (
            (e matches PublishArticleError::DuplicatedSlug { slug: s } && s@ == slug_of(
                draft.title@,
            )) <==> old(self)@.has_user_id(author.id) && old(self)@.has_slug(slug_of(draft.title@))),
            r matches Ok(a) ==> {
                let m = old(self)@;
                let m2 = final(self)@;
                let rec = m2.articles.last();
                &&& m2.articles == m.articles.push(rec)
                &&& rec.slug@ == slug_of(draft.title@)
                &&& rec.title == draft.title
                &&& rec.description == draft.description
                &&& rec.body == draft.body
                &&& rec.tag_list@ == draft.tag_list@
                &&& rec.author_id == author.id
                &&& rec.created_at == m.clock + 1
                &&& rec.updated_at == m.clock + 1
                &&& m2 == (StoreModel { articles: m2.articles, clock: m.clock + 1, ..m })
                &&& a.content == draft
                &&& a.slug == rec.slug
                &&& a.author == author.profile
                &&& a.metadata.created_at == m.clock + 1
                &&& a.metadata.updated_at == m.clock + 1
                &&& a.favorites_count == 0
                &&& m2.fav_count(rec.slug@) == 0
                &&& m2.has_slug(slug_of(draft.title@))
            },
    {
        let slug = draft.slug();
        if self.find_user_by_id(author.id).is_none() {
            return Err(PublishArticleError::AuthorNotFound);
        }
        if self.find_article_by_slug(slug.as_str()).is_some() {
            return Err(PublishArticleError::DuplicatedSlug { slug });
        }
        if self.clock == u64::MAX {
            return Err(PublishArticleError::DatabaseError);
        }
        let ghost m = self@;
        let now = self.clock + 1;
        self.clock = now;
        let rec = ArticleRecord {
            slug: slug.clone(),
            title: draft.title.clone(),
            description: draft.description.clone(),
            body: draft.body.clone(),
            tag_list: crate::domain::clone_tags(&draft.tag_list),
            author_id: author.id,
            created_at: now,
            updated_at: now,
        };
        self.articles.push(rec);
        proof {
            let m2 = self@;
            lemma_has_slug_prefix(m, m2);
            assert(m2.articles.last().slug@ == slug_of(draft.title@));
            assert(m2.has_slug(slug_of(draft.title@)));
            assert(m2.users_wf());
            assert(m2.follows_wf());
            assert(m2.articles_wf()) by {
                assert forall|i: int, j: int|
                    0 <= i < m2.articles.len() && 0 <= j < m2.articles.len() && i != j implies (
                #[trigger] m2.articles[i]).slug@ != (#[trigger] m2.articles[j]).slug@ by {
                    if i < m.articles.len() && j < m.articles.len() {
                    } else {
                        let k = if i < m.articles.len() {
                            i
                        } else {
                            j
                        };
                        assert(!m.has_slug(slug_of(draft.title@)));
                        assert(m.articles[k].slug@ != slug_of(draft.title@));
                    }
                }
            }
            assert(m2.comments_wf());
            assert(m2.favorites_wf());
            // No favorite row can reference the fresh slug.
            assert forall|i: int|
                0 <= i < m2.favorites.len() implies (#[trigger] m2.favorites[i]).article_slug@
                != slug_of(draft.title@) by {
                if m2.favorites[i].article_slug@ == slug_of(draft.title@) {
                    assert(m.has_slug(m.favorites[i].article_slug@));
                }
            }
            crate::store::lemma_favs_count_absent(m2.favorites, slug_of(draft.title@));
            assert(m2.fav_count(slug_of(draft.title@)) == 0);
        }
        Ok(
            Article {
                slug,
                author: author.profile.duplicate(),
                metadata: ArticleMetadata { created_at: now, updated_at: now },
                favorites_count: 0,
                content: draft,
            },
        )
    }

    /// Looks an article up by slug; `Ok` exactly when the slug exists. The
    /// favorites count is recomputed from the favorite rows at read time.
    pub fn get_article_by_slug(&self, slug: &str) -> (r: Result<Article, GetArticleError>)
        requires
            self.wf(),
        ensures
            r is Ok <==> self@.has_slug(slug@),
            r matches Ok(a) ==> article_matches(a, self@, self@.slug_idx(slug@)),
            r matches Err(e) ==> (e matches GetArticleError::ArticleNotFound { slug: s } && s@
                == slug@),
    {
        match self.find_article_by_slug(slug) {
            Option::Some(i) => {
                proof {
                    lemma_slug_idx(self@, i as int);
                }
                Ok(self.article_at(i))
            },
            Option::None => Err(GetArticleError::ArticleNotFound { slug: slug.to_owned() }),
        }
    }

    /// Partially updates an article row in place: absent fields stay
    /// unchanged, the slug never changes, and the update timestamp
    /// advances. Returns the row as re-read after the write.
    pub fn update_article(&mut self, article: Article, update: crate::domain::ArticleUpdate) -> (r:
        Result<Article, DatabaseError>)
        requires
            old(self).wf(),
        ensures
            final(self).wf(),
            r is Ok <==> old(self)@.has_slug(article.slug@) && old(self)@.clock < u64::MAX as int,
            r matches Err(e) ==> final(self)@ == old(self)@ && e == DatabaseError,
            r matches Ok(a) ==> {
                let m = old(self)@;
                let m2 = final(self)@;
                let idx = m.slug_idx(article.slug@);
                let rec = m.articles[idx];
                let rec2 = m2.articles[idx];
                &&& m2.articles == m.articles.update(idx, rec2)
                &&& rec2.slug == rec.slug
                &&& rec2.title == (match update.title {
                    Option::Some(t) => t,
                    Option::None => rec.title,
                })
                &&& rec2.description == (match update.description {
                    Option::Some(d) => d,
                    Option::None => rec.description,
                })
                &&& rec2.body == (match update.body {
                    Option::Some(b) => b,
                    Option::None => rec.body,
                })
                &&& rec2.tag_list@ == rec.tag_list@
                &&& rec2.author_id == rec.author_id
                &&& rec2.created_at == rec.created_at
                &&& rec2.updated_at == m.clock + 1
                &&& m2 == (StoreModel { articles: m2.articles, clock: m.clock + 1, ..m })
                &&& article_matches(a, m2, idx)
            },
    {
        let idx = match self.find_article_by_slug(article.slug.as_str()) {
            Option::Some(i) => i,
            Option::None => {
                return Err(DatabaseError);
            },
        };
        proof {
            lemma_slug_idx(self@, idx as int);
        }
        if self.clock == u64::MAX {
            return Err(DatabaseError);
        }
        let ghost m = self@;
        let now = self.clock + 1;
        self.clock = now;
        let old_rec = &self.articles[idx];
        let rec2 = ArticleRecord {
            slug: old_rec.slug.clone(),
            title: match &update.title {
                Option::Some(t) => t.clone(),
                Option::None => old_rec.title.clone(),
            },
            description: match &update.description {
                Option::Some(d) => d.clone(),
                Option::None => old_rec.description.clone(),
            },
            body: match &update.body {
                Option::Some(b) => b.clone(),
                Option::None => old_rec.body.clone(),
            },
            tag_list: crate::domain::clone_tags(&old_rec.tag_list),
            author_id: old_rec.author_id,
            created_at: old_rec.created_at,
            updated_at: now,
        };
        self.articles[idx] = rec2;
        proof {
            let m2 = self@;
            // Slugs are unchanged row for row, so every slug lookup carries over.
            assert forall|x: Seq<char>| #[trigger] m.has_slug(x) implies m2.has_slug(x) by {
                let w = choose|w: int|
                    0 <= w < m.articles.len() && (#[trigger] m.articles[w]).slug@ == x;
                assert(m2.articles[w].slug@ == x);
            }
            assert(m2.users_wf());
            assert(m2.follows_wf());
            assert(m2.articles_wf()) by {
                assert forall|i: int, j: int|
                    0 <= i < m2.articles.len() && 0 <= j < m2.articles.len() && i != j implies (
                #[trigger] m2.articles[i]).slug@ != (#[trigger] m2.articles[j]).slug@ by {
                    assert(m2.articles[i].slug@ == m.articles[i].slug@);
                    assert(m2.articles[j].slug@ == m.articles[j].slug@);
                }
                assert forall|i: int| 0 <= i < m2.articles.len() implies m2.has_user_id(
                    (#[trigger] m2.articles[i]).author_id,
                ) by {
                    assert(m2.articles[i].author_id == m.articles[i].author_id);
                    assert(m.has_user_id(m.articles[i].author_id));
                }
                assert forall|i: int, j: int|
                    0 <= i < j < m2.articles.len() implies (#[trigger] m2.articles[i]).created_at
                    < (#[trigger] m2.articles[j]).created_at by {
                    assert(m2.articles[i].created_at == m.articles[i].created_at);
                    assert(m2.articles[j].created_at == m.articles[j].created_at);
                }
            }
            assert(m2.comments_wf());
            assert(m2.favorites_wf());
        }
        Ok(self.article_at(idx))
    }

    /// Deletes an article row together with its comments and favorite rows,
    /// so no row ever references an absent article.
    pub fn delete_article(&mut self, article: &Article) -> (r: Result<(), DatabaseError>)
        requires
            old(self).wf(),
        ensures
            final(self).wf(),
            r is Ok <==> old(self)@.has_slug(article.slug@),
            r matches Err(e) ==> final(self)@ == old(self)@ && e == DatabaseError,
            r is Ok ==> {
                let m = old(self)@;
                let m2 = final(self)@;
                &&& m2.articles == m.articles.filter(
                    (|a: ArticleRecord| a.slug@ != article.slug@),
                )
                &&& m2.comments == m.comments.filter(
                    (|c: CommentRecord| c.article_slug@ != article.slug@),
                )
                &&& m2.favorites == m.favorites.filter(
                    (|f: FavoriteRecord| f.article_slug@ != article.slug@),
                )
                &&& m2 == (StoreModel {
                    articles: m2.articles,
                    comments: m2.comments,
                    favorites: m2.favorites,
                    ..m
                })
                &&& !m2.has_slug(article.slug@)
            },
    {
        if self.find_article_by_slug(article.slug.as_str()).is_none() {
            return Err(DatabaseError);
        }
        let ghost m = self@;
        let ghost apred = |a: ArticleRecord| a.slug@ != article.slug@;
        let ghost cpred = |c: CommentRecord| c.article_slug@ != article.slug@;
        let ghost fpred = |f: FavoriteRecord| f.article_slug@ != article.slug@;
        let total = self.articles.len();
        let mut old_articles: Vec<ArticleRecord> = Vec::new();
        core::mem::swap(&mut old_articles, &mut self.articles);
        let mut kept_articles: Vec<ArticleRecord> = Vec::new();
        let mut i: usize = 0;
        while old_articles.len() > 0
            invariant
                total == m.articles.len(),
                i + old_articles@.len() == m.articles.len(),
                old_articles@ == m.articles.skip(i as int),
                apred == (|a: ArticleRecord| a.slug@ != article.slug@),
                kept_articles@ == m.articles.take(i as int).filter(apred),
            decreases old_articles@.len(),
        {
            broadcast use Seq::lemma_filter_push, Seq::lemma_take_succ_push;

            let rec = old_articles.remove(0);
            proof {
                assert(rec == m.articles[i as int]);
                assert(old_articles@ =~= m.articles.skip(i as int + 1));
            }
            if !crate::ascii::str_eq(rec.slug.as_str(), article.slug.as_str()) {
                kept_articles.push(rec);
            }
            i = i + 1;
        }
        proof {
            assert(i == m.articles.len());
        }
        let mut kept_comments: Vec<CommentRecord> = Vec::new();
        let mut j: usize = 0;
        while j < self.comments.len()
            invariant
                j <= self@.comments.len(),
                self@.comments == m.comments,
                cpred == (|c: CommentRecord| c.article_slug@ != article.slug@),
                kept_comments@ == m.comments.take(j as int).filter(cpred),
            decreases self@.comments.len() - j,
        {
            broadcast use Seq::lemma_filter_push, Seq::lemma_take_succ_push;

            if !crate::ascii::str_eq(self.comments[j].article_slug.as_str(), article.slug.as_str())
            {
                let rec = &self.comments[j];
                let c = CommentRecord {
                    id: rec.id,
                    article_slug: rec.article_slug.clone(),
                    author_id: rec.author_id,
                    body: rec.body.clone(),
                    created_at: rec.created_at,
                    updated_at: rec.updated_at,
                };
                assert(c == m.comments[j as int]);
                kept_comments.push(c);
            }
            j = j + 1;
        }
        let mut kept_favorites: Vec<FavoriteRecord> = Vec::new();
        let mut k: usize = 0;
        while k < self.favorites.len()
            invariant
                k <= self@.favorites.len(),
                self@.favorites == m.favorites,
                fpred == (|f: FavoriteRecord| f.article_slug@ != article.slug@),
                kept_favorites@ == m.favorites.take(k as int).filter(fpred),
            decreases self@.favorites.len() - k,
        {
            broadcast use Seq::lemma_filter_push, Seq::lemma_take_succ_push;

            if !crate::ascii::str_eq(self.favorites[k].article_slug.as_str(), article.slug.as_str())
            {
                let f = FavoriteRecord {
                    article_slug: self.favorites[k].article_slug.clone(),
                    user_id: self.favorites[k].user_id,
                };
                assert(f == m.favorites[k as int]);
                kept_favorites.push(f);
            }
            k = k + 1;
        }
        proof {
            assert(m.articles.take(m.articles.len() as int) == m.articles);
            assert(m.comments.take(m.comments.len() as int) == m.comments);
            assert(m.favorites.take(m.favorites.len() as int) == m.favorites);
        }
        self.articles = kept_articles;
        self.comments = kept_comments;
        self.favorites = kept_favorites;
        proof {
            let m2 = self@;
            lemma_articles_filter(m.articles, apred);
            lemma_comments_filter(m.comments, cpred);
            lemma_favorites_filter(m.favorites, fpred);
            assert(!m2.has_slug(article.slug@)) by {
                if m2.has_slug(article.slug@) {
                    let w = choose|w: int|
                        0 <= w < m2.articles.len() && (#[trigger] m2.articles[w]).slug@
                            == article.slug@;
                    assert(apred(m2.articles[w]));
                }
            }
            // A kept slug is a kept row: lookups of surviving slugs carry over.
            assert forall|x: Seq<char>|
                m.has_slug(x) && x != article.slug@ implies #[trigger] m2.has_slug(x) by {
                let w = choose|w: int|
                    0 <= w < m.articles.len() && (#[trigger] m.articles[w]).slug@ == x;
                assert(apred(m.articles[w]));
                Seq::lemma_filter_contains(m.articles, apred, w);
                let v = choose|v: int| 0 <= v < m2.articles.len() && m2.articles[v] == m.articles[w];
                assert(m2.articles[v].slug@ == x);
            }
            assert(m2.users_wf());
            assert(m2.follows_wf());
            assert(m2.articles_wf()) by {
                assert forall|i2: int| 0 <= i2 < m2.articles.len() implies m2.has_user_id(
                    (#[trigger] m2.articles[i2]).author_id,
                ) && m2.articles[i2].created_at <= m2.articles[i2].updated_at
                    && m2.articles[i2].updated_at <= m2.clock by {
                    assert(m.articles.contains(m2.articles[i2]));
                    let w = choose|w: int|
                        0 <= w < m.articles.len() && m.articles[w] == m2.articles[i2];
                    assert(m.has_user_id(m.articles[w].author_id));
                }
            }
            assert(m2.comments_wf()) by {
                assert forall|i2: int| 0 <= i2 < m2.comments.len() implies m2.has_slug(
                    (#[trigger] m2.comments[i2]).article_slug@,
                ) && m2.has_user_id(m2.comments[i2].author_id) && m2.comments[i2].id
                    < m2.next_comment_id && m2.comments[i2].created_at
                    <= m2.comments[i2].updated_at && m2.comments[i2].updated_at <= m2.clock by {
                    assert(m.comments.contains(m2.comments[i2]));
                    let w = choose|w: int|
                        0 <= w < m.comments.len() && m.comments[w] == m2.comments[i2];
                    assert(m.has_slug(m.comments[w].article_slug@));
                    assert(m.has_user_id(m.comments[w].author_id));
                    assert(m.comments[w].id < m.next_comment_id);
                    assert(cpred(m2.comments[i2]));
                }
            }
            assert(m2.favorites_wf()) by {
                assert forall|i2: int| 0 <= i2 < m2.favorites.len() implies m2.has_slug(
                    (#[trigger] m2.favorites[i2]).article_slug@,
                ) && m2.has_user_id(m2.favorites[i2].user_id) by {
                    assert(m.favorites.contains(m2.favorites[i2]));
                    let w = choose|w: int|
                        0 <= w < m.favorites.len() && m.favorites[w] == m2.favorites[i2];
                    assert(m.has_slug(m.favorites[w].article_slug@));
                    assert(m.has_user_id(m.favorites[w].user_id));
                    assert(fpred(m2.favorites[i2]));
                }
            }
        }
        Ok(())
    }
}

/// A tag list contains this tag.
pub open spec fn tags_contain(tags: Seq<String>, t: Seq<char>) -> bool {
    exists|i: int| 0 <= i < tags.len() && (#[trigger] tags[i])@ == t
}

/// Some article's tag list contains this tag.
pub open spec fn store_has_tag(m: StoreModel, t: Seq<char>) -> bool {
    exists|i: int|
        0 <= i < m.articles.len() && tags_contain((#[trigger] m.articles[i]).tag_list@, t)
}

/// Whether article row `i` matches the listing query: its author's
/// username where one is asked for, and a tag of its list where one is
/// asked for. A `favorited` filter is accepted but not applied, as in the
/// storage layer this models.
pub open spec fn query_matches(m: StoreModel, i: int, q: ArticleQuery) -> bool {
    &&& match q.author {
        Option::Some(a) => m.users[m.user_idx(m.articles[i].author_id)].username@ == a@,
        Option::None => true,
    }
    &&& match q.tag {
        Option::Some(t) => tags_contain(m.articles[i].tag_list@, t@),
        Option::None => true,
    }
}

/// The indices below `n` of the article rows that match the query, in row
/// order.
pub open spec fn query_idxs(m: StoreModel, q: ArticleQuery, n: int) -> Seq<int>
    decreases n,
{
    if n <= 0 {
        Seq::<int>::empty()
    } else if query_matches(m, n - 1, q) {
        query_idxs(m, q, n - 1).push(n - 1)
    } else {
        query_idxs(m, q, n - 1)
    }
}

/// The indices below `n` of the article rows whose author the user
/// follows, newest first.
pub open spec fn feed_idxs(m: StoreModel, uid: u128, n: int) -> Seq<int>
    decreases n,
{
    if n <= 0 {
        Seq::<int>::empty()
    } else if follows_contains(m.follows, uid, m.articles[n - 1].author_id) {
        seq![n - 1] + feed_idxs(m, uid, n - 1)
    } else {
        feed_idxs(m, uid, n - 1)
    }
}

/// The feed never lists more rows than the store holds.
pub proof fn lemma_feed_idxs_len(m: StoreModel, uid: u128, n: int)
    ensures
        feed_idxs(m, uid, n).len() <= (if n >= 0 { n } else { 0 }),
    decreases n,
{
    if n > 0 {
        lemma_feed_idxs_len(m, uid, n - 1);
    }
}

/// The page the feed returns for this limit and offset: the slice of the
/// full feed starting at `offset` and at most `limit` long.
pub open spec fn feed_page(m: StoreModel, uid: u128, limit: u64, offset: u64) -> Seq<int> {
    let f = feed_idxs(m, uid, m.articles.len() as int);
    let lo = if offset as int <= f.len() {
        offset as int
    } else {
        f.len() as int
    };
    let hi = if offset as int + limit as int <= f.len() {
        offset as int + limit as int
    } else {
        f.len() as int
    };
    if lo <= hi {
        f.subrange(lo, hi)
    } else {
        Seq::<int>::empty()
    }
}

/// An article view reflects row `i` as this viewer sees it: the row's
/// content, the author profile with the viewer's follow relationship, and
/// the favorite state and count recomputed from the favorite rows.
pub open spec fn view_of_row(v: ArticleView, m: StoreModel, i: int, viewer: u128) -> bool {
    let rec = m.articles[i];
    &&& v.slug == rec.slug
    &&& v.content.title == rec.title
    &&& v.content.description == rec.description
    &&& v.content.body == rec.body
    &&& v.content.tag_list@ == rec.tag_list@
    &&& v.author.profile == profile_of_record(m.users[m.user_idx(rec.author_id)])
    &&& v.author.following == follows_contains(m.follows, viewer, rec.author_id)
    &&& v.author.viewer == viewer
    &&& v.metadata.created_at == rec.created_at
    &&& v.metadata.updated_at == rec.updated_at
    &&& v.favorited == m.is_favorite(rec.slug@, viewer)
    &&& v.favorites_count == m.fav_count(rec.slug@)
    &&& v.viewer == viewer
}

/// An article view composed from a passed article value: its content and
/// metadata, with the author profile, follow relationship, favorite state
/// and count read from the store at view time.
pub open spec fn view_of_article(v: ArticleView, m: StoreModel, a: Article, viewer: u128) -> bool {
    let author = m.users[m.username_idx(a.author.username@)];
    &&& v.content == a.content
    &&& v.slug == a.slug
    &&& v.metadata == a.metadata
    &&& v.author.profile == profile_of_record(author)
    &&& v.author.following == follows_contains(m.follows, viewer, author.id)
    &&& v.author.viewer == viewer
    &&& v.favorited == m.is_favorite(a.slug@, viewer)
    &&& v.favorites_count == m.fav_count(a.slug@)
    &&& v.viewer == viewer
}

impl Repository {
    /// Whether a tag list holds this tag.
    fn tags_have(tags: &Vec<String>, t: &str) -> (r: bool)
        ensures
            r == tags_contain(tags@, t@),
    {
        let mut i: usize = 0;
        while i < tags.len()
            invariant
                i <= tags@.len(),
                forall|j: int| 0 <= j < i ==> (#[trigger] tags@[j])@ != t@,
            decreases tags@.len() - i,
        {
            if crate::ascii::str_eq(tags[i].as_str(), t) {
                return true;
            }
            i = i + 1;
        }
        false
    }

    /// Whether article row `i` matches the listing query.
    fn row_matches_query(&self, i: usize, query: &ArticleQuery) -> (r: bool)
        requires
            self.wf(),
            0 <= i < self@.articles.len(),
        ensures
            r == query_matches(self@, i as int, *query),
    {
        let rec = &self.articles[i];
        match &query.author {
            Option::Some(a) => {
                let author_idx = match self.find_user_by_id(rec.author_id) {
                    Option::Some(u) => u,
                    Option::None => {
                        proof {
                            assert(false);
                        }
                        0
                    },
                };
                proof {
                    lemma_user_idx(self@, author_idx as int);
                }
                if !crate::ascii::str_eq(self.users[author_idx].username.as_str(), a.as_str()) {
                    return false;
                }
            },
            Option::None => {},
        }
        match &query.tag {
            Option::Some(t) => {
                if !Self::tags_have(&rec.tag_list, t.as_str()) {
                    return false;
                }
            },
            Option::None => {},
        }
        true
    }

    /// Lists the articles that match the query, in creation order. The
    /// favorites count of each is recomputed at read time.
    pub fn find_articles(&self, query: ArticleQuery) -> (r: Result<Vec<Article>, DatabaseError>)
        requires
            self.wf(),
        ensures
            r matches Ok(arts) && {
                let idxs = query_idxs(self@, query, self@.articles.len() as int);
                &&& arts@.len() == idxs.len()
                &&& forall|k: int|
                    0 <= k < arts@.len() ==> article_matches(#[trigger] arts@[k], self@, idxs[k])
            },
    {
        let ghost m = self@;
        let mut out: Vec<Article> = Vec::new();
        let mut i: usize = 0;
        while i < self.articles.len()
            invariant
                self.wf(),
                self@ == m,
                i <= m.articles.len(),
                out@.len() == query_idxs(m, query, i as int).len(),
                forall|k: int|
                    0 <= k < out@.len() ==> article_matches(
                        #[trigger] out@[k],
                        m,
                        query_idxs(m, query, i as int)[k],
                    ),
            decreases m.articles.len() - i,
        {
            if self.row_matches_query(i, &query) {
                let a = self.article_at(i);
                out.push(a);
            }
            i = i + 1;
        }
        Ok(out)
    }

    /// Composes the view one viewer sees of an article value: live follow
    /// relationship, favorite state and favorites count. `Ok` exactly when
    /// the author's username exists.
    pub fn get_article_view(&self, viewer: &User, article: Article) -> (r: Result<
        ArticleView,
        GetArticleError,
    >)
        requires
            self.wf(),
        ensures
            r is Ok <==> self@.has_username(article.author.username@),
            r matches Ok(v) ==> view_of_article(v, self@, article, viewer.id),
            r matches Err(e) ==> e == GetArticleError::AuthorNotFound,
    {
        let author_idx = match self.find_user_by_username(article.author.username.as_str()) {
            Option::Some(u) => u,
            Option::None => {
                return Err(GetArticleError::AuthorNotFound);
            },
        };
        proof {
            lemma_username_idx(self@, author_idx as int);
        }
        let author = &self.users[author_idx];
        let following = self.contains_follow(viewer.id, author.id);
        let favorited = self.contains_favorite(article.slug.as_str(), viewer.id);
        let favorites_count = self.count_favorites(article.slug.as_str());
        Ok(
            ArticleView {
                content: article.content,
                slug: article.slug,
                author: ProfileView {
                    profile: Profile {
                        username: author.username.clone(),
                        bio: crate::domain::clone_opt_string(&author.bio),
                        image: crate::domain::clone_opt_string(&author.image),
                    },
                    following,
                    viewer: viewer.id,
                },
                metadata: article.metadata,
                favorited,
                favorites_count,
                viewer: viewer.id,
            },
        )
    }

    /// Composes the views of many article values for one viewer; each
    /// article is rejoined with that viewer's own relationship answers.
    #[verifier::loop_isolation(false)]
    pub fn get_articles_views(&self, viewer: &User, articles: Vec<Article>) -> (r: Result<
        Vec<ArticleView>,
        DatabaseError,
    >)
        requires
            self.wf(),
        ensures
            r is Ok <==> (forall|k: int|
                0 <= k < articles@.len() ==> self@.has_username(
                    (#[trigger] articles@[k]).author.username@,
                )),
            r matches Ok(vs) ==> vs@.len() == articles@.len() && (forall|k: int|
                0 <= k < vs@.len() ==> view_of_article(
                    #[trigger] vs@[k],
                    self@,
                    articles@[k],
                    viewer.id,
                )),
            r matches Err(e) ==> e == DatabaseError,
    {
        let ghost ga = articles@;
        let total = articles.len();
        let mut rest = articles;
        let mut out: Vec<ArticleView> = Vec::new();
        let mut k: usize = 0;
        while rest.len() > 0
            invariant
                self.wf(),
                total == ga.len(),
                k + rest@.len() == ga.len(),
                rest@ == ga.skip(k as int),
                out@.len() == k,
                forall|j: int|
                    0 <= j < k ==> view_of_article(#[trigger] out@[j], self@, ga[j], viewer.id),
                forall|j: int|
                    0 <= j < k ==> self@.has_username((#[trigger] ga[j]).author.username@),
            decreases rest@.len(),
        {
            let a = rest.remove(0);
            proof {
                assert(a == ga[k as int]);
                assert(rest@ =~= ga.skip(k as int + 1));
            }
            match self.get_article_view(viewer, a) {
                Ok(v) => {
                    out.push(v);
                },
                Err(_) => {
                    proof {
                        assert(!self@.has_username((#[trigger] ga[k as int]).author.username@));
                    }
                    return Err(DatabaseError);
                },
            }
            k = k + 1;
        }
        proof {
            assert(k == ga.len());
        }
        Ok(out)
    }

    /// The feed: the articles whose author the user follows, newest first,
    /// paginated by the query's offset and limit.
    pub fn feed(&self, user: &User, query: FeedQuery) -> (r: Result<Vec<ArticleView>, DatabaseError>)
        requires
            self.wf(),
        ensures
            r matches Ok(vs) && {
                let page = feed_page(self@, user.id, query.limit, query.offset);
                &&& vs@.len() == page.len()
                &&& forall|k: int|
                    0 <= k < vs@.len() ==> view_of_row(#[trigger] vs@[k], self@, page[k], user.id)
            },
    {
        let ghost m = self@;
        let ghost ff = feed_idxs(m, user.id, m.articles.len() as int);
        proof {
            lemma_feed_idxs_len(m, user.id, m.articles.len() as int);
        }
        let total = self.articles.len();
        let mut out: Vec<ArticleView> = Vec::new();
        let mut matched: u64 = 0;
        let ghost mut seen: Seq<int> = Seq::empty();
        let mut i: usize = total;
        while i > 0
            invariant
                self.wf(),
                self@ == m,
                total == m.articles.len(),
                i <= total,
                ff == feed_idxs(m, user.id, total as int),
                ff.len() <= total,
                ff == seen + feed_idxs(m, user.id, i as int),
                matched == seen.len(),
                out@.len() == (if matched <= query.offset {
                    0int
                } else if matched as int - query.offset as int <= query.limit as int {
                    matched as int - query.offset as int
                } else {
                    query.limit as int
                }),
                forall|k: int|
                    0 <= k < out@.len() ==> view_of_row(
                        #[trigger] out@[k],
                        m,
                        ff[query.offset as int + k],
                        user.id,
                    ),
            decreases i,
        {
            let row = i - 1;
            let ghost frest = feed_idxs(m, user.id, i as int);
            if self.contains_follow(user.id, self.articles[row].author_id) {
                proof {
                    assert(frest == seq![row as int] + feed_idxs(m, user.id, row as int));
                    assert(frest[0] == row as int);
                    assert(ff[seen.len() as int] == row as int);
                }
                if matched >= query.offset && (out.len() as u64) < query.limit {
                    proof {
                        assert(out@.len() == matched - query.offset);
                    }
                    let rec = &self.articles[row];
                    let author_idx = match self.find_user_by_id(rec.author_id) {
                        Option::Some(u) => u,
                        Option::None => {
                            proof {
                                assert(false);
                            }
                            0
                        },
                    };
                    proof {
                        lemma_user_idx(self@, author_idx as int);
                    }
                    let author = &self.users[author_idx];
                    let favorited = self.contains_favorite(rec.slug.as_str(), user.id);
                    let favorites_count = self.count_favorites(rec.slug.as_str());
                    let v = ArticleView {
                        content: ArticleContent {
                            title: rec.title.clone(),
                            description: rec.description.clone(),
                            body: rec.body.clone(),
                            tag_list: crate::domain::clone_tags(&rec.tag_list),
                        },
                        slug: rec.slug.clone(),
                        author: ProfileView {
                            profile: Profile {
                                username: author.username.clone(),
                                bio: crate::domain::clone_opt_string(&author.bio),
                                image: crate::domain::clone_opt_string(&author.image),
                            },
                            following: true,
                            viewer: user.id,
                        },
                        metadata: ArticleMetadata {
                            created_at: rec.created_at,
                            updated_at: rec.updated_at,
                        },
                        favorited,
                        favorites_count,
                        viewer: user.id,
                    };
                    proof {
                        assert(view_of_row(v, m, row as int, user.id));
                    }
                    out.push(v);
                }
                matched = matched + 1;
                proof {
                    seen = seen.push(row as int);
                    assert(ff =~= seen + feed_idxs(m, user.id, row as int));
                }
            } else {
                proof {
                    assert(frest == feed_idxs(m, user.id, row as int));
                }
            }
            i = row;
        }
        proof {
            assert(feed_idxs(m, user.id, 0) == Seq::<int>::empty());
            assert(ff =~= seen);
            let page = feed_page(m, user.id, query.limit, query.offset);
            assert(out@.len() == page.len());
            assert forall|k: int| 0 <= k < out@.len() implies view_of_row(
                #[trigger] out@[k],
                m,
                page[k],
                user.id,
            ) by {
                assert(page[k] == ff[query.offset as int + k]);
            }
        }
        Ok(out)
    }

    /// The distinct set of tags across all articles' tag lists: each listed
    /// tag stands on some article, every article's tag is listed, and no
    /// tag is listed twice. Order carries no meaning.
    pub fn get_tags(&self) -> (r: Result<Vec<String>, DatabaseError>)
        ensures
            r matches Ok(ts) && {
                &&& forall|k: int|
                    0 <= k < ts@.len() ==> store_has_tag(self@, (#[trigger] ts@[k])@)
                &&& forall|i: int, j: int|
                    0 <= i < self@.articles.len() && 0 <= j < self@.articles[i].tag_list@.len()
                        ==> tags_contain(
                        ts@,
                        (#[trigger] self@.articles[i].tag_list@[j])@,
                    )
                &&& forall|k1: int, k2: int|
                    0 <= k1 < ts@.len() && 0 <= k2 < ts@.len() && k1 != k2 ==> (
                    #[trigger] ts@[k1])@ != (#[trigger] ts@[k2])@
            },
    {
        let ghost m = self@;
        let mut out: Vec<String> = Vec::new();
        let mut i: usize = 0;
        while i < self.articles.len()
            invariant
                self@ == m,
                i <= m.articles.len(),
                forall|k: int| 0 <= k < out@.len() ==> store_has_tag(m, (#[trigger] out@[k])@),
                forall|i2: int, j2: int|
                    0 <= i2 < i && 0 <= j2 < m.articles[i2].tag_list@.len() ==> tags_contain(
                        out@,
                        (#[trigger] m.articles[i2].tag_list@[j2])@,
                    ),
                forall|k1: int, k2: int|
                    0 <= k1 < out@.len() && 0 <= k2 < out@.len() && k1 != k2 ==> (
                    #[trigger] out@[k1])@ != (#[trigger] out@[k2])@,
            decreases m.articles.len() - i,
        {
            let tags = &self.articles[i].tag_list;
            let mut j: usize = 0;
            while j < tags.len()
                invariant
                    self@ == m,
                    i < m.articles.len(),
                    tags == &m.articles[i as int].tag_list,
                    j <= tags@.len(),
                    forall|k: int| 0 <= k < out@.len() ==> store_has_tag(m, (#[trigger] out@[k])@),
                    forall|i2: int, j2: int|
                        0 <= i2 < i && 0 <= j2 < m.articles[i2].tag_list@.len() ==> tags_contain(
                            out@,
                            (#[trigger] m.articles[i2].tag_list@[j2])@,
                        ),
                    forall|j2: int|
                        0 <= j2 < j ==> tags_contain(
                            out@,
                            (#[trigger] m.articles[i as int].tag_list@[j2])@,
                        ),
                    forall|k1: int, k2: int|
                        0 <= k1 < out@.len() && 0 <= k2 < out@.len() && k1 != k2 ==> (
                        #[trigger] out@[k1])@ != (#[trigger] out@[k2])@,
                decreases tags@.len() - j,
            {
                let ghost old_out = out@;
                if !Self::tags_have(&out, tags[j].as_str()) {
                    let t = tags[j].clone();
                    out.push(t);
                    proof {
                        assert(store_has_tag(m, tags@[j as int]@)) by {
                            assert(tags_contain(m.articles[i as int].tag_list@, tags@[j as int]@));
                        }
                        assert forall|j2: int|
                            0 <= j2 < j + 1 implies tags_contain(
                            out@,
                            (#[trigger] m.articles[i as int].tag_list@[j2])@,
                        ) by {
                            if j2 < j {
                                let w = choose|w: int|
                                    0 <= w < old_out.len() && (#[trigger] old_out[w])@
                                        == m.articles[i as int].tag_list@[j2]@;
                                assert(out@[w]@ == m.articles[i as int].tag_list@[j2]@);
                            } else {
                                assert(out@[out@.len() - 1]@ == m.articles[i as int].tag_list@[j2]@);
                            }
                        }
                        assert forall|i2: int, j2: int|
                            0 <= i2 < i && 0 <= j2 < m.articles[i2].tag_list@.len()
                                implies tags_contain(
                            out@,
                            (#[trigger] m.articles[i2].tag_list@[j2])@,
                        ) by {
                            assert(tags_contain(old_out, m.articles[i2].tag_list@[j2]@));
                            let w = choose|w: int|
                                0 <= w < old_out.len() && (#[trigger] old_out[w])@ == m.articles[
                                    i2
                                ].tag_list@[j2]@;
                            assert(out@[w]@ == m.articles[i2].tag_list@[j2]@);
                        }
                        assert forall|k: int|
                            0 <= k < out@.len() implies store_has_tag(m, (#[trigger] out@[k])@) by {
                            if k < old_out.len() {
                                assert(out@[k] == old_out[k]);
                            }
                        }
                    }
                } else {
                    proof {
                        assert(tags_contain(out@, (m.articles[i as int].tag_list@[j as int])@));
                    }
                }
                j = j + 1;
            }
            i = i + 1;
        }
        Ok(out)
    }
}

} // verus!

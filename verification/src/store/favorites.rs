//! The favorite relationship: an idempotent toggle per (article, user)
//! pair, with the favorites count always recomputed from the rows.

use vstd::prelude::*;

use crate::domain::{Article, FavoriteOutcome, UnfavoriteOutcome, User};
use crate::errors::DatabaseError;
use crate::store::{
    favs_contain, favs_count, favs_pair_count, lemma_favorites_filter, unfavorite_tr,
    FavoriteRecord, Repository, StoreModel,
};

verus! {

impl Repository {
    /// Whether the favorite rows contain this pair.
    pub(crate) fn contains_favorite(&self, slug: &str, user_id: u128) -> (r: bool)
        ensures
            r == self@.is_favorite(slug@, user_id),
    {
        let mut i: usize = 0;
        while i < self.favorites.len()
            invariant
                i <= self@.favorites.len(),
                forall|j: int|
                    0 <= j < i ==> !((#[trigger] self@.favorites[j]).article_slug@ == slug@
                        && self@.favorites[j].user_id == user_id),
            decreases self@.favorites.len() - i,
        {
            if self.favorites[i].user_id == user_id && crate::ascii::str_eq(
                self.favorites[i].article_slug.as_str(),
                slug,
            ) {
                return true;
            }
            i = i + 1;
        }
        false
    }

    /// Counts the favorite rows that carry this slug.
    pub(crate) fn count_favorites(&self, slug: &str) -> (r: u64)
        ensures
            r == self@.fav_count(slug@),
    {
        let ghost pred = crate::store::fav_slug_pred(slug@);
        let mut count: u64 = 0;
        let mut i: usize = 0;
        while i < self.favorites.len()
            invariant
                i <= self@.favorites.len(),
                pred == crate::store::fav_slug_pred(slug@),
                count == self@.favorites.take(i as int).filter(pred).len(),
                count <= i,
            decreases self@.favorites.len() - i,
        {
            broadcast use Seq::lemma_filter_push, Seq::lemma_take_succ_push;

            if crate::ascii::str_eq(self.favorites[i].article_slug.as_str(), slug) {
                count = count + 1;
            }
            i = i + 1;
        }
        proof {
            assert(self@.favorites.take(self@.favorites.len() as int) == self@.favorites);
        }
        count
    }

    /// The favorites count of an article, recomputed from the rows.
    pub fn n_favorites(&self, article: &Article) -> (r: Result<u64, DatabaseError>)
        ensures
            r matches Ok(n) && n == self@.fav_count(article.slug@),
    {
        Ok(self.count_favorites(article.slug.as_str()))
    }

    /// Whether this user favorites this article.
    pub fn is_favorite(&self, article: &Article, user: &User) -> (r: Result<bool, DatabaseError>)
        ensures
            r matches Ok(b) && b == self@.is_favorite(article.slug@, user.id),
    {
        Ok(self.contains_favorite(article.slug.as_str(), user.id))
    }

    /// For each article, in order, whether this user favorites it.
    pub fn are_favorites(&self, articles: &Vec<Article>, user: &User) -> (r: Result<
        Vec<bool>,
        DatabaseError,
    >)
        ensures
            r matches Ok(bs) && bs@.len() == articles@.len() && (forall|k: int|
                0 <= k < bs@.len() ==> bs@[k] == self@.is_favorite(
                    (#[trigger] articles@[k]).slug@,
                    user.id,
                )),
    {
        let mut out: Vec<bool> = Vec::new();
        let mut i: usize = 0;
        while i < articles.len()
            invariant
                i <= articles@.len(),
                out@.len() == i,
                forall|k: int|
                    0 <= k < i ==> out@[k] == self@.is_favorite(
                        (#[trigger] articles@[k]).slug@,
                        user.id,
                    ),
            decreases articles@.len() - i,
        {
            let b = self.contains_favorite(articles[i].slug.as_str(), user.id);
            out.push(b);
            i = i + 1;
        }
        Ok(out)
    }

    /// Inserts the favorite pair if it is absent: favoriting twice is the
    /// idempotent no-op. Favoriting an article that does not exist, or by a
    /// user that does not exist, fails.
    pub fn favorite(&mut self, article: &Article, user: &User) -> (r: Result<
        FavoriteOutcome,
        DatabaseError,
    >)
        requires
            old(self).wf(),
        ensures
            final(self).wf(),
            r is Ok <==> old(self)@.has_slug(article.slug@) && old(self)@.has_user_id(user.id),
            r matches Err(e) ==> final(self)@ == old(self)@ && e == DatabaseError,
            r matches Ok(o) ==> {
                let m = old(self)@;
                let m2 = final(self)@;
                &&& (o == FavoriteOutcome::AlreadyAFavorite <==> m.is_favorite(
                    article.slug@,
                    user.id,
                ))
                &&& m.is_favorite(article.slug@, user.id) ==> m2 == m
                &&& !m.is_favorite(article.slug@, user.id) ==> m2.favorites == m.favorites.push(
                    m2.favorites.last(),
                ) && m2.favorites.last().article_slug@ == article.slug@
                    && m2.favorites.last().user_id == user.id && m2 == StoreModel {
                    favorites: m2.favorites,
                    ..m
                } && m2.fav_count(article.slug@) == m.fav_count(article.slug@) + 1
                &&& m2.is_favorite(article.slug@, user.id)
                &&& favs_pair_count(m2.favorites, article.slug@, user.id) == 1
            },
    {
        if self.find_article_by_slug(article.slug.as_str()).is_none() {
            return Err(DatabaseError);
        }
        if self.find_user_by_id(user.id).is_none() {
            return Err(DatabaseError);
        }
        if self.contains_favorite(article.slug.as_str(), user.id) {
            proof {
                crate::laws::lemma_pair_count_of_distinct(self@.favorites, article.slug@, user.id);
            }
            return Ok(FavoriteOutcome::AlreadyAFavorite);
        }
        let ghost m = self@;
        let rec = FavoriteRecord { article_slug: article.slug.clone(), user_id: user.id };
        self.favorites.push(rec);
        proof {
            broadcast use Seq::lemma_filter_push;

            let m2 = self@;
            assert(m2.favorites.last().article_slug@ == article.slug@);
            assert(m2.is_favorite(article.slug@, user.id));
            assert(m2.fav_count(article.slug@) == m.fav_count(article.slug@) + 1);
            assert(m2.users_wf());
            assert(m2.articles_wf());
            assert(m2.comments_wf());
            assert(m2.follows_wf());
            assert(m2.favorites_wf()) by {
                assert(m2.has_slug(article.slug@) && m2.has_user_id(user.id));
                assert forall|i: int, j: int|
                    0 <= i < m2.favorites.len() && 0 <= j < m2.favorites.len() && i != j implies !((
                #[trigger] m2.favorites[i]).article_slug@ == (
                #[trigger] m2.favorites[j]).article_slug@ && m2.favorites[i].user_id
                    == m2.favorites[j].user_id) by {
                    if i < m.favorites.len() && j < m.favorites.len() {
                    } else {
                        let k = if i < m.favorites.len() {
                            i
                        } else {
                            j
                        };
                        assert(!favs_contain(m.favorites, article.slug@, user.id));
                        assert(!(m.favorites[k].article_slug@ == article.slug@
                            && m.favorites[k].user_id == user.id));
                    }
                }
            }
            crate::laws::lemma_pair_count_of_distinct(m2.favorites, article.slug@, user.id);
        }
        Ok(FavoriteOutcome::NewFavorite)
    }

    /// Removes the favorite pair if it is present: unfavoriting a pair that
    /// is not a favorite is the idempotent no-op, a success.
    pub fn unfavorite(&mut self, article: &Article, user: &User) -> (r: Result<
        UnfavoriteOutcome,
        DatabaseError,
    >)
        requires
            old(self).wf(),
        ensures
            final(self).wf(),
            r matches Ok(o) ==> {
                let m = old(self)@;
                let m2 = final(self)@;
                &&& (o == UnfavoriteOutcome::WasAFavorite <==> m.is_favorite(
                    article.slug@,
                    user.id,
                ))
                &&& m2.favorites == unfavorite_tr(m.favorites, article.slug@, user.id)
                &&& m2 == StoreModel { favorites: m2.favorites, ..m }
                &&& !m2.is_favorite(article.slug@, user.id)
                &&& favs_pair_count(m2.favorites, article.slug@, user.id) == 0
            },
            r is Ok,
    {
        let ghost m = self@;
        let ghost pred = crate::store::fav_keep_pred(article.slug@, user.id);
        let was = self.contains_favorite(article.slug.as_str(), user.id);
        let mut kept: Vec<FavoriteRecord> = Vec::new();
        let mut i: usize = 0;
        while i < self.favorites.len()
            invariant
                i <= self@.favorites.len(),
                self@ == m,
                pred == crate::store::fav_keep_pred(article.slug@, user.id),
                kept@ == m.favorites.take(i as int).filter(pred),
            decreases self@.favorites.len() - i,
        {
            broadcast use Seq::lemma_filter_push, Seq::lemma_take_succ_push;

            let keep = !(self.favorites[i].user_id == user.id && crate::ascii::str_eq(
                self.favorites[i].article_slug.as_str(),
                article.slug.as_str(),
            ));
            if keep {
                let f = FavoriteRecord {
                    article_slug: self.favorites[i].article_slug.clone(),
                    user_id: self.favorites[i].user_id,
                };
                assert(f == m.favorites[i as int]);
                kept.push(f);
            }
            i = i + 1;
        }
        proof {
            assert(m.favorites.take(m.favorites.len() as int) == m.favorites);
        }
        self.favorites = kept;
        proof {
            let m2 = self@;
            lemma_favorites_filter(m.favorites, pred);
            assert(m2.users_wf());
            assert(m2.articles_wf());
            assert(m2.comments_wf());
            assert(m2.follows_wf());
            assert(m2.favorites_wf()) by {
                assert forall|i2: int| 0 <= i2 < m2.favorites.len() implies m2.has_slug(
                    (#[trigger] m2.favorites[i2]).article_slug@,
                ) && m2.has_user_id(m2.favorites[i2].user_id) by {
                    assert(m.favorites.contains(m2.favorites[i2]));
                    let w = choose|w: int|
                        0 <= w < m.favorites.len() && m.favorites[w] == m2.favorites[i2];
                    assert(m.has_slug(m.favorites[w].article_slug@));
                    assert(m.has_user_id(m.favorites[w].user_id));
                }
            }
            assert(!m2.is_favorite(article.slug@, user.id)) by {
                if favs_contain(m2.favorites, article.slug@, user.id) {
                    let j = choose|j: int|
                        0 <= j < m2.favorites.len() && (#[trigger] m2.favorites[j]).article_slug@
                            == article.slug@ && m2.favorites[j].user_id == user.id;
                    assert(pred(m2.favorites[j]));
                }
            }
            crate::laws::lemma_pair_count_of_distinct(m2.favorites, article.slug@, user.id);
        }
        if was {
            Ok(UnfavoriteOutcome::WasAFavorite)
        } else {
            Ok(UnfavoriteOutcome::WasNotAFavorite)
        }
    }
}

} // verus!

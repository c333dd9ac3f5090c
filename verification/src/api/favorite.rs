//! The favorite toggle, dispatched from one entry point.

use vstd::prelude::*;

use crate::domain::{Article, ArticleView, User};
use crate::errors::DatabaseError;
use crate::store::articles::view_of_article;
use crate::store::{unfavorite_tr, Repository, StoreModel};

verus! {

/// Which way the favorite toggle is applied.
#[derive(Clone, Copy, PartialEq, Eq, Structural, Debug)]
pub enum Action {
    Favorite,
    Unfavorite,
}

/// Applies the favorite toggle for this user on this article and returns
/// the up-to-date view: after `Favorite` the pair holds and the view says
/// so; after `Unfavorite` it does not. Either way the view's count is
/// recomputed from the relationship rows.
pub fn apply(user: &User, article: Article, action: Action, repo: &mut Repository) -> (r: Result<
    ArticleView,
    DatabaseError,
>)
    requires
        old(repo).wf(),
    ensures
        final(repo).wf(),
        r is Ok <==> old(repo)@.has_username(article.author.username@) && (action
            == Action::Favorite ==> old(repo)@.has_slug(article.slug@) && old(repo)@.has_user_id(
            user.id,
        )),
        r matches Err(e) ==> e == DatabaseError,
        action == Action::Favorite && !(old(repo)@.has_slug(article.slug@) && old(
            repo,
        )@.has_user_id(user.id)) ==> final(repo)@ == old(repo)@,
        action == Action::Unfavorite ==> final(repo)@.favorites == unfavorite_tr(
            old(repo)@.favorites,
            article.slug@,
            user.id,
        ) && final(repo)@ == (StoreModel { favorites: final(repo)@.favorites, ..old(repo)@ })
            && !final(repo)@.is_favorite(article.slug@, user.id),
        r matches Ok(v) ==> {
            let m = old(repo)@;
            let m2 = final(repo)@;
            &&& v.viewer == user.id
            &&& view_of_article(v, m2, article, user.id)
            &&& v.favorites_count == m2.fav_count(article.slug@)
            &&& (action == Action::Favorite ==> v.favorited && m2.is_favorite(
                article.slug@,
                user.id,
            ) && (m.is_favorite(article.slug@, user.id) ==> m2 == m) && (!m.is_favorite(
                article.slug@,
                user.id,
            ) ==> m2.favorites == m.favorites.push(m2.favorites.last())
                && m2.favorites.last().article_slug@ == article.slug@
                && m2.favorites.last().user_id == user.id && m2 == (StoreModel {
                favorites: m2.favorites,
                ..m
            }) && m2.fav_count(article.slug@) == m.fav_count(article.slug@) + 1))
            &&& (action == Action::Unfavorite ==> !v.favorited)
        },
{
    match action {
        Action::Favorite => user.favorite(article, repo),
        Action::Unfavorite => user.unfavorite(article, repo),
    }
}

} // verus!

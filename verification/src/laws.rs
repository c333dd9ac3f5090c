//! The laws the library keeps, stated and proved over the store's
//! mathematical model. Each is phrased over the same spec functions the
//! operations' contracts use, so the contracts carry these laws to every
//! caller.

use vstd::prelude::*;

use crate::password::hash_of;
use crate::slug::slug_of;
use crate::store::articles::{can_publish, feed_idxs, feed_page};
use crate::store::users::login_ok;
use crate::store::{
    fav_pair_pred, favorite_tr, favs_contain, favs_pair_count, follow_tr, follows_contains,
    follows_pair_count, lemma_slug_idx, unfavorite_tr, unfollow_tr, ArticleRecord, FavoriteRecord,
    FollowRecord, StoreModel,
};

verus! {

/// A sequence whose elements all satisfy the predicate filters to itself.
proof fn lemma_filter_all_true<A>(s: Seq<A>, pred: spec_fn(A) -> bool)
    requires
        forall|i: int| 0 <= i < s.len() ==> pred(#[trigger] s[i]),
    ensures
        s.filter(pred) == s,
    decreases s.len(),
{
    reveal(Seq::filter);
    if s.len() > 0 {
        lemma_filter_all_true(s.drop_last(), pred);
        assert(s.drop_last().push(s.last()) =~= s);
    }
}

/// Among pairwise-distinct favorite rows, the count of one exact pair is
/// one when the pair is present and zero when it is not.
pub proof fn lemma_pair_count_of_distinct(fs: Seq<FavoriteRecord>, slug: Seq<char>, user_id: u128)
    requires
        forall|i: int, j: int|
            0 <= i < fs.len() && 0 <= j < fs.len() && i != j ==> !((#[trigger] fs[i]).article_slug@
                == (#[trigger] fs[j]).article_slug@ && fs[i].user_id == fs[j].user_id),
    ensures
        favs_pair_count(fs, slug, user_id) == (if favs_contain(fs, slug, user_id) {
            1nat
        } else {
            0nat
        }),
    decreases fs.len(),
{
    reveal(Seq::filter);
    let pred = fav_pair_pred(slug, user_id);
    if fs.len() == 0 {
    } else {
        let sub = fs.drop_last();
        lemma_pair_count_of_distinct(sub, slug, user_id);
        if pred(fs.last()) {
            // The last row is the pair; no earlier row can also be it.
            assert(!favs_contain(sub, slug, user_id)) by {
                if favs_contain(sub, slug, user_id) {
                    let j = choose|j: int|
                        0 <= j < sub.len() && (#[trigger] sub[j]).article_slug@ == slug
                            && sub[j].user_id == user_id;
                    assert(fs[j].article_slug@ == fs[fs.len() - 1].article_slug@ && fs[j].user_id
                        == fs[fs.len() - 1].user_id);
                }
            }
            assert(favs_contain(fs, slug, user_id)) by {
                assert(fs[fs.len() - 1].article_slug@ == slug);
            }
        } else {
            assert(favs_contain(fs, slug, user_id) == favs_contain(sub, slug, user_id)) by {
                if favs_contain(fs, slug, user_id) {
                    let j = choose|j: int|
                        0 <= j < fs.len() && (#[trigger] fs[j]).article_slug@ == slug && fs[
                            j
                        ].user_id == user_id;
                    assert(j < sub.len() && sub[j].article_slug@ == slug);
                }
                if favs_contain(sub, slug, user_id) {
                    let j = choose|j: int|
                        0 <= j < sub.len() && (#[trigger] sub[j]).article_slug@ == slug
                            && sub[j].user_id == user_id;
                    assert(fs[j].article_slug@ == slug);
                }
            }
        }
    }
}

/// Among pairwise-distinct follow rows, the count of one exact pair is one
/// when the pair is present and zero when it is not: at most one edge per
/// pair in every reachable state.
pub proof fn lemma_follow_pair_count_of_distinct(
    fs: Seq<FollowRecord>,
    follower: u128,
    followed: u128,
)
    requires
        forall|i: int, j: int|
            0 <= i < fs.len() && 0 <= j < fs.len() && i != j ==> !((#[trigger] fs[i]).follower_id
                == (#[trigger] fs[j]).follower_id && fs[i].followed_id == fs[j].followed_id),
    ensures
        follows_pair_count(fs, follower, followed) == (if follows_contains(fs, follower, followed) {
            1nat
        } else {
            0nat
        }),
    decreases fs.len(),
{
    reveal(Seq::filter);
    let pred = crate::store::follow_pair_pred(follower, followed);
    if fs.len() == 0 {
    } else {
        let sub = fs.drop_last();
        lemma_follow_pair_count_of_distinct(sub, follower, followed);
        if pred(fs.last()) {
            // The last row is the pair; no earlier row can also be it.
            assert(!follows_contains(sub, follower, followed)) by {
                if follows_contains(sub, follower, followed) {
                    let j = choose|j: int|
                        0 <= j < sub.len() && (#[trigger] sub[j]).follower_id == follower
                            && sub[j].followed_id == followed;
                    assert(fs[j].follower_id == fs[fs.len() - 1].follower_id && fs[j].followed_id
                        == fs[fs.len() - 1].followed_id);
                }
            }
            assert(follows_contains(fs, follower, followed)) by {
                assert(fs[fs.len() - 1].follower_id == follower);
            }
        } else {
            assert(follows_contains(fs, follower, followed) == follows_contains(
                sub,
                follower,
                followed,
            )) by {
                if follows_contains(fs, follower, followed) {
                    let j = choose|j: int|
                        0 <= j < fs.len() && (#[trigger] fs[j]).follower_id == follower && fs[
                            j
                        ].followed_id == followed;
                    assert(j < sub.len() && sub[j].follower_id == follower);
                }
                if follows_contains(sub, follower, followed) {
                    let j = choose|j: int|
                        0 <= j < sub.len() && (#[trigger] sub[j]).follower_id == follower
                            && sub[j].followed_id == followed;
                    assert(fs[j].follower_id == follower);
                }
            }
        }
    }
}

/// Favorite idempotence. One favorite call makes the pair present with an
/// exact count of one; favoriting again is the identity on the rows, so
/// any number of further calls changes nothing. The distinctness premise
/// is the store invariant, so it holds of every reachable state; the
/// operation itself grants it by requiring a well-formed store and turns
/// an unknown article or user into the typed storage failure.
pub proof fn lemma_favorite_idempotent(fs: Seq<FavoriteRecord>, rec: FavoriteRecord)
    requires
        forall|i: int, j: int|
            0 <= i < fs.len() && 0 <= j < fs.len() && i != j ==> !((#[trigger] fs[i]).article_slug@
                == (#[trigger] fs[j]).article_slug@ && fs[i].user_id == fs[j].user_id),
    ensures
        favs_contain(favorite_tr(fs, rec), rec.article_slug@, rec.user_id),
        favs_pair_count(favorite_tr(fs, rec), rec.article_slug@, rec.user_id) == 1,
        favorite_tr(favorite_tr(fs, rec), rec) == favorite_tr(fs, rec),
{
    let out = favorite_tr(fs, rec);
    assert(favs_contain(out, rec.article_slug@, rec.user_id)) by {
        if !favs_contain(fs, rec.article_slug@, rec.user_id) {
            assert(out[out.len() - 1].article_slug@ == rec.article_slug@);
        }
    }
    assert forall|i: int, j: int|
        0 <= i < out.len() && 0 <= j < out.len() && i != j implies !((
    #[trigger] out[i]).article_slug@ == (#[trigger] out[j]).article_slug@ && out[i].user_id
        == out[j].user_id) by {
        if !(i < fs.len() && j < fs.len()) {
            let k = if i < fs.len() {
                i
            } else {
                j
            };
            assert(!favs_contain(fs, rec.article_slug@, rec.user_id));
            assert(!(fs[k].article_slug@ == rec.article_slug@ && fs[k].user_id == rec.user_id));
        }
    }
    lemma_pair_count_of_distinct(out, rec.article_slug@, rec.user_id);
}

/// Unfavorite idempotence. One unfavorite call removes the pair and leaves
/// its count at zero; unfavoriting an already-unfavorited pair — or one
/// that was never favorited — changes nothing.
pub proof fn lemma_unfavorite_idempotent(fs: Seq<FavoriteRecord>, slug: Seq<char>, user_id: u128)
    ensures
        !favs_contain(unfavorite_tr(fs, slug, user_id), slug, user_id),
        favs_pair_count(unfavorite_tr(fs, slug, user_id), slug, user_id) == 0,
        unfavorite_tr(unfavorite_tr(fs, slug, user_id), slug, user_id) == unfavorite_tr(
            fs,
            slug,
            user_id,
        ),
        !favs_contain(fs, slug, user_id) ==> unfavorite_tr(fs, slug, user_id) == fs,
{
    broadcast use Seq::lemma_filter_pred;

    let out = unfavorite_tr(fs, slug, user_id);
    assert(!favs_contain(out, slug, user_id)) by {
        if favs_contain(out, slug, user_id) {
            let j = choose|j: int|
                0 <= j < out.len() && (#[trigger] out[j]).article_slug@ == slug && out[j].user_id
                    == user_id;
            assert(!(out[j].article_slug@ == slug && out[j].user_id == user_id));
        }
    }
    assert forall|i: int| 0 <= i < out.len() implies !fav_pair_pred(slug, user_id)(
        #[trigger] out[i],
    ) by {
        assert(!(out[i].article_slug@ == slug && out[i].user_id == user_id));
    }
    out.lemma_all_neg_filter_empty(fav_pair_pred(slug, user_id));
    assert forall|i: int| 0 <= i < out.len() implies crate::store::fav_keep_pred(slug, user_id)(
        #[trigger] out[i],
    ) by {
        assert(!(out[i].article_slug@ == slug && out[i].user_id == user_id));
    }
    lemma_filter_all_true(out, crate::store::fav_keep_pred(slug, user_id));
    if !favs_contain(fs, slug, user_id) {
        assert forall|i: int| 0 <= i < fs.len() implies !((#[trigger] fs[i]).article_slug@ == slug
            && fs[i].user_id == user_id) by {
            if fs[i].article_slug@ == slug && fs[i].user_id == user_id {
                assert(favs_contain(fs, slug, user_id));
            }
        }
        lemma_filter_all_true(fs, crate::store::fav_keep_pred(slug, user_id));
    }
}

/// Follow idempotence, the mirror of favorite idempotence: one follow call
/// makes the pair present, a second is the identity; one unfollow removes
/// it, and unfollowing a pair that is not followed changes nothing. The
/// half of the law that every new user follows themselves from creation is
/// the sign-up contract's own clause; an unknown follower id is the typed
/// not-found at the operation level.
pub proof fn lemma_follow_idempotent(fs: Seq<FollowRecord>, follower: u128, followed: u128)
    ensures
        follows_contains(follow_tr(fs, follower, followed), follower, followed),
        follow_tr(follow_tr(fs, follower, followed), follower, followed) == follow_tr(
            fs,
            follower,
            followed,
        ),
        !follows_contains(unfollow_tr(fs, follower, followed), follower, followed),
        !follows_contains(fs, follower, followed) ==> unfollow_tr(fs, follower, followed) == fs,
{
    broadcast use Seq::lemma_filter_pred;

    let out = follow_tr(fs, follower, followed);
    assert(follows_contains(out, follower, followed)) by {
        if !follows_contains(fs, follower, followed) {
            assert(out[out.len() - 1].follower_id == follower);
        }
    }
    let un = unfollow_tr(fs, follower, followed);
    assert(!follows_contains(un, follower, followed)) by {
        if follows_contains(un, follower, followed) {
            let j = choose|j: int|
                0 <= j < un.len() && (#[trigger] un[j]).follower_id == follower && un[j].followed_id
                    == followed;
            assert(!(un[j].follower_id == follower && un[j].followed_id == followed));
        }
    }
    if !follows_contains(fs, follower, followed) {
        assert forall|i: int| 0 <= i < fs.len() implies !((#[trigger] fs[i]).follower_id
            == follower && fs[i].followed_id == followed) by {
            if fs[i].follower_id == follower && fs[i].followed_id == followed {
                assert(follows_contains(fs, follower, followed));
            }
        }
        lemma_filter_all_true(fs, crate::store::follow_keep_pred(follower, followed));
    }
}

/// Slug conflict: once a store holds the slug of a title, publishing any
/// draft whose title is string-equal cannot succeed — the publish contract
/// then returns the duplicate-slug conflict, and never creates a second
/// row.
pub proof fn lemma_duplicate_title_rejected(
    m: StoreModel,
    title1: Seq<char>,
    title2: Seq<char>,
    author_id: u128,
)
    requires
        title1 == title2,
        m.has_slug(slug_of(title1)),
    ensures
        !can_publish(m, title2, author_id),
{
}

/// Round trip: in the store a successful publish leaves behind, the fresh
/// slug resolves to the row the publish appended, so an immediate fetch by
/// that slug returns the draft's own fields, and its favorites count is
/// zero because no favorite row can reference a fresh slug.
pub proof fn lemma_publish_round_trip(m: StoreModel, m2: StoreModel, rec: ArticleRecord)
    requires
        m2.articles_wf(),
        m2.articles == m.articles.push(rec),
        m2.favorites == m.favorites,
        !m.has_slug(rec.slug@),
    ensures
        m2.has_slug(rec.slug@),
        m2.slug_idx(rec.slug@) == m.articles.len(),
        m2.articles[m2.slug_idx(rec.slug@)] == rec,
{
    assert(m2.articles[m.articles.len() as int] == rec);
    lemma_slug_idx(m2, m.articles.len() as int);
}

/// Feed soundness: every index the feed lists is a row of the store whose
/// author the user follows.
pub proof fn lemma_feed_sound(m: StoreModel, uid: u128, n: int)
    ensures
        forall|k: int|
            0 <= k < feed_idxs(m, uid, n).len() ==> 0 <= #[trigger] feed_idxs(m, uid, n)[k] < n
                && follows_contains(m.follows, uid, m.articles[feed_idxs(m, uid, n)[k]].author_id),
    decreases n,
{
    if n > 0 {
        lemma_feed_sound(m, uid, n - 1);
        let f = feed_idxs(m, uid, n);
        let sub = feed_idxs(m, uid, n - 1);
        assert forall|k: int| 0 <= k < f.len() implies 0 <= #[trigger] f[k] < n
            && follows_contains(m.follows, uid, m.articles[f[k]].author_id) by {
            if follows_contains(m.follows, uid, m.articles[n - 1].author_id) {
                if k > 0 {
                    assert(f[k] == sub[k - 1]);
                }
            } else {
                assert(f[k] == sub[k]);
            }
        }
    }
}

/// Feed completeness: every row whose author the user follows is listed.
pub proof fn lemma_feed_complete(m: StoreModel, uid: u128, n: int)
    ensures
        forall|i: int|
            0 <= i < n && follows_contains(m.follows, uid, m.articles[i].author_id) ==> feed_idxs(
                m,
                uid,
                n,
            ).contains(i),
    decreases n,
{
    if n > 0 {
        lemma_feed_complete(m, uid, n - 1);
        assert forall|i: int|
            0 <= i < n && follows_contains(m.follows, uid, m.articles[i].author_id) implies feed_idxs(
            m,
            uid,
            n,
        ).contains(i) by {
            let f = feed_idxs(m, uid, n);
            if i == n - 1 {
                assert(f[0] == i);
            } else {
                assert(feed_idxs(m, uid, n - 1).contains(i));
                let k = choose|k: int|
                    0 <= k < feed_idxs(m, uid, n - 1).len() && #[trigger] feed_idxs(m, uid, n - 1)[k]
                        == i;
                if follows_contains(m.follows, uid, m.articles[n - 1].author_id) {
                    assert(f[k + 1] == i);
                } else {
                    assert(f[k] == i);
                }
            }
        }
    }
}

/// The feed lists strictly newer rows first: its indices strictly
/// decrease, and with creation timestamps strictly increasing along the
/// rows that is exactly the order of recency.
pub proof fn lemma_feed_descending(m: StoreModel, uid: u128, n: int)
    ensures
        forall|k1: int, k2: int|
            0 <= k1 < k2 < feed_idxs(m, uid, n).len() ==> #[trigger] feed_idxs(m, uid, n)[k1]
                > #[trigger] feed_idxs(m, uid, n)[k2],
    decreases n,
{
    if n > 0 {
        lemma_feed_descending(m, uid, n - 1);
        lemma_feed_sound(m, uid, n - 1);
        let f = feed_idxs(m, uid, n);
        let sub = feed_idxs(m, uid, n - 1);
        assert forall|k1: int, k2: int| 0 <= k1 < k2 < f.len() implies #[trigger] f[k1]
            > #[trigger] f[k2] by {
            if follows_contains(m.follows, uid, m.articles[n - 1].author_id) {
                assert(f[k2] == sub[k2 - 1]);
                if k1 == 0 {
                    assert(f[0] == n - 1);
                    assert(sub[k2 - 1] < n - 1);
                } else {
                    assert(f[k1] == sub[k1 - 1]);
                }
            } else {
                assert(f[k1] == sub[k1] && f[k2] == sub[k2]);
            }
        }
    }
}

/// Pagination: two feed pages whose ranges do not overlap share no
/// article. With an unchanged store, each page is a stable slice of one
/// fixed sequence.
pub proof fn lemma_feed_pages_disjoint(
    m: StoreModel,
    uid: u128,
    limit1: u64,
    offset1: u64,
    limit2: u64,
    offset2: u64,
)
    requires
        offset1 as int + limit1 as int <= offset2 as int,
    ensures
        forall|i: int|
            feed_page(m, uid, limit1, offset1).contains(i) ==> !feed_page(
                m,
                uid,
                limit2,
                offset2,
            ).contains(i),
{
    let f = feed_idxs(m, uid, m.articles.len() as int);
    lemma_feed_descending(m, uid, m.articles.len() as int);
    let p1 = feed_page(m, uid, limit1, offset1);
    let p2 = feed_page(m, uid, limit2, offset2);
    assert forall|i: int| p1.contains(i) implies !p2.contains(i) by {
        let k1 = choose|k1: int| 0 <= k1 < p1.len() && p1[k1] == i;
        if p2.contains(i) {
            let k2 = choose|k2: int| 0 <= k2 < p2.len() && p2[k2] == i;
            assert(f[offset1 as int + k1] == i);
            assert(f[offset2 as int + k2] == i);
            assert(offset1 as int + k1 < offset2 as int + k2);
        }
    }
}

/// Login secrecy: a wrong password for an existing email and a login
/// attempt for an email the store does not hold both fall outside the one
/// condition under which a login succeeds — and the login contract maps
/// every failure to the single not-found variant, so the two attempts are
/// indistinguishable to the caller.
pub proof fn lemma_login_secrecy(
    m: StoreModel,
    email1: Seq<char>,
    password1: Seq<char>,
    email2: Seq<char>,
    password2: Seq<char>,
)
    requires
        m.has_email(email1),
        m.users[m.email_idx(email1)].password_hash@ != hash_of(password1),
        !m.has_email(email2),
    ensures
        !login_ok(m, email1, password1),
        !login_ok(m, email2, password2),
{
}

} // verus!

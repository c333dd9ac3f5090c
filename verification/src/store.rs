//! The storage contract and its verified in-memory implementation.
//!
//! `Repository` is the single seam all aggregate operations go through. Its
//! methods are the typed read and write operations of the storage contract;
//! each states its consistency guarantee as a contract over the store's
//! mathematical model, and every write preserves the well-formedness
//! invariant: unique user ids, usernames, emails and slugs, set semantics
//! for the favorite and follow relationships, the self-follow of every
//! user, and referential integrity of articles, comments and relationships.

use vstd::prelude::*;

use crate::password::is_hash_format;

pub mod articles;
pub mod comments;
pub mod favorites;
pub mod users;

verus! {

/// A stored user row.
pub struct UserRecord {
    pub id: u128,
    pub username: String,
    pub email: String,
    pub password_hash: String,
    pub bio: Option<String>,
    pub image: Option<String>,
}

/// A stored article row, keyed by slug.
pub struct ArticleRecord {
    pub slug: String,
    pub title: String,
    pub description: String,
    pub body: String,
    pub tag_list: Vec<String>,
    pub author_id: u128,
    pub created_at: u64,
    pub updated_at: u64,
}

/// A stored comment row.
pub struct CommentRecord {
    pub id: u64,
    pub article_slug: String,
    pub author_id: u128,
    pub body: String,
    pub created_at: u64,
    pub updated_at: u64,
}

/// One favorite relationship row: at most one per (article, user) pair.
pub struct FavoriteRecord {
    pub article_slug: String,
    pub user_id: u128,
}

/// One follow relationship row: at most one per (follower, followed) pair.
#[derive(Clone, Copy, PartialEq, Eq, Structural, Debug)]
pub struct FollowRecord {
    pub follower_id: u128,
    pub followed_id: u128,
}

/// The follow rows contain this (follower, followed) pair.
pub open spec fn follows_contains(fs: Seq<FollowRecord>, follower: u128, followed: u128) -> bool {
    exists|i: int|
        0 <= i < fs.len() && (#[trigger] fs[i]).follower_id == follower && fs[i].followed_id
            == followed
}

/// Inserting a follow pair if it is absent: the idempotent toggle's
/// one-step transition.
pub open spec fn follow_tr(fs: Seq<FollowRecord>, follower: u128, followed: u128) -> Seq<
    FollowRecord,
> {
    if follows_contains(fs, follower, followed) {
        fs
    } else {
        fs.push(FollowRecord { follower_id: follower, followed_id: followed })
    }
}

/// The predicate that keeps every follow row but this pair's.
pub open spec fn follow_keep_pred(follower: u128, followed: u128) -> spec_fn(FollowRecord) -> bool {
    |f: FollowRecord| !(f.follower_id == follower && f.followed_id == followed)
}

/// Removing a follow pair if it is present.
pub open spec fn unfollow_tr(fs: Seq<FollowRecord>, follower: u128, followed: u128) -> Seq<
    FollowRecord,
> {
    fs.filter(follow_keep_pred(follower, followed))
}

/// The favorite rows contain this (article, user) pair.
pub open spec fn favs_contain(fs: Seq<FavoriteRecord>, slug: Seq<char>, user_id: u128) -> bool {
    exists|i: int|
        0 <= i < fs.len() && (#[trigger] fs[i]).article_slug@ == slug && fs[i].user_id == user_id
}

/// The predicate of the favorite rows that carry this slug.
pub open spec fn fav_slug_pred(slug: Seq<char>) -> spec_fn(FavoriteRecord) -> bool {
    |f: FavoriteRecord| f.article_slug@ == slug
}

/// How many favorite rows carry this slug.
pub open spec fn favs_count(fs: Seq<FavoriteRecord>, slug: Seq<char>) -> nat {
    fs.filter(fav_slug_pred(slug)).len()
}

/// A slug no favorite row carries has count zero.
pub proof fn lemma_favs_count_absent(fs: Seq<FavoriteRecord>, slug: Seq<char>)
    requires
        forall|i: int| 0 <= i < fs.len() ==> (#[trigger] fs[i]).article_slug@ != slug,
    ensures
        favs_count(fs, slug) == 0,
{
    fs.lemma_all_neg_filter_empty(fav_slug_pred(slug));
}

/// The predicate of the favorite rows that carry this exact pair.
pub open spec fn fav_pair_pred(slug: Seq<char>, user_id: u128) -> spec_fn(FavoriteRecord) -> bool {
    |f: FavoriteRecord| f.article_slug@ == slug && f.user_id == user_id
}

/// The predicate of the follow rows that carry this exact pair.
pub open spec fn follow_pair_pred(follower: u128, followed: u128) -> spec_fn(FollowRecord) -> bool {
    |f: FollowRecord| f.follower_id == follower && f.followed_id == followed
}

/// How many follow rows carry this exact (follower, followed) pair.
pub open spec fn follows_pair_count(fs: Seq<FollowRecord>, follower: u128, followed: u128) -> nat {
    fs.filter(follow_pair_pred(follower, followed)).len()
}

/// How many favorite rows carry this exact (article, user) pair.
pub open spec fn favs_pair_count(fs: Seq<FavoriteRecord>, slug: Seq<char>, user_id: u128) -> nat {
    fs.filter(fav_pair_pred(slug, user_id)).len()
}

/// The predicate that keeps every favorite row but this pair's.
pub open spec fn fav_keep_pred(slug: Seq<char>, user_id: u128) -> spec_fn(FavoriteRecord) -> bool {
    |f: FavoriteRecord| !(f.article_slug@ == slug && f.user_id == user_id)
}

/// Removing a favorite pair if it is present.
pub open spec fn unfavorite_tr(fs: Seq<FavoriteRecord>, slug: Seq<char>, user_id: u128) -> Seq<
    FavoriteRecord,
> {
    fs.filter(fav_keep_pred(slug, user_id))
}

/// Inserting a favorite row if its pair is absent: the idempotent toggle's
/// one-step transition.
pub open spec fn favorite_tr(fs: Seq<FavoriteRecord>, rec: FavoriteRecord) -> Seq<FavoriteRecord> {
    if favs_contain(fs, rec.article_slug@, rec.user_id) {
        fs
    } else {
        fs.push(rec)
    }
}

/// The mathematical model of the store: the rows of every table plus the
/// id and clock counters.
#[verifier::ext_equal]
pub ghost struct StoreModel {
    pub users: Seq<UserRecord>,
    pub articles: Seq<ArticleRecord>,
    pub comments: Seq<CommentRecord>,
    pub favorites: Seq<FavoriteRecord>,
    pub follows: Seq<FollowRecord>,
    pub next_user_id: int,
    pub next_comment_id: int,
    pub clock: int,
}

/// Some user row has this id.
pub open spec fn users_have_id(users: Seq<UserRecord>, id: u128) -> bool {
    exists|i: int| 0 <= i < users.len() && (#[trigger] users[i]).id == id
}

/// Some user row has this username.
pub open spec fn users_have_username(users: Seq<UserRecord>, name: Seq<char>) -> bool {
    exists|i: int| 0 <= i < users.len() && (#[trigger] users[i]).username@ == name
}

/// Some user row has this email.
pub open spec fn users_have_email(users: Seq<UserRecord>, email: Seq<char>) -> bool {
    exists|i: int| 0 <= i < users.len() && (#[trigger] users[i]).email@ == email
}

/// Some article row has this slug.
pub open spec fn articles_have_slug(articles: Seq<ArticleRecord>, slug: Seq<char>) -> bool {
    exists|i: int| 0 <= i < articles.len() && (#[trigger] articles[i]).slug@ == slug
}

/// Some comment row has this id.
pub open spec fn comments_have_id(comments: Seq<CommentRecord>, id: u64) -> bool {
    exists|i: int| 0 <= i < comments.len() && (#[trigger] comments[i]).id == id
}

impl StoreModel {
    /// Some user row has this id.
    pub open spec fn has_user_id(self, id: u128) -> bool {
        users_have_id(self.users, id)
    }

    /// The index of the user row with this id; unique under `inv`.
    pub open spec fn user_idx(self, id: u128) -> int {
        choose|i: int| 0 <= i < self.users.len() && (#[trigger] self.users[i]).id == id
    }

    /// Some user row has this username.
    pub open spec fn has_username(self, name: Seq<char>) -> bool {
        users_have_username(self.users, name)
    }

    /// The index of the user row with this username; unique under `inv`.
    pub open spec fn username_idx(self, name: Seq<char>) -> int {
        choose|i: int| 0 <= i < self.users.len() && (#[trigger] self.users[i]).username@ == name
    }

    /// Some user row has this email.
    pub open spec fn has_email(self, email: Seq<char>) -> bool {
        users_have_email(self.users, email)
    }

    /// The index of the user row with this email; unique under `inv`.
    pub open spec fn email_idx(self, email: Seq<char>) -> int {
        choose|i: int| 0 <= i < self.users.len() && (#[trigger] self.users[i]).email@ == email
    }

    /// Some article row has this slug.
    pub open spec fn has_slug(self, slug: Seq<char>) -> bool {
        articles_have_slug(self.articles, slug)
    }

    /// The index of the article row with this slug; unique under `inv`.
    pub open spec fn slug_idx(self, slug: Seq<char>) -> int {
        choose|i: int| 0 <= i < self.articles.len() && (#[trigger] self.articles[i]).slug@ == slug
    }

    /// Some comment row has this id.
    pub open spec fn has_comment(self, id: u64) -> bool {
        comments_have_id(self.comments, id)
    }

    /// The index of the comment row with this id; unique under `inv`.
    pub open spec fn comment_idx(self, id: u64) -> int {
        choose|i: int| 0 <= i < self.comments.len() && (#[trigger] self.comments[i]).id == id
    }

    /// The favorite relationship holds for this (article, user) pair.
    pub open spec fn is_favorite(self, slug: Seq<char>, user_id: u128) -> bool {
        favs_contain(self.favorites, slug, user_id)
    }

    /// How many users favorite the article with this slug: recomputed from
    /// the relationship rows, never a stored counter.
    pub open spec fn fav_count(self, slug: Seq<char>) -> nat {
        favs_count(self.favorites, slug)
    }

    /// The follow relationship holds for this (follower, followed) pair.
    pub open spec fn is_following(self, follower: u128, followed: u128) -> bool {
        follows_contains(self.follows, follower, followed)
    }

    /// Users: distinct ids, usernames and emails; ids below the counter;
    /// stored hashes in the hash format; every user follows itself.
    pub open spec fn users_wf(self) -> bool {
        &&& forall|i: int, j: int|
            0 <= i < self.users.len() && 0 <= j < self.users.len() && i != j ==> (
            #[trigger] self.users[i]).id != (#[trigger] self.users[j]).id && self.users[i].username@
                != self.users[j].username@ && self.users[i].email@ != self.users[j].email@
        &&& forall|i: int|
            0 <= i < self.users.len() ==> (#[trigger] self.users[i]).id < self.next_user_id
        &&& forall|i: int|
            0 <= i < self.users.len() ==> is_hash_format((#[trigger] self.users[i]).password_hash@)
        &&& forall|i: int|
            0 <= i < self.users.len() ==> self.is_following(
                (#[trigger] self.users[i]).id,
                self.users[i].id,
            )
    }

    /// Articles: distinct slugs, existing authors, and timestamps that grow
    /// with the row order and never pass the clock.
    pub open spec fn articles_wf(self) -> bool {
        &&& forall|i: int, j: int|
            0 <= i < self.articles.len() && 0 <= j < self.articles.len() && i != j ==> (
            #[trigger] self.articles[i]).slug@ != (#[trigger] self.articles[j]).slug@
        &&& forall|i: int|
            0 <= i < self.articles.len() ==> self.has_user_id(
                (#[trigger] self.articles[i]).author_id,
            )
        &&& forall|i: int, j: int|
            0 <= i < j < self.articles.len() ==> (#[trigger] self.articles[i]).created_at < (
            #[trigger] self.articles[j]).created_at
        &&& forall|i: int|
            0 <= i < self.articles.len() ==> (#[trigger] self.articles[i]).created_at
                <= self.articles[i].updated_at && self.articles[i].updated_at <= self.clock
    }

    /// Comments: distinct ids below the counter, existing article and
    /// author, and timestamps that grow with the row order.
    pub open spec fn comments_wf(self) -> bool {
        &&& forall|i: int, j: int|
            0 <= i < self.comments.len() && 0 <= j < self.comments.len() && i != j ==> (
            #[trigger] self.comments[i]).id != (#[trigger] self.comments[j]).id
        &&& forall|i: int|
            0 <= i < self.comments.len() ==> (#[trigger] self.comments[i]).id
                < self.next_comment_id
        &&& forall|i: int|
            0 <= i < self.comments.len() ==> self.has_slug(
                (#[trigger] self.comments[i]).article_slug@,
            ) && self.has_user_id(self.comments[i].author_id)
        &&& forall|i: int, j: int|
            0 <= i < j < self.comments.len() ==> (#[trigger] self.comments[i]).created_at < (
            #[trigger] self.comments[j]).created_at
        &&& forall|i: int|
            0 <= i < self.comments.len() ==> (#[trigger] self.comments[i]).created_at
                <= self.comments[i].updated_at && self.comments[i].updated_at <= self.clock
    }

    /// Favorites: at most one row per pair, article and user existing.
    pub open spec fn favorites_wf(self) -> bool {
        &&& forall|i: int, j: int|
            0 <= i < self.favorites.len() && 0 <= j < self.favorites.len() && i != j ==> !((
            #[trigger] self.favorites[i]).article_slug@ == (
            #[trigger] self.favorites[j]).article_slug@ && self.favorites[i].user_id
                == self.favorites[j].user_id)
        &&& forall|i: int|
            0 <= i < self.favorites.len() ==> self.has_slug(
                (#[trigger] self.favorites[i]).article_slug@,
            ) && self.has_user_id(self.favorites[i].user_id)
    }

    /// Follows: at most one row per pair, both users existing.
    pub open spec fn follows_wf(self) -> bool {
        &&& forall|i: int, j: int|
            0 <= i < self.follows.len() && 0 <= j < self.follows.len() && i != j ==> !((
            #[trigger] self.follows[i]).follower_id == (#[trigger] self.follows[j]).follower_id
                && self.follows[i].followed_id == self.follows[j].followed_id)
        &&& forall|i: int|
            0 <= i < self.follows.len() ==> self.has_user_id(
                (#[trigger] self.follows[i]).follower_id,
            ) && self.has_user_id(self.follows[i].followed_id)
    }

    /// The well-formedness invariant of the whole store.
    pub open spec fn inv(self) -> bool {
        self.users_wf() && self.articles_wf() && self.comments_wf() && self.favorites_wf()
            && self.follows_wf()
    }

    /// The empty store.
    pub open spec fn init() -> StoreModel {
        StoreModel {
            users: Seq::empty(),
            articles: Seq::empty(),
            comments: Seq::empty(),
            favorites: Seq::empty(),
            follows: Seq::empty(),
            next_user_id: 1,
            next_comment_id: 1,
            clock: 0,
        }
    }
}

/// The in-memory storage backend: the verified reference implementation of
/// the storage contract.
pub struct Repository {
    pub users: Vec<UserRecord>,
    pub articles: Vec<ArticleRecord>,
    pub comments: Vec<CommentRecord>,
    pub favorites: Vec<FavoriteRecord>,
    pub follows: Vec<FollowRecord>,
    pub next_user_id: u128,
    pub next_comment_id: u64,
    pub clock: u64,
}

impl View for Repository {
    type V = StoreModel;

    open spec fn view(&self) -> StoreModel {
        StoreModel {
            users: self.users@,
            articles: self.articles@,
            comments: self.comments@,
            favorites: self.favorites@,
            follows: self.follows@,
            next_user_id: self.next_user_id as int,
            next_comment_id: self.next_comment_id as int,
            clock: self.clock as int,
        }
    }
}

impl Repository {
    /// The store is well formed.
    pub open spec fn wf(&self) -> bool {
        self@.inv()
    }

    /// Creates an empty store.
    pub fn new() -> (r: Repository)
        ensures
            r.wf(),
            r@ =~= StoreModel::init(),
    {
        Repository {
            users: Vec::new(),
            articles: Vec::new(),
            comments: Vec::new(),
            favorites: Vec::new(),
            follows: Vec::new(),
            next_user_id: 1,
            next_comment_id: 1,
            clock: 0,
        }
    }

    /// Finds the user row with this id.
    pub(crate) fn find_user_by_id(&self, id: u128) -> (r: Option<usize>)
        ensures
            r matches Some(i) ==> 0 <= i < self@.users.len() && self@.users[i as int].id == id,
            r is None ==> !self@.has_user_id(id),
            r is Some <==> self@.has_user_id(id),
    {
        let mut i: usize = 0;
        while i < self.users.len()
            invariant
                i <= self@.users.len(),
                forall|j: int| 0 <= j < i ==> (#[trigger] self@.users[j]).id != id,
            decreases self@.users.len() - i,
        {
            if self.users[i].id == id {
                return Some(i);
            }
            i = i + 1;
        }
        None
    }

    /// Finds the user row with this username.
    pub(crate) fn find_user_by_username(&self, name: &str) -> (r: Option<usize>)
        ensures
            r matches Some(i) ==> 0 <= i < self@.users.len() && self@.users[i as int].username@
                == name@,
            r is None ==> !self@.has_username(name@),
            r is Some <==> self@.has_username(name@),
    {
        let mut i: usize = 0;
        while i < self.users.len()
            invariant
                i <= self@.users.len(),
                forall|j: int| 0 <= j < i ==> (#[trigger] self@.users[j]).username@ != name@,
            decreases self@.users.len() - i,
        {
            if crate::ascii::str_eq(self.users[i].username.as_str(), name) {
                return Some(i);
            }
            i = i + 1;
        }
        None
    }

    /// Finds the user row with this email.
    pub(crate) fn find_user_by_email(&self, email: &str) -> (r: Option<usize>)
        ensures
            r matches Some(i) ==> 0 <= i < self@.users.len() && self@.users[i as int].email@
                == email@,
            r is None ==> !self@.has_email(email@),
            r is Some <==> self@.has_email(email@),
    {
        let mut i: usize = 0;
        while i < self.users.len()
            invariant
                i <= self@.users.len(),
                forall|j: int| 0 <= j < i ==> (#[trigger] self@.users[j]).email@ != email@,
            decreases self@.users.len() - i,
        {
            if crate::ascii::str_eq(self.users[i].email.as_str(), email) {
                return Some(i);
            }
            i = i + 1;
        }
        None
    }

    /// Finds the article row with this slug.
    pub(crate) fn find_article_by_slug(&self, slug: &str) -> (r: Option<usize>)
        ensures
            r matches Some(i) ==> 0 <= i < self@.articles.len() && self@.articles[i as int].slug@
                == slug@,
            r is None ==> !self@.has_slug(slug@),
            r is Some <==> self@.has_slug(slug@),
    {
        let mut i: usize = 0;
        while i < self.articles.len()
            invariant
                i <= self@.articles.len(),
                forall|j: int| 0 <= j < i ==> (#[trigger] self@.articles[j]).slug@ != slug@,
            decreases self@.articles.len() - i,
        {
            if crate::ascii::str_eq(self.articles[i].slug.as_str(), slug) {
                return Some(i);
            }
            i = i + 1;
        }
        None
    }

    /// Finds the comment row with this id.
    pub(crate) fn find_comment_by_id(&self, id: u64) -> (r: Option<usize>)
        ensures
            r matches Some(i) ==> 0 <= i < self@.comments.len() && self@.comments[i as int].id
                == id,
            r is None ==> !self@.has_comment(id),
            r is Some <==> self@.has_comment(id),
    {
        let mut i: usize = 0;
        while i < self.comments.len()
            invariant
                i <= self@.comments.len(),
                forall|j: int| 0 <= j < i ==> (#[trigger] self@.comments[j]).id != id,
            decreases self@.comments.len() - i,
        {
            if self.comments[i].id == id {
                return Some(i);
            }
            i = i + 1;
        }
        None
    }
}

/// Under distinct user ids, the chosen index of a present id is the index
/// where it stands.
pub proof fn lemma_user_idx(m: StoreModel, i: int)
    requires
        m.users_wf(),
        0 <= i < m.users.len(),
    ensures
        m.has_user_id(m.users[i].id),
        m.user_idx(m.users[i].id) == i,
{
    let id = m.users[i].id;
    assert(m.has_user_id(id));
    let j = m.user_idx(id);
    assert(0 <= j < m.users.len() && m.users[j].id == id);
}

/// Under distinct usernames, the chosen index of a present username is the
/// index where it stands.
pub proof fn lemma_username_idx(m: StoreModel, i: int)
    requires
        m.users_wf(),
        0 <= i < m.users.len(),
    ensures
        m.has_username(m.users[i].username@),
        m.username_idx(m.users[i].username@) == i,
{
    let name = m.users[i].username@;
    assert(m.has_username(name));
    let j = m.username_idx(name);
    assert(0 <= j < m.users.len() && m.users[j].username@ == name);
}

/// Under distinct emails, the chosen index of a present email is the index
/// where it stands.
pub proof fn lemma_email_idx(m: StoreModel, i: int)
    requires
        m.users_wf(),
        0 <= i < m.users.len(),
    ensures
        m.has_email(m.users[i].email@),
        m.email_idx(m.users[i].email@) == i,
{
    let email = m.users[i].email@;
    assert(m.has_email(email));
    let j = m.email_idx(email);
    assert(0 <= j < m.users.len() && m.users[j].email@ == email);
}

/// Under distinct slugs, the chosen index of a present slug is the index
/// where it stands.
pub proof fn lemma_slug_idx(m: StoreModel, i: int)
    requires
        m.articles_wf(),
        0 <= i < m.articles.len(),
    ensures
        m.has_slug(m.articles[i].slug@),
        m.slug_idx(m.articles[i].slug@) == i,
{
    let slug = m.articles[i].slug@;
    assert(m.has_slug(slug));
    let j = m.slug_idx(slug);
    assert(0 <= j < m.articles.len() && m.articles[j].slug@ == slug);
}

/// A store whose user rows extend another's still has every user the
/// smaller one has.
pub proof fn lemma_has_user_id_prefix(m1: StoreModel, m2: StoreModel)
    requires
        m1.users.len() <= m2.users.len(),
        forall|i: int| 0 <= i < m1.users.len() ==> m2.users[i] == m1.users[i],
    ensures
        forall|x: u128| #[trigger] m1.has_user_id(x) ==> m2.has_user_id(x),
{
    assert forall|x: u128| #[trigger] m1.has_user_id(x) implies m2.has_user_id(x) by {
        let j = choose|j: int| 0 <= j < m1.users.len() && (#[trigger] m1.users[j]).id == x;
        assert(m2.users[j].id == x);
    }
}

/// A store whose article rows extend another's still has every slug the
/// smaller one has.
pub proof fn lemma_has_slug_prefix(m1: StoreModel, m2: StoreModel)
    requires
        m1.articles.len() <= m2.articles.len(),
        forall|i: int| 0 <= i < m1.articles.len() ==> m2.articles[i] == m1.articles[i],
    ensures
        forall|x: Seq<char>| #[trigger] m1.has_slug(x) ==> m2.has_slug(x),
{
    assert forall|x: Seq<char>| #[trigger] m1.has_slug(x) implies m2.has_slug(x) by {
        let j = choose|j: int| 0 <= j < m1.articles.len() && (#[trigger] m1.articles[j]).slug@ == x;
        assert(m2.articles[j].slug@ == x);
    }
}

/// Follow rows that extend another's still contain every pair the smaller
/// set contains.
pub proof fn lemma_follows_prefix(f1: Seq<FollowRecord>, f2: Seq<FollowRecord>)
    requires
        f1.len() <= f2.len(),
        forall|i: int| 0 <= i < f1.len() ==> f2[i] == f1[i],
    ensures
        forall|a: u128, b: u128| #[trigger] follows_contains(f1, a, b) ==> follows_contains(
            f2,
            a,
            b,
        ),
{
    assert forall|a: u128, b: u128| #[trigger] follows_contains(f1, a, b) implies follows_contains(
        f2,
        a,
        b,
    ) by {
        let j = choose|j: int|
            0 <= j < f1.len() && (#[trigger] f1[j]).follower_id == a && f1[j].followed_id == b;
        assert(f2[j].follower_id == a && f2[j].followed_id == b);
    }
}

/// Filtering follow rows keeps only rows of the original and preserves
/// pair distinctness.
pub proof fn lemma_follows_filter(s: Seq<FollowRecord>, pred: spec_fn(FollowRecord) -> bool)
    requires
        forall|i: int, j: int|
            0 <= i < s.len() && 0 <= j < s.len() && i != j ==> !((#[trigger] s[i]).follower_id == (
            #[trigger] s[j]).follower_id && s[i].followed_id == s[j].followed_id),
    ensures
        forall|i: int| 0 <= i < s.filter(pred).len() ==> s.contains(#[trigger] s.filter(pred)[i]),
        forall|i: int, j: int|
            0 <= i < s.filter(pred).len() && 0 <= j < s.filter(pred).len() && i != j ==> !((
            #[trigger] s.filter(pred)[i]).follower_id == (#[trigger] s.filter(pred)[j]).follower_id
                && s.filter(pred)[i].followed_id == s.filter(pred)[j].followed_id),
    decreases s.len(),
{
    reveal(Seq::filter);
    broadcast use vstd::seq_lib::group_seq_properties;

    if s.len() > 0 {
        let sub = s.drop_last();
        lemma_follows_filter(sub, pred);
        assert forall|i: int|
            0 <= i < s.filter(pred).len() implies s.contains(#[trigger] s.filter(pred)[i]) by {
            if i < sub.filter(pred).len() {
                assert(sub.contains(sub.filter(pred)[i]));
                let w = choose|w: int| 0 <= w < sub.len() && sub[w] == sub.filter(pred)[i];
                assert(s[w] == s.filter(pred)[i]);
            } else {
                assert(s[s.len() - 1] == s.filter(pred)[i]);
            }
        }
    }
}

/// Filtering favorite rows keeps only rows of the original and preserves
/// the at-most-one-row-per-pair property.
pub proof fn lemma_favorites_filter(s: Seq<FavoriteRecord>, pred: spec_fn(FavoriteRecord) -> bool)
    requires
        forall|i: int, j: int|
            0 <= i < s.len() && 0 <= j < s.len() && i != j ==> !((#[trigger] s[i]).article_slug@
                == (#[trigger] s[j]).article_slug@ && s[i].user_id == s[j].user_id),
    ensures
        forall|i: int| 0 <= i < s.filter(pred).len() ==> s.contains(#[trigger] s.filter(pred)[i]),
        forall|i: int, j: int|
            0 <= i < s.filter(pred).len() && 0 <= j < s.filter(pred).len() && i != j ==> !((
            #[trigger] s.filter(pred)[i]).article_slug@ == (
            #[trigger] s.filter(pred)[j]).article_slug@ && s.filter(pred)[i].user_id == s.filter(
                pred,
            )[j].user_id),
    decreases s.len(),
{
    reveal(Seq::filter);
    broadcast use vstd::seq_lib::group_seq_properties;

    if s.len() > 0 {
        let sub = s.drop_last();
        lemma_favorites_filter(sub, pred);
        assert forall|i: int|
            0 <= i < s.filter(pred).len() implies s.contains(#[trigger] s.filter(pred)[i]) by {
            if i < sub.filter(pred).len() {
                assert(sub.contains(sub.filter(pred)[i]));
                let w = choose|w: int| 0 <= w < sub.len() && sub[w] == sub.filter(pred)[i];
                assert(s[w] == s.filter(pred)[i]);
            } else {
                assert(s[s.len() - 1] == s.filter(pred)[i]);
            }
        }
        if pred(s.last()) {
            let f = s.filter(pred);
            let subf = sub.filter(pred);
            assert forall|i: int, j: int|
                0 <= i < f.len() && 0 <= j < f.len() && i != j implies !((
            #[trigger] f[i]).article_slug@ == (#[trigger] f[j]).article_slug@ && f[i].user_id
                == f[j].user_id) by {
                if i < subf.len() && j < subf.len() {
                } else {
                    let k = if i < subf.len() {
                        i
                    } else {
                        j
                    };
                    assert(sub.contains(subf[k]));
                    let w = choose|w: int| 0 <= w < sub.len() && sub[w] == subf[k];
                    assert(s[w] == f[k]);
                    assert(!(s[w].article_slug@ == s[s.len() - 1].article_slug@ && s[w].user_id
                        == s[s.len() - 1].user_id));
                }
            }
        }
    }
}

/// Filtering comment rows keeps only rows of the original, preserves id
/// distinctness and the creation-time order.
pub proof fn lemma_comments_filter(s: Seq<CommentRecord>, pred: spec_fn(CommentRecord) -> bool)
    requires
        forall|i: int, j: int|
            0 <= i < s.len() && 0 <= j < s.len() && i != j ==> (#[trigger] s[i]).id != (
            #[trigger] s[j]).id,
        forall|i: int, j: int|
            0 <= i < j < s.len() ==> (#[trigger] s[i]).created_at < (#[trigger] s[j]).created_at,
    ensures
        forall|i: int| 0 <= i < s.filter(pred).len() ==> s.contains(#[trigger] s.filter(pred)[i]),
        forall|i: int, j: int|
            0 <= i < s.filter(pred).len() && 0 <= j < s.filter(pred).len() && i != j ==> (
            #[trigger] s.filter(pred)[i]).id != (#[trigger] s.filter(pred)[j]).id,
        forall|i: int, j: int|
            0 <= i < j < s.filter(pred).len() ==> (#[trigger] s.filter(pred)[i]).created_at < (
            #[trigger] s.filter(pred)[j]).created_at,
    decreases s.len(),
{
    reveal(Seq::filter);
    broadcast use vstd::seq_lib::group_seq_properties;

    if s.len() > 0 {
        let sub = s.drop_last();
        lemma_comments_filter(sub, pred);
        assert forall|i: int|
            0 <= i < s.filter(pred).len() implies s.contains(#[trigger] s.filter(pred)[i]) by {
            if i < sub.filter(pred).len() {
                assert(sub.contains(sub.filter(pred)[i]));
                let w = choose|w: int| 0 <= w < sub.len() && sub[w] == sub.filter(pred)[i];
                assert(s[w] == s.filter(pred)[i]);
            } else {
                assert(s[s.len() - 1] == s.filter(pred)[i]);
            }
        }
        if pred(s.last()) {
            let f = s.filter(pred);
            let subf = sub.filter(pred);
            assert forall|i: int, j: int|
                0 <= i < f.len() && 0 <= j < f.len() && i != j implies (#[trigger] f[i]).id != (
            #[trigger] f[j]).id by {
                if !(i < subf.len() && j < subf.len()) {
                    let k = if i < subf.len() {
                        i
                    } else {
                        j
                    };
                    assert(sub.contains(subf[k]));
                    let w = choose|w: int| 0 <= w < sub.len() && sub[w] == subf[k];
                    assert(s[w] == f[k]);
                    assert(s[w].id != s[s.len() - 1].id);
                }
            }
            assert forall|i: int, j: int|
                0 <= i < j < f.len() implies (#[trigger] f[i]).created_at < (
            #[trigger] f[j]).created_at by {
                if !(j < subf.len()) {
                    assert(sub.contains(subf[i]));
                    let w = choose|w: int| 0 <= w < sub.len() && sub[w] == subf[i];
                    assert(s[w] == f[i]);
                    assert(s[w].created_at < s[s.len() - 1].created_at);
                }
            }
        }
    }
}

/// Filtering article rows keeps only rows of the original, preserves slug
/// distinctness and the creation-time order.
pub proof fn lemma_articles_filter(s: Seq<ArticleRecord>, pred: spec_fn(ArticleRecord) -> bool)
    requires
        forall|i: int, j: int|
            0 <= i < s.len() && 0 <= j < s.len() && i != j ==> (#[trigger] s[i]).slug@ != (
            #[trigger] s[j]).slug@,
        forall|i: int, j: int|
            0 <= i < j < s.len() ==> (#[trigger] s[i]).created_at < (#[trigger] s[j]).created_at,
    ensures
        forall|i: int| 0 <= i < s.filter(pred).len() ==> s.contains(#[trigger] s.filter(pred)[i]),
        forall|i: int, j: int|
            0 <= i < s.filter(pred).len() && 0 <= j < s.filter(pred).len() && i != j ==> (
            #[trigger] s.filter(pred)[i]).slug@ != (#[trigger] s.filter(pred)[j]).slug@,
        forall|i: int, j: int|
            0 <= i < j < s.filter(pred).len() ==> (#[trigger] s.filter(pred)[i]).created_at < (
            #[trigger] s.filter(pred)[j]).created_at,
    decreases s.len(),
{
    reveal(Seq::filter);
    broadcast use vstd::seq_lib::group_seq_properties;

    if s.len() > 0 {
        let sub = s.drop_last();
        lemma_articles_filter(sub, pred);
        assert forall|i: int|
            0 <= i < s.filter(pred).len() implies s.contains(#[trigger] s.filter(pred)[i]) by {
            if i < sub.filter(pred).len() {
                assert(sub.contains(sub.filter(pred)[i]));
                let w = choose|w: int| 0 <= w < sub.len() && sub[w] == sub.filter(pred)[i];
                assert(s[w] == s.filter(pred)[i]);
            } else {
                assert(s[s.len() - 1] == s.filter(pred)[i]);
            }
        }
        if pred(s.last()) {
            let f = s.filter(pred);
            let subf = sub.filter(pred);
            assert forall|i: int, j: int|
                0 <= i < f.len() && 0 <= j < f.len() && i != j implies (#[trigger] f[i]).slug@ != (
            #[trigger] f[j]).slug@ by {
                if !(i < subf.len() && j < subf.len()) {
                    let k = if i < subf.len() {
                        i
                    } else {
                        j
                    };
                    assert(sub.contains(subf[k]));
                    let w = choose|w: int| 0 <= w < sub.len() && sub[w] == subf[k];
                    assert(s[w] == f[k]);
                    assert(s[w].slug@ != s[s.len() - 1].slug@);
                }
            }
            assert forall|i: int, j: int|
                0 <= i < j < f.len() implies (#[trigger] f[i]).created_at < (
            #[trigger] f[j]).created_at by {
                if !(j < subf.len()) {
                    assert(sub.contains(subf[i]));
                    let w = choose|w: int| 0 <= w < sub.len() && sub[w] == subf[i];
                    assert(s[w] == f[i]);
                    assert(s[w].created_at < s[s.len() - 1].created_at);
                }
            }
        }
    }
}

/// Under distinct comment ids, the chosen index of a present id is the
/// index where it stands.
pub proof fn lemma_comment_idx(m: StoreModel, i: int)
    requires
        m.comments_wf(),
        0 <= i < m.comments.len(),
    ensures
        m.has_comment(m.comments[i].id),
        m.comment_idx(m.comments[i].id) == i,
{
    let id = m.comments[i].id;
    assert(m.has_comment(id));
    let j = m.comment_idx(id);
    assert(0 <= j < m.comments.len() && m.comments[j].id == id);
}

} // verus!

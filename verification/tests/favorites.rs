use conduit::domain::{
    Article, ArticleContent, ArticleMetadata, FavoriteOutcome, Profile, SignUp, UnfavoriteOutcome,
    User,
};
use conduit::password::Password;
use conduit::store::Repository;

fn new_user(repo: &mut Repository, name: &str) -> User {
    repo.sign_up(
        SignUp {
            username: name.to_string(),
            email: format!("{}@example.com", name),
            password: Password::from_clear_text("pw".to_string()).unwrap(),
        },
    )
    .unwrap()
}

fn new_article(repo: &mut Repository, author: &User, title: &str) -> Article {
    author
        .publish(
            ArticleContent {
                title: title.to_string(),
                description: "d".to_string(),
                body: "b".to_string(),
                tag_list: Vec::new(),
            },
            repo,
        )
        .unwrap()
}

#[test]
fn you_cannot_favorite_an_article_which_does_not_exist() {
    let mut repo = Repository::new();
    let user = new_user(&mut repo, "alice");
    // Slug not pointing to any article in the store.
    let article = Article {
        slug: "hello".to_string(),
        content: ArticleContent {
            title: "hello".to_string(),
            description: String::new(),
            body: String::new(),
            tag_list: Vec::new(),
        },
        author: Profile { username: String::new(), bio: None, image: None },
        metadata: ArticleMetadata { created_at: 0, updated_at: 0 },
        favorites_count: 0,
    };
    let result = repo.favorite(&article, &user);
    assert!(result.is_err());
}

#[test]
fn you_can_favorite_an_article_twice_but_it_only_counts_for_one() {
    let mut repo = Repository::new();
    let user = new_user(&mut repo, "bob");
    let article = new_article(&mut repo, &user, "Twice");

    let result = repo.favorite(&article, &user);
    assert_eq!(result.unwrap(), FavoriteOutcome::NewFavorite);

    let result = repo.favorite(&article, &user);
    assert_eq!(result.unwrap(), FavoriteOutcome::AlreadyAFavorite);

    assert_eq!(1, repo.n_favorites(&article).unwrap());
    assert!(repo.is_favorite(&article, &user).unwrap());
}

#[test]
fn you_can_unfavorite_an_article_which_you_never_favorited() {
    let mut repo = Repository::new();
    let user = new_user(&mut repo, "carol");
    let article = new_article(&mut repo, &user, "Never Favorited");

    let result = repo.unfavorite(&article, &user);
    assert_eq!(result.unwrap(), UnfavoriteOutcome::WasNotAFavorite);
}

#[test]
fn favorites_works() {
    let mut repo = Repository::new();
    let author = new_user(&mut repo, "dora");
    let article = new_article(&mut repo, &author, "Popular");

    let n_fans = 10;
    let fans: Vec<User> = (0..n_fans)
        .map(|i| new_user(&mut repo, &format!("fan{}", i)))
        .collect();

    for fan in &fans {
        assert!(!repo.is_favorite(&article, fan).unwrap());
        repo.favorite(&article, fan).expect("Failed to fav article");
        assert!(repo.is_favorite(&article, fan).unwrap());
    }

    assert_eq!(n_fans as u64, repo.n_favorites(&article).unwrap());

    for fan in &fans {
        repo.unfavorite(&article, fan).expect("Failed to unfav article");
    }

    assert_eq!(0, repo.n_favorites(&article).unwrap());
}

#[test]
fn favorite_count_is_updated_correctly() {
    let mut repo = Repository::new();
    let users: Vec<User> = (0..5).map(|i| new_user(&mut repo, &format!("u{}", i))).collect();
    let author = users[0].clone();
    let slug = new_article(&mut repo, &author, "Counted").slug;

    let article = repo.get_article_by_slug(&slug).unwrap();
    assert_eq!(slug, article.slug);
    assert_eq!(article.favorites_count, 0);

    for (i, user) in users.iter().enumerate() {
        let article = repo.get_article_by_slug(&slug).unwrap();
        let view = user.favorite(article, &mut repo).unwrap();
        assert_eq!(view.favorites_count, (i + 1) as u64);
        assert!(view.favorited);
    }

    for user in &users {
        let article = repo.get_article_by_slug(&slug).unwrap();
        let view = user.unfavorite(article, &mut repo).unwrap();
        assert!(!view.favorited);
    }

    let article = repo.get_article_by_slug(&slug).unwrap();
    assert_eq!(article.favorites_count, 0);
}

#[test]
fn favoriting_repeatedly_keeps_favorited_true_and_count_one() {
    let mut repo = Repository::new();
    let user = new_user(&mut repo, "erin");
    let slug = new_article(&mut repo, &user, "Steady").slug;

    for _ in 0..3 {
        let article = repo.get_article_by_slug(&slug).unwrap();
        let view = user.favorite(article, &mut repo).unwrap();
        assert!(view.favorited);
        assert_eq!(view.favorites_count, 1);
    }
    for _ in 0..3 {
        let article = repo.get_article_by_slug(&slug).unwrap();
        let view = user.unfavorite(article, &mut repo).unwrap();
        assert!(!view.favorited);
        assert_eq!(view.favorites_count, 0);
    }
}

#[test]
fn are_favorites_answers_per_article() {
    let mut repo = Repository::new();
    let user = new_user(&mut repo, "frida");
    let liked = new_article(&mut repo, &user, "Liked");
    let ignored = new_article(&mut repo, &user, "Ignored");
    repo.favorite(&liked, &user).unwrap();

    let answers = repo.are_favorites(&vec![liked, ignored], &user).unwrap();
    assert_eq!(answers, vec![true, false]);
}

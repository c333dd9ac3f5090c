use conduit::domain::{
    ArticleContent, ArticleQuery, ArticleUpdate, FeedQuery, Profile, SignUp, User,
};
use conduit::errors::{ChangeArticleError, GetArticleError, PublishArticleError};
use conduit::password::Password;
use conduit::store::Repository;

fn new_user(repo: &mut Repository, name: &str) -> User {
    repo.sign_up(
        SignUp {
            username: name.to_string(),
            email: format!("{}@example.com", name),
            password: Password::from_clear_text("pw".to_string()).unwrap(),
        },
    )
    .unwrap()
}

fn draft(title: &str) -> ArticleContent {
    ArticleContent {
        title: title.to_string(),
        description: format!("about {}", title),
        body: format!("body of {}", title),
        tag_list: vec!["testing".to_string()],
    }
}

#[test]
fn slugs_must_be_unique() {
    let mut repo = Repository::new();
    let author = new_user(&mut repo, "alice");
    let first_draft = draft("One Title");
    let second_draft = first_draft.clone();
    // Two article drafts with identical titles derive identical slugs.
    assert_eq!(first_draft.slug(), second_draft.slug());
    let expected_slug = first_draft.slug();

    let result = author.publish(first_draft, &mut repo);
    assert!(result.is_ok());

    // Publishing the second draft fails, with the duplicate-slug conflict.
    let result = author.publish(second_draft, &mut repo);
    match result.unwrap_err() {
        PublishArticleError::DuplicatedSlug { slug } => assert_eq!(expected_slug, slug),
        _ => panic!("Unexpected error"),
    }
}

#[test]
fn insert_and_retrieve_article() {
    let mut repo = Repository::new();
    let author = new_user(&mut repo, "bob");
    let expected_article = author.publish(draft("Fresh News"), &mut repo).unwrap();
    let retrieved_article = repo.get_article_by_slug(&expected_article.slug).unwrap();
    assert_eq!(expected_article, retrieved_article);
}

#[test]
fn round_trip_preserves_content_and_starts_unfavorited() {
    let mut repo = Repository::new();
    let author = new_user(&mut repo, "carol");
    let content = draft("Round Trip");
    author.publish(content.clone(), &mut repo).unwrap();

    let fetched = repo.get_article_by_slug("round-trip").unwrap();
    assert_eq!(fetched.content.title, content.title);
    assert_eq!(fetched.content.description, content.description);
    assert_eq!(fetched.content.body, content.body);
    assert_eq!(fetched.content.tag_list, content.tag_list);
    assert_eq!(fetched.author.username, "carol");
    assert_eq!(fetched.favorites_count, 0);
}

#[test]
fn update_and_retrieve_article() {
    let mut repo = Repository::new();
    let author = new_user(&mut repo, "dave");
    let article = author.publish(draft("Old Title"), &mut repo).unwrap();

    let update = ArticleUpdate {
        title: Some("New Title".to_string()),
        description: Some("new description".to_string()),
        body: Some("new body".to_string()),
    };
    let updated_article = author.update_article(article, update.clone(), &mut repo).unwrap();

    assert_eq!(update.title, updated_article.content.title.into());
    assert_eq!(update.description, updated_article.content.description.into());
    assert_eq!(update.body, updated_article.content.body.into());
    // The slug never changes on update.
    assert_eq!(updated_article.slug, "old-title");
}

#[test]
fn should_update_article_partially() {
    let mut repo = Repository::new();
    let author = new_user(&mut repo, "erin");
    let article = author.publish(draft("Keep Description"), &mut repo).unwrap();
    let old_description = article.content.description.clone();

    let update = ArticleUpdate {
        title: Some("Fully Different".to_string()),
        description: None,
        body: Some("changed body".to_string()),
    };
    let updated = author.update_article(article, update, &mut repo).unwrap();
    assert_eq!(updated.content.title, "Fully Different");
    assert_eq!(updated.content.description, old_description);
    assert_eq!(updated.content.body, "changed body");
}

#[test]
fn only_the_author_may_delete_or_update() {
    let mut repo = Repository::new();
    let author = new_user(&mut repo, "frank");
    let intruder = new_user(&mut repo, "grace");
    let article = author.publish(draft("Protected"), &mut repo).unwrap();

    // Another user's attempts fail with Forbidden, not a not-found.
    let err = intruder.delete(article.clone(), &mut repo).unwrap_err();
    assert_eq!(err, ChangeArticleError::Forbidden);
    let err = intruder
        .update_article(
            article.clone(),
            ArticleUpdate { title: None, description: None, body: None },
            &mut repo,
        )
        .unwrap_err();
    assert_eq!(err, ChangeArticleError::Forbidden);
    assert!(repo.get_article_by_slug("protected").is_ok());

    // The author's own attempt succeeds.
    author.delete(article, &mut repo).unwrap();
    let result = repo.get_article_by_slug("protected");
    assert!(matches!(
        result.unwrap_err(),
        GetArticleError::ArticleNotFound { slug } if slug == "protected"
    ));
}

#[test]
fn delete_article() {
    let mut repo = Repository::new();
    let mut articles = Vec::new();
    for name in ["h1", "h2", "h3", "h4", "h5"] {
        let user = new_user(&mut repo, name);
        articles.push(user.publish(draft(&format!("Title {}", name)), &mut repo).unwrap());
    }
    let article = articles[0].clone();
    let slug = article.slug.clone();

    repo.delete_article(&article).expect("Failed to delete article");

    let results = repo.find_articles(ArticleQuery { author: None, favorited: None, tag: None })
        .unwrap();
    assert_eq!(results.len(), 4);

    let result = repo.get_article_by_slug(&slug);
    assert!(result.is_err());
}

#[test]
fn should_list_articles() {
    let mut repo = Repository::new();
    for name in ["i1", "i2", "i3", "i4", "i5"] {
        let user = new_user(&mut repo, name);
        user.publish(draft(&format!("List {}", name)), &mut repo).unwrap();
    }
    let articles = repo
        .find_articles(ArticleQuery { author: None, favorited: None, tag: None })
        .unwrap();
    assert_eq!(articles.len(), 5);
}

#[test]
fn should_get_articles_by_author() {
    let mut repo = Repository::new();
    for name in ["j1", "j2", "j3", "j4", "j5"] {
        let user = new_user(&mut repo, name);
        user.publish(draft(&format!("By {}", name)), &mut repo).unwrap();
    }
    let query = ArticleQuery { author: Some("j1".to_string()), tag: None, favorited: None };
    let articles = repo.find_articles(query).unwrap();
    assert_eq!(articles.len(), 1);
    assert_eq!(articles[0].author.username, "j1");
    assert_eq!(articles[0].content.title, "By j1");
    assert_ne!(articles[0].slug, "");
}

#[test]
fn should_get_articles_by_tag() {
    let mut repo = Repository::new();
    let user = new_user(&mut repo, "kate");
    let mut tagged = draft("Tagged Piece");
    tagged.tag_list = vec!["special".to_string()];
    user.publish(tagged, &mut repo).unwrap();
    user.publish(draft("Plain Piece"), &mut repo).unwrap();

    let query = ArticleQuery { author: None, tag: Some("special".to_string()), favorited: None };
    let articles = repo.find_articles(query).unwrap();
    assert_eq!(articles.len(), 1);
    assert_eq!(articles[0].content.title, "Tagged Piece");
}

#[test]
fn feed_composition_and_pagination() {
    let mut repo = Repository::new();
    let x = new_user(&mut repo, "x");
    let a = new_user(&mut repo, "a");
    let b = new_user(&mut repo, "b");
    let c = new_user(&mut repo, "c");

    a.publish(draft("From A One"), &mut repo).unwrap();
    b.publish(draft("From B One"), &mut repo).unwrap();
    c.publish(draft("From C One"), &mut repo).unwrap();
    a.publish(draft("From A Two"), &mut repo).unwrap();

    x.follow(repo.get_profile("a").unwrap(), &mut repo).unwrap();
    x.follow(repo.get_profile("b").unwrap(), &mut repo).unwrap();

    // Articles by followed authors appear, newest first; C's do not.
    let feed = x.feed(FeedQuery { limit: 20, offset: 0 }, &repo).unwrap();
    let titles: Vec<&str> = feed.iter().map(|v| v.content.title.as_str()).collect();
    assert_eq!(titles, vec!["From A Two", "From B One", "From A One"]);

    // Pagination returns stable, non-overlapping slices.
    let page1 = x.feed(FeedQuery { limit: 2, offset: 0 }, &repo).unwrap();
    let page2 = x.feed(FeedQuery { limit: 2, offset: 2 }, &repo).unwrap();
    assert_eq!(page1.len(), 2);
    assert_eq!(page2.len(), 1);
    assert_eq!(page1[0].content.title, "From A Two");
    assert_eq!(page1[1].content.title, "From B One");
    assert_eq!(page2[0].content.title, "From A One");
    for v1 in &page1 {
        for v2 in &page2 {
            assert_ne!(v1.slug, v2.slug);
        }
    }
}

#[test]
fn get_tags_returns_the_distinct_set() {
    let mut repo = Repository::new();
    let user = new_user(&mut repo, "lena");
    let mut d1 = draft("First Tagged");
    d1.tag_list = vec!["rust".to_string(), "verif".to_string()];
    let mut d2 = draft("Second Tagged");
    d2.tag_list = vec!["verif".to_string(), "web".to_string()];
    user.publish(d1, &mut repo).unwrap();
    user.publish(d2, &mut repo).unwrap();

    let mut tags = repo.get_tags().unwrap();
    tags.sort();
    assert_eq!(tags, vec!["rust".to_string(), "verif".to_string(), "web".to_string()]);
}

#[test]
fn publishing_with_a_missing_author_is_rejected() {
    let mut repo = Repository::new();
    let ghost = User {
        id: 999,
        email: "ghost@example.com".to_string(),
        profile: Profile { username: "ghost".to_string(), bio: None, image: None },
    };
    let err = ghost.publish(draft("Haunted"), &mut repo).unwrap_err();
    assert_eq!(err, PublishArticleError::AuthorNotFound);
}

#[test]
fn feed_pagination_edges() {
    let mut repo = Repository::new();
    let user = new_user(&mut repo, "zoe");
    user.publish(draft("Only One"), &mut repo).unwrap();

    // The self-follow makes a user's own articles part of their feed.
    let all = user.feed(FeedQuery { limit: 20, offset: 0 }, &repo).unwrap();
    assert_eq!(all.len(), 1);

    let empty_limit = user.feed(FeedQuery { limit: 0, offset: 0 }, &repo).unwrap();
    assert!(empty_limit.is_empty());
    let past_the_end = user.feed(FeedQuery { limit: 20, offset: 10 }, &repo).unwrap();
    assert!(past_the_end.is_empty());
    let huge = user.feed(FeedQuery { limit: u64::MAX, offset: 0 }, &repo).unwrap();
    assert_eq!(huge.len(), 1);
}

#[test]
fn deleting_a_missing_article_is_not_found_for_its_author() {
    let mut repo = Repository::new();
    let author = new_user(&mut repo, "yan");
    let article = author.publish(draft("Short Lived"), &mut repo).unwrap();
    author.delete(article.clone(), &mut repo).unwrap();

    let err = author.delete(article, &mut repo).unwrap_err();
    assert_eq!(err, ChangeArticleError::ArticleNotFound);
}

use conduit::domain::{Article, ArticleContent, CommentContent, SignUp, User};
use conduit::errors::DeleteCommentError;
use conduit::password::Password;
use conduit::store::Repository;

fn new_user(repo: &mut Repository, name: &str) -> User {
    repo.sign_up(
        SignUp {
            username: name.to_string(),
            email: format!("{}@example.com", name),
            password: Password::from_clear_text("pw".to_string()).unwrap(),
        },
    )
    .unwrap()
}

fn new_article(repo: &mut Repository, author: &User, title: &str) -> Article {
    author
        .publish(
            ArticleContent {
                title: title.to_string(),
                description: "d".to_string(),
                body: "b".to_string(),
                tag_list: Vec::new(),
            },
            repo,
        )
        .unwrap()
}

#[test]
fn comments_api() {
    let mut repo = Repository::new();
    let user = new_user(&mut repo, "alice");
    let article = new_article(&mut repo, &user, "Discussed");

    let first_comment = user
        .comment(&article, CommentContent("first thoughts".to_string()), &mut repo)
        .unwrap();
    assert_eq!(first_comment.body, "first thoughts");
    assert_eq!(first_comment.author.username, user.profile.username);
    assert_eq!(first_comment.author.bio, user.profile.bio);
    assert_eq!(first_comment.author.image, user.profile.image);
    // A user follows themselves, by definition.
    let first_view = first_comment.view(&user, &repo).unwrap();
    assert!(first_view.author.following);

    // A user can create more than one comment for the same article.
    let second_comment = user
        .comment(&article, CommentContent("second thoughts".to_string()), &mut repo)
        .unwrap();

    let comments = article.comments(&repo).unwrap();
    assert_eq!(comments.len(), 2);
    assert_eq!(comments[0], first_comment);
    assert_eq!(comments[1], second_comment);

    // Delete the first comment.
    user.delete_comment(first_comment, &mut repo).unwrap();
    let comments = article.comments(&repo).unwrap();
    assert_eq!(comments.len(), 1);
    assert_eq!(comments[0], second_comment);

    // Delete the second comment.
    user.delete_comment(second_comment, &mut repo).unwrap();
    let comments = article.comments(&repo).unwrap();
    assert_eq!(comments.len(), 0);
}

#[test]
fn you_cannot_delete_a_comment_which_you_did_not_write() {
    let mut repo = Repository::new();
    let comment_author = new_user(&mut repo, "bob");
    let article_author = new_user(&mut repo, "carol");
    let article = new_article(&mut repo, &article_author, "Contested");

    let comment = comment_author
        .comment(&article, CommentContent("mine".to_string()), &mut repo)
        .unwrap();
    let comment_id = comment.id;

    // The article's author tries to delete it and is refused.
    let response = article_author.delete_comment(comment, &mut repo);
    assert_eq!(response.unwrap_err(), DeleteCommentError::Forbidden);
    assert!(repo.get_comment(comment_id).is_ok());
}

#[test]
fn missing_comments_are_not_found() {
    let repo = Repository::new();
    let err = repo.get_comment(77).unwrap_err();
    assert!(matches!(err, DeleteCommentError::CommentNotFound { comment_id: 77 }));
}

#[test]
fn deleting_an_article_removes_its_comments_and_favorites() {
    let mut repo = Repository::new();
    let author = new_user(&mut repo, "dora");
    let article = new_article(&mut repo, &author, "Doomed");
    let keeper = new_article(&mut repo, &author, "Kept");

    author.comment(&article, CommentContent("gone".to_string()), &mut repo).unwrap();
    let kept_comment = author
        .comment(&keeper, CommentContent("stays".to_string()), &mut repo)
        .unwrap();
    repo.favorite(&article, &author).unwrap();

    author.delete(article.clone(), &mut repo).unwrap();

    assert!(repo.get_article_by_slug(&article.slug).is_err());
    assert_eq!(article.comments(&repo).unwrap().len(), 0);
    let kept = keeper.comments(&repo).unwrap();
    assert_eq!(kept, vec![kept_comment]);
}

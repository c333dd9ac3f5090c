use conduit::domain::{SignUp, UserUpdate};
use conduit::errors::{GetUserError, LoginError, SignUpError};
use conduit::password::Password;
use conduit::store::Repository;

fn sign_up_request(username: &str, email: &str, password: &str) -> SignUp {
    SignUp {
        username: username.to_string(),
        email: email.to_string(),
        password: Password::from_clear_text(password.to_string()).unwrap(),
    }
}

#[test]
fn test_create_user() {
    let mut repo = Repository::new();
    let user = repo.sign_up(sign_up_request("alice", "alice@example.com", "pw-alice")).unwrap();
    let results = repo.get_user_by_id(user.id);
    assert!(results.is_ok());
    assert_eq!(results.unwrap().profile.username, "alice");
}

#[test]
fn test_authenticate_user() {
    let mut repo = Repository::new();
    let user = repo.sign_up(sign_up_request("bob", "bob@example.com", "pw-bob")).unwrap();
    let results = repo.get_user_by_email_and_password(&user.email, "pw-bob");
    assert!(results.is_ok());
}

#[test]
fn login_secrecy_wrong_password_and_unknown_email_look_alike() {
    let mut repo = Repository::new();
    repo.sign_up(sign_up_request("carol", "carol@example.com", "pw-carol")).unwrap();

    let wrong_password = repo.get_user_by_email_and_password("carol@example.com", "nope");
    let unknown_email = repo.get_user_by_email_and_password("nobody@example.com", "pw-carol");
    assert_eq!(wrong_password.unwrap_err(), LoginError::NotFound);
    assert_eq!(unknown_email.unwrap_err(), LoginError::NotFound);
}

#[test]
fn duplicate_username_and_email_are_conflicts() {
    let mut repo = Repository::new();
    repo.sign_up(sign_up_request("dave", "dave@example.com", "pw")).unwrap();

    let same_name = repo.sign_up(sign_up_request("dave", "other@example.com", "pw"));
    assert_eq!(same_name.unwrap_err(), SignUpError::UsernameTaken);

    let same_email = repo.sign_up(sign_up_request("dave2", "dave@example.com", "pw"));
    assert_eq!(same_email.unwrap_err(), SignUpError::EmailTaken);
}

#[test]
fn test_update_user() {
    let mut repo = Repository::new();
    let user = repo.sign_up(sign_up_request("erin", "erin@example.com", "pw-erin")).unwrap();
    let user_id = user.id;

    let new_details = UserUpdate {
        bio: Some("I like to code.".to_string()),
        image: Some("https://example.com/erin.png".to_string()),
        email: Some("erin2@example.com".to_string()),
        username: None,
        password: None,
    };
    repo.update_user(user, new_details).expect("Failed to update user");

    let updated_user = repo.get_user_by_id(user_id).expect("Failed to get user");
    assert_eq!(updated_user.profile.bio, Some("I like to code.".to_string()));
    assert_eq!(updated_user.profile.image, Some("https://example.com/erin.png".to_string()));
    assert_eq!(updated_user.email, "erin2@example.com");
    assert_eq!(updated_user.profile.username, "erin");
}

#[test]
fn absent_bio_and_image_clear_while_absent_email_keeps() {
    let mut repo = Repository::new();
    let user = repo.sign_up(sign_up_request("frank", "frank@example.com", "pw")).unwrap();
    let user_id = user.id;
    let with_bio = UserUpdate {
        bio: Some("old bio".to_string()),
        image: None,
        email: None,
        username: None,
        password: None,
    };
    let user = repo.update_user(user, with_bio).unwrap();
    assert_eq!(user.profile.bio, Some("old bio".to_string()));

    // bio and image always overwrite: absent means cleared.
    let clearing = UserUpdate { bio: None, image: None, email: None, username: None, password: None };
    let user = repo.update_user(user, clearing).unwrap();
    assert_eq!(user.profile.bio, None);
    assert_eq!(user.id, user_id);
    // email was absent in both updates and is unchanged.
    assert_eq!(user.email, "frank@example.com");
}

#[test]
fn profiles_api() {
    let mut repo = Repository::new();
    let follower_user = repo.sign_up(sign_up_request("gina", "gina@example.com", "pw")).unwrap();
    let followed_user = repo.sign_up(sign_up_request("hank", "hank@example.com", "pw")).unwrap();

    let followed_profile = repo.get_profile("hank").unwrap();
    assert_eq!(followed_profile.username, followed_user.profile.username);
    assert_eq!(followed_profile.bio, followed_user.profile.bio);
    assert_eq!(followed_profile.image, followed_user.profile.image);

    let view = repo.get_profile_view(&follower_user, "hank").unwrap();
    assert!(!view.following);

    let view = follower_user.follow(followed_profile, &mut repo).unwrap();
    assert!(view.following);

    let view = repo.get_profile_view(&follower_user, "hank").unwrap();
    assert!(view.following);

    let followed_profile = repo.get_profile("hank").unwrap();
    let view = follower_user.unfollow(followed_profile, &mut repo).unwrap();
    assert!(!view.following);

    let view = repo.get_profile_view(&follower_user, "hank").unwrap();
    assert!(!view.following);
}

#[test]
fn follow_is_idempotent_and_users_follow_themselves() {
    let mut repo = Repository::new();
    let user = repo.sign_up(sign_up_request("iris", "iris@example.com", "pw")).unwrap();
    // A user follows themselves, by definition, right after sign-up.
    assert!(repo.is_following(&user, &user).unwrap());

    let other = repo.sign_up(sign_up_request("jack", "jack@example.com", "pw")).unwrap();
    let profile = repo.get_profile("jack").unwrap();
    user.follow(profile.clone(), &mut repo).unwrap();
    user.follow(profile.clone(), &mut repo).unwrap();
    assert!(repo.is_following(&user, &other).unwrap());

    // Unfollowing twice, or a never-followed pair, is a no-op success.
    user.unfollow(profile.clone(), &mut repo).unwrap();
    let view = user.unfollow(profile, &mut repo).unwrap();
    assert!(!view.following);
    assert!(!repo.is_following(&user, &other).unwrap());
}

#[test]
fn following_a_missing_profile_is_not_found_by_username() {
    let mut repo = Repository::new();
    let user = repo.sign_up(sign_up_request("kate", "kate@example.com", "pw")).unwrap();
    let ghost_profile = conduit::domain::Profile {
        username: "nobody".to_string(),
        bio: None,
        image: None,
    };
    let err = user.follow(ghost_profile, &mut repo).unwrap_err();
    assert!(matches!(err, GetUserError::NotFoundByUsername { username } if username == "nobody"));

    let err = repo.get_user_by_id(123456).unwrap_err();
    assert!(matches!(err, GetUserError::NotFound { user_id: 123456 }));
}

#[test]
fn register_and_login() {
    let mut repo = Repository::new();
    let user = repo.sign_up(sign_up_request("lena", "lena@example.com", "pw-lena")).unwrap();
    let logged_in = repo.get_user_by_email_and_password("lena@example.com", "pw-lena").unwrap();
    assert_eq!(logged_in.profile.username, user.profile.username);
    assert_eq!(logged_in.email, user.email);
}

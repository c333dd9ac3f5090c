use conduit::api::insert::NewArticleRequest;
use conduit::api::ApiError;
use conduit::errors::{ChangeArticleError, DatabaseError, LoginError, PublishArticleError};
use conduit::api::register::{NewUserRequest, RegistrationRequest};
use conduit::api::users::UpdateUserRequest;
use conduit::auth::{claims_for, encode_token, extract_claims, extract_token, seconds_from_now};
use conduit::password::PasswordError;

#[test]
fn encode_decode_token() {
    let sub = uuid::Uuid::new_v4().as_u128();
    let token = encode_token(sub, "secret");
    let key = jsonwebtoken::DecodingKey::from_secret("secret".as_bytes());
    let decoded = jsonwebtoken::decode::<serde_json::Value>(
        &token,
        &key,
        &jsonwebtoken::Validation::default(),
    );
    if let Err(e) = &decoded {
        println!("decode err: {}", e);
    }
    assert!(decoded.is_ok());
}

#[test]
fn extract_claims_round_trips_through_a_header() {
    let sub = uuid::Uuid::new_v4().as_u128();
    let token = encode_token(sub, "secret");
    let header = format!("Token {}", token);
    let claims = extract_claims(&header, "secret").expect("claims should decode");
    assert_eq!(claims.user_id(), sub);

    // A wrong secret resolves to nothing.
    assert!(extract_claims(&header, "other-secret").is_none());
    // A header without a token part resolves to nothing.
    assert!(extract_claims("Token", "secret").is_none());
}

#[test]
fn extract_token_takes_the_second_word() {
    assert_eq!(extract_token("Token abc"), Some("abc"));
    assert_eq!(extract_token("Bearer abc def"), Some("abc"));
    assert_eq!(extract_token("NoSpaceHere"), None);
    assert_eq!(extract_token("Token "), Some(""));
}

#[test]
fn expiry_is_at_least_the_offset() {
    assert!(seconds_from_now(3600) >= 3600);
    let claims = claims_for(42, 600);
    assert_eq!(claims.user_id(), 42);
}

#[test]
fn new_article_request_defaults_the_tag_list() {
    let with_tags = NewArticleRequest {
        title: "T".to_string(),
        description: "D".to_string(),
        body: "B".to_string(),
        tag_list: Some(vec!["x".to_string()]),
    };
    let content = with_tags.into_content();
    assert_eq!(content.tag_list, vec!["x".to_string()]);

    let without_tags = NewArticleRequest {
        title: "T".to_string(),
        description: "D".to_string(),
        body: "B".to_string(),
        tag_list: None,
    };
    let content = without_tags.into_content();
    assert!(content.tag_list.is_empty());
}

#[test]
fn registration_rejects_an_empty_password() {
    let request = RegistrationRequest {
        user: NewUserRequest {
            username: "alice".to_string(),
            email: "alice@example.com".to_string(),
            password: String::new(),
        },
    };
    assert_eq!(request.try_into_sign_up().err(), Some(PasswordError::EmptyClearText));
}

#[test]
fn user_update_request_maps_every_field() {
    let request = UpdateUserRequest {
        email: Some("new@example.com".to_string()),
        username: None,
        password: Some("longer secret".to_string()),
        image: None,
        bio: Some("writes tests".to_string()),
    };
    let update = request.try_into_update().unwrap();
    assert_eq!(update.email, Some("new@example.com".to_string()));
    assert_eq!(update.username, None);
    assert!(update.password.is_some());
    assert_eq!(update.bio, Some("writes tests".to_string()));
    assert_eq!(update.image, None);
}

#[test]
fn api_errors_map_to_distinct_statuses() {
    let forbidden = ApiError::ChangeArticle(ChangeArticleError::Forbidden);
    assert_eq!(forbidden.status(), 401);
    assert_eq!(forbidden.error_message(), "");

    let not_found = ApiError::Login(LoginError::NotFound);
    assert_eq!(not_found.status(), 404);
    assert_eq!(not_found.error_message(), "");

    let conflict = ApiError::PublishArticle(PublishArticleError::DuplicatedSlug {
        slug: "taken".to_string(),
    });
    assert_eq!(conflict.status(), 400);
    assert_eq!(conflict.error_message(), "Invalid slug");

    let internal = ApiError::Database(DatabaseError);
    assert_eq!(internal.status(), 500);
    assert_eq!(internal.error_message(), "Something went wrong");
}

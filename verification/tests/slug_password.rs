use conduit::password::{HashedPassword, Password, PasswordError};
use conduit::slug::slugify;

#[test]
fn slug_exact_values() {
    assert_eq!(slugify("Hello, World!"), "hello-world");
    assert_eq!(slugify("  Rust  2024  "), "rust-2024");
    assert_eq!(slugify("A--B"), "a-b");
    assert_eq!(slugify(""), "");
    assert_eq!(slugify("!!!"), "");
    assert_eq!(slugify("MiXeD CaSe TiTlE"), "mixed-case-title");
}

#[test]
fn slug_deterministic_for_equal_titles() {
    let t1 = String::from("The Same Title");
    let t2 = String::from("The Same Title");
    assert_eq!(slugify(&t1), slugify(&t2));
}

#[test]
fn password_rejects_empty_clear_text() {
    let r = Password::from_clear_text(String::new());
    assert_eq!(r.err(), Some(PasswordError::EmptyClearText));
}

#[test]
fn password_hash_is_deterministic_and_verifies() {
    let p1 = Password::from_clear_text("correct horse".to_string()).unwrap();
    let p2 = Password::from_clear_text("correct horse".to_string()).unwrap();
    let h1 = p1.hash().into_string();
    let h2 = p2.hash().into_string();
    assert_eq!(h1, h2);
    assert_eq!(h1.len(), 16);
    assert!(h1.chars().all(|c| c.is_ascii_hexdigit() && !c.is_ascii_uppercase()));

    let stored = HashedPassword::from_hash(h1);
    assert_eq!(stored.verify("correct horse"), Ok(true));
    assert_eq!(stored.verify("wrong horse"), Ok(false));
}

#[test]
fn malformed_stored_hash_is_an_error_not_a_panic() {
    let stored = HashedPassword::from_hash("not-a-hash".to_string());
    assert_eq!(stored.verify("anything"), Err(PasswordError::MalformedHash));
}

//! Hashing, token round trips, input validation, and the login flow
//! against the in-memory store.

use timely_server::auth::Signup;
use timely_server::auth::hash_password;
use timely_server::auth::load_user_for_token;
use timely_server::auth::user_login;
use timely_server::auth::user_signup;
use timely_server::auth::user_signup_and_login;
use timely_server::auth::validate_email_address;
use timely_server::auth::validate_password;
use timely_server::auth::validate_password_hash;
use timely_server::auth::validate_username;
use timely_server::errors::AppError;
use timely_server::memdb::MemDb;

fn signup(username: &str, email: &str, password: &str) -> Signup {
    Signup {
        username: username.to_string(),
        email: email.to_string(),
        password: password.to_string(),
    }
}

#[test]
fn hash_password_is_hex_and_not_the_input() {
    let h = hash_password("password123");
    assert_eq!(h.len(), 64);
    assert!(h.chars().all(|c| c.is_ascii_hexdigit()));
    assert_ne!(h, "password123");
    // deterministic
    assert_eq!(h, hash_password("password123"));
    assert_ne!(h, hash_password("password124"));
}

#[test]
fn validate_password_hash_checks_the_content_hash() {
    let h = hash_password("hunter22");
    assert!(validate_password_hash(&h, "hunter22"));
    assert!(!validate_password_hash(&h, "hunter23"));
    assert!(!validate_password_hash("hunter22", "hunter22"));
}

#[test]
fn email_validation_needs_one_at_with_text_around() {
    assert!(validate_email_address("a@b").is_ok());
    assert!(validate_email_address("me@example.com").is_ok());
    assert!(validate_email_address("").is_err());
    assert!(validate_email_address("nobody").is_err());
    assert!(validate_email_address("@b").is_err());
    assert!(validate_email_address("a@").is_err());
    assert!(validate_email_address(" @b").is_err());
    assert!(validate_email_address("a@b@c").is_err());
}

#[test]
fn username_validation_is_alphanumeric_only() {
    assert!(validate_username("bob42").is_ok());
    assert!(validate_username("").is_ok());
    assert!(validate_username("bob smith").is_err());
    assert!(validate_username("bob_42").is_err());
}

#[test]
fn password_validation_needs_eight_bytes() {
    assert!(validate_password("12345678").is_ok());
    assert!(validate_password("1234567").is_err());
}

#[test]
fn signup_rejects_bad_input_and_creates_nothing() {
    let mut db = MemDb::new();
    let r = user_signup(&mut db, signup("bob", "bad-email", "longenough"));
    assert!(matches!(r, Err(AppError::Validation(_))));
    let r = user_signup(&mut db, signup("bob smith", "a@b", "longenough"));
    assert!(matches!(r, Err(AppError::Validation(_))));
    let r = user_signup(&mut db, signup("bob", "a@b", "short"));
    assert!(matches!(r, Err(AppError::Validation(_))));
    // nothing was created: login finds no user
    let r = user_login(&db, "secret", "bob", "longenough", 1000);
    match r {
        Err(AppError::Auth(m)) => assert_eq!(m, "User not found"),
        other => panic!("expected auth failure, got {:?}", other.is_ok()),
    }
}

#[test]
fn signup_stores_the_password_hash() {
    let mut db = MemDb::new();
    let u = user_signup(&mut db, signup("bob", "bob@example.com", "hunter2222")).unwrap();
    assert_eq!(u.username, "bob");
    assert_eq!(u.email, "bob@example.com");
    assert_eq!(u.password_hash, hash_password("hunter2222"));
}

#[test]
fn login_failures_are_distinguishable_internally() {
    let mut db = MemDb::new();
    user_signup(&mut db, signup("bob", "bob@example.com", "hunter2222")).unwrap();
    let missing = user_login(&db, "secret", "alice", "hunter2222", 1000);
    let wrong = user_login(&db, "secret", "bob", "wrongpassword", 1000);
    let missing_msg = match missing {
        Err(AppError::Auth(m)) => m,
        _ => panic!("expected auth failure for unknown user"),
    };
    let wrong_msg = match wrong {
        Err(AppError::Auth(m)) => m,
        _ => panic!("expected auth failure for wrong password"),
    };
    assert_eq!(missing_msg, "User not found");
    assert_eq!(wrong_msg, "Wrong password");
    assert_ne!(missing_msg, wrong_msg);
}

#[test]
fn login_trims_the_username() {
    let mut db = MemDb::new();
    user_signup(&mut db, signup("bob", "bob@example.com", "hunter2222")).unwrap();
    let r = user_login(&db, "secret", "  bob \n", "hunter2222", 1000);
    assert!(r.is_ok());
}

#[test]
fn token_round_trip_resolves_the_user() {
    let mut db = MemDb::new();
    let (u, token) =
        user_signup_and_login(&mut db, "secret", signup("bob", "b@c", "hunter2222"), 1000)
            .unwrap();
    let loaded = load_user_for_token(&db, "secret", &token).unwrap();
    assert_eq!(loaded.id, u.id);
    assert_eq!(loaded.username, "bob");
}

#[test]
fn invalid_tokens_are_rejected() {
    let mut db = MemDb::new();
    let (_u, token) =
        user_signup_and_login(&mut db, "secret", signup("bob", "b@c", "hunter2222"), 1000)
            .unwrap();
    // garbage
    assert!(matches!(
        load_user_for_token(&db, "secret", "not.a.token"),
        Err(AppError::Auth(_))
    ));
    // tampered signature
    let mut tampered = token.clone();
    tampered.push('x');
    assert!(matches!(load_user_for_token(&db, "secret", &tampered), Err(AppError::Auth(_))));
    // wrong secret
    assert!(matches!(
        load_user_for_token(&db, "other-secret", &token),
        Err(AppError::Auth(_))
    ));
}

#[test]
fn login_token_verifies_like_a_signup_token() {
    let mut db = MemDb::new();
    user_signup(&mut db, signup("bob", "b@c", "hunter2222")).unwrap();
    let (u, token) = user_login(&db, "secret", "bob", "hunter2222", 5000).unwrap();
    let loaded = load_user_for_token(&db, "secret", &token).unwrap();
    assert_eq!(loaded.id, u.id);
}

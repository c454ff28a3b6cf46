use forum_core::store::{LoginError, MainDatabase, RegisterError, UserRole};

const EMAIL_A: &str = "alice@example.com";
const EMAIL_B: &str = "bob@example.com";
const USER_A: &str = "alice";
const USER_B: &str = "bob_42";
const PASS_A: &str = "s3cretPass!";
const PASS_B: &str = "an0therPass";

#[test]
fn register_returns_24_char_token() {
    let mut db = MainDatabase::new();
    let token = db.register(EMAIL_A, USER_A, PASS_A, 1000).unwrap();
    assert_eq!(token.len(), 24);
}

#[test]
fn register_rejects_bad_email() {
    let mut db = MainDatabase::new();
    assert_eq!(db.register("no-at-sign.com", USER_A, PASS_A, 0), Err(RegisterError::InvalidEmail));
    assert_eq!(db.register("@example.com", USER_A, PASS_A, 0), Err(RegisterError::InvalidEmail));
    assert_eq!(db.register("alice@", USER_A, PASS_A, 0), Err(RegisterError::InvalidEmail));
    assert_eq!(db.register("alice@nodot", USER_A, PASS_A, 0), Err(RegisterError::InvalidEmail));
    assert_eq!(db.register("a@b@c.com", USER_A, PASS_A, 0), Err(RegisterError::InvalidEmail));
    assert_eq!(db.register("", USER_A, PASS_A, 0), Err(RegisterError::InvalidEmail));
}

#[test]
fn register_rejects_bad_username() {
    let mut db = MainDatabase::new();
    assert_eq!(db.register(EMAIL_A, "ab", PASS_A, 0), Err(RegisterError::InvalidUsername));
    assert_eq!(
        db.register(EMAIL_A, "name with spaces", PASS_A, 0),
        Err(RegisterError::InvalidUsername)
    );
    assert_eq!(
        db.register(EMAIL_A, "far_too_long_a_username", PASS_A, 0),
        Err(RegisterError::InvalidUsername)
    );
}

#[test]
fn register_rejects_weak_password() {
    let mut db = MainDatabase::new();
    // Too short.
    assert_eq!(db.register(EMAIL_A, USER_A, "aB3!", 0), Err(RegisterError::InvalidPassword));
    // No digit.
    assert_eq!(db.register(EMAIL_A, USER_A, "onlyletters", 0), Err(RegisterError::InvalidPassword));
    // No letter.
    assert_eq!(db.register(EMAIL_A, USER_A, "12345678", 0), Err(RegisterError::InvalidPassword));
    // A space is not allowed.
    assert_eq!(db.register(EMAIL_A, USER_A, "pass word1", 0), Err(RegisterError::InvalidPassword));
}

#[test]
fn register_same_email_twice_is_refused() {
    let mut db = MainDatabase::new();
    db.register(EMAIL_A, USER_A, PASS_A, 0).unwrap();
    assert_eq!(db.register(EMAIL_A, USER_B, PASS_B, 1), Err(RegisterError::EmailInUse));
    // The refused attempt wrote nothing: only one user exists.
    assert!(db.get_user(0).is_some());
    assert!(db.get_user(1).is_none());
}

#[test]
fn login_returns_the_registered_token() {
    let mut db = MainDatabase::new();
    let token = db.register(EMAIL_A, USER_A, PASS_A, 0).unwrap();
    let again = db.login(EMAIL_A, PASS_A, 5).unwrap();
    assert_eq!(token, again);
}

#[test]
fn login_wrong_password_is_refused() {
    let mut db = MainDatabase::new();
    let token = db.register(EMAIL_A, USER_A, PASS_A, 0).unwrap();
    assert_eq!(db.login(EMAIL_A, PASS_B, 5), Err(LoginError::IncorrectPassword));
    // Nothing was altered: the stored token still logs in.
    assert_eq!(db.login(EMAIL_A, PASS_A, 6).unwrap(), token);
}

#[test]
fn login_unknown_email_is_refused() {
    let mut db = MainDatabase::new();
    db.register(EMAIL_A, USER_A, PASS_A, 0).unwrap();
    assert_eq!(db.login(EMAIL_B, PASS_A, 1), Err(LoginError::UserNotFound));
}

#[test]
fn login_validates_before_lookup() {
    let mut db = MainDatabase::new();
    assert_eq!(db.login("bad email", PASS_A, 0), Err(LoginError::InvalidEmail));
    assert_eq!(db.login(EMAIL_A, "short", 0), Err(LoginError::InvalidPassword));
}

#[test]
fn login_stamps_last_activity() {
    let mut db = MainDatabase::new();
    db.register(EMAIL_A, USER_A, PASS_A, 100).unwrap();
    db.login(EMAIL_A, PASS_A, 250).unwrap();
    let u = db.get_user(0).unwrap();
    assert_eq!(u.created_on, 100);
    assert_eq!(u.last_activity, 250);
}

#[test]
fn resolve_issued_and_unknown_tokens() {
    let mut db = MainDatabase::new();
    let t_a = db.register(EMAIL_A, USER_A, PASS_A, 0).unwrap();
    let t_b = db.register(EMAIL_B, USER_B, PASS_B, 0).unwrap();
    assert_eq!(db.get_token_user(&t_a), Some(0));
    assert_eq!(db.get_token_user(&t_b), Some(1));
    assert_eq!(db.get_token_user("AAAAAAAAAAAAAAAAAAAAAAAA"), None);
}

#[test]
fn get_user_and_get_user_by_token() {
    let mut db = MainDatabase::new();
    let token = db.register(EMAIL_A, USER_A, PASS_A, 7).unwrap();
    let by_id = db.get_user(0).unwrap();
    assert_eq!(by_id.user_id, 0);
    assert_eq!(by_id.email, EMAIL_A);
    assert_eq!(by_id.username, USER_A);
    assert_eq!(by_id.token, token);
    assert_eq!(by_id.user_role, UserRole::User);
    let by_token = db.get_user_by_token(&token).unwrap();
    assert_eq!(by_token.user_id, 0);
    assert_eq!(by_token.email, EMAIL_A);
    assert!(db.get_user(1).is_none());
    assert!(db.get_user_by_token("AAAAAAAAAAAAAAAAAAAAAAAA").is_none());
}

#[test]
fn stored_hash_is_salted_argon2() {
    let mut db = MainDatabase::new();
    db.register(EMAIL_A, USER_A, PASS_A, 0).unwrap();
    let u = db.get_user(0).unwrap();
    // The embedded algorithm tag and parameters are in the encoded hash,
    // and the outside crate accepts it for the registered password.
    assert!(u.password_hash.starts_with("$argon2"));
    assert!(argon2::verify_encoded(&u.password_hash, PASS_A.as_bytes()).unwrap());
    assert!(!argon2::verify_encoded(&u.password_hash, PASS_B.as_bytes()).unwrap());
}

#[test]
fn tokens_differ_between_users() {
    let mut db = MainDatabase::new();
    let t_a = db.register(EMAIL_A, USER_A, PASS_A, 0).unwrap();
    let t_b = db.register(EMAIL_B, USER_B, PASS_B, 0).unwrap();
    assert_ne!(t_a, t_b);
}

use sftp_bridge::auth::{
    check_password, check_permission, new_password_hash, password_hash, verdict_result, AuthError, User,
};

#[test]
fn authentication() {
    let stored = password_hash("hunter2", 4).unwrap();
    let mut user = User::new();
    assert!(!user.authed());
    assert_eq!(user.authenticate("u", "hunter2", Some(&stored)), Ok(()));
    assert!(user.authed());
    assert_eq!(user.username(), "u");
    let mut other = User::new();
    assert_eq!(other.authenticate("u", "wrong", Some(&stored)), Err(AuthError::InvalidPassword));
    assert!(!other.authed());
    assert_eq!(other.authenticate("unknown", "", None), Err(AuthError::UnknownUser));
    assert_eq!(other.username(), "");
}

#[test]
fn malformed_hash_and_bad_cost() {
    assert_eq!(check_password("x", "not a hash"), Err(AuthError::Hash));
    assert_eq!(password_hash("x", 2), Err(AuthError::Hash));
    let h = password_hash("x", 4).unwrap();
    assert_ne!(h, "x");
    assert_eq!(check_password("x", &h), Ok(()));
}

#[test]
fn test_check_permission() {
    assert_eq!(check_permission(Some("user"), "user"), Ok(true));
    assert_eq!(check_permission(Some("user"), "admin"), Ok(false));
    assert_eq!(check_permission(None, "admin"), Err(AuthError::UnknownUser));
}

#[test]
fn test_update_user_password() {
    let stored = password_hash("password", 4).unwrap();
    assert_eq!(new_password_hash(Some(&stored), "new_password", "nope", 4), Err(AuthError::InvalidPassword));
    assert_eq!(new_password_hash(None, "new_password", "password", 4), Err(AuthError::UnknownUser));
    let fresh = new_password_hash(Some(&stored), "new_password", "password", 4).unwrap();
    assert_eq!(check_password("new_password", &fresh), Ok(()));
    assert_eq!(check_password("password", &fresh), Err(AuthError::InvalidPassword));
}

#[test]
fn verdicts() {
    assert_eq!(verdict_result(Some(true)), Ok(()));
    assert_eq!(verdict_result(Some(false)), Err(AuthError::InvalidPassword));
    assert_eq!(verdict_result(None), Err(AuthError::Hash));
}

#[test]
fn test_authenticate() {
    let stored = password_hash("password", 4).unwrap();
    let mut auth = User::new();
    auth.authenticate("test", "password", Some(&stored)).unwrap();
    assert!(auth.authed());
    assert_eq!(auth.username(), "test");
}

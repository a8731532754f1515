use ruststream::AuthError;
use ruststream::auth::AuthManager;

#[test]
fn local_user_is_created_once() {
    let mut m = AuthManager::new();
    m.init_local_user().unwrap();
    m.init_local_user().unwrap();
    let s = m.get_local_session().unwrap();
    assert_eq!(s.id, "local");
    assert_eq!(s.user_id, 1);
    assert_eq!(s.username, "local");
    assert!(!s.is_admin);
    assert_eq!(s.expires_at, i64::MAX);
}

#[test]
fn local_session_is_missing_before_init() {
    let m = AuthManager::new();
    assert_eq!(m.get_local_session().unwrap_err(), AuthError::LocalUserMissing);
}

#[test]
fn authenticate_accepts_the_local_credentials() {
    let mut m = AuthManager::new();
    m.init_local_user().unwrap();
    let (user_id, username, is_admin) =
        m.authenticate("local", "local").expect("the local credentials must verify");
    assert_eq!(user_id, 1);
    assert_eq!(username, "local");
    assert!(!is_admin);
}

#[test]
fn authenticate_rejects_a_wrong_password() {
    let mut m = AuthManager::new();
    m.init_local_user().unwrap();
    assert!(m.authenticate("local", "wrong").is_none());
    assert!(m.authenticate("local", "").is_none());
}

#[test]
fn authenticate_rejects_an_unknown_user() {
    let mut m = AuthManager::new();
    m.init_local_user().unwrap();
    assert!(m.authenticate("admin", "local").is_none());
}

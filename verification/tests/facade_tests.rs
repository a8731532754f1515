use ruststream::auth::AuthManager;
use ruststream::facade::{IdentityProvider, resolve_request_identity};
use ruststream::session::SessionStore;

#[test]
fn cookie_mode_resolves_a_valid_token() {
    let manager = AuthManager::new();
    let mut sessions = SessionStore::new(b"secret".to_vec());
    let token = sessions.create_session(1, "alice", false).unwrap();
    let identity = resolve_request_identity(
        IdentityProvider::CookieSession,
        &manager,
        &mut sessions,
        Some(&token),
    )
    .expect("a fresh cookie resolves");
    assert_eq!(identity.user_id, 1);
    assert_eq!(identity.username, "alice");
}

#[test]
fn cookie_mode_treats_a_missing_or_broken_token_as_anonymous() {
    let manager = AuthManager::new();
    let mut sessions = SessionStore::new(b"secret".to_vec());
    assert!(resolve_request_identity(
        IdentityProvider::CookieSession,
        &manager,
        &mut sessions,
        None
    )
    .is_none());
    assert!(resolve_request_identity(
        IdentityProvider::CookieSession,
        &manager,
        &mut sessions,
        Some("garbage.token")
    )
    .is_none());
}

#[test]
fn fixed_local_mode_ignores_the_token() {
    let mut manager = AuthManager::new();
    manager.init_local_user().unwrap();
    let mut sessions = SessionStore::new(b"secret".to_vec());
    let identity = resolve_request_identity(
        IdentityProvider::FixedLocalIdentity,
        &manager,
        &mut sessions,
        Some("whatever.this-says"),
    )
    .expect("the local identity is always authenticated");
    assert_eq!(identity.username, "local");
    assert_eq!(identity.id, "local");
    assert_eq!(identity.expires_at, i64::MAX);
}

#[test]
fn fixed_local_mode_is_anonymous_without_the_account() {
    let manager = AuthManager::new();
    let mut sessions = SessionStore::new(b"secret".to_vec());
    assert!(resolve_request_identity(
        IdentityProvider::FixedLocalIdentity,
        &manager,
        &mut sessions,
        None
    )
    .is_none());
}

use hmac::{Hmac, KeyInit, Mac};
use ruststream::session::{SessionStore, SESSION_LIFETIME_SECONDS};
use sha2::Sha256;

fn store() -> SessionStore {
    SessionStore::new(b"test-secret-key".to_vec())
}

fn split(token: &str) -> (String, String) {
    let mut parts = token.splitn(2, '.');
    let id = parts.next().unwrap().to_string();
    let sig = parts.next().unwrap().to_string();
    (id, sig)
}

#[test]
fn issued_token_validates_to_issued_identity() {
    let mut s = store();
    let token = s.create_session_at(1, "alice", false, 1000).unwrap();
    let session = s.validate_session_at(&token, 1500).expect("fresh token must validate");
    assert_eq!(session.user_id, 1);
    assert_eq!(session.username, "alice");
    assert!(!session.is_admin);
    assert_eq!(session.expires_at, 1000 + SESSION_LIFETIME_SECONDS);
    let (id, _) = split(&token);
    assert_eq!(session.id, id);
}

#[test]
fn token_has_identifier_and_hex_signature() {
    let mut s = store();
    let token = s.create_session_at(7, "bob", true, 0).unwrap();
    let dots = token.chars().filter(|c| *c == '.').count();
    assert_eq!(dots, 1);
    let (id, sig) = split(&token);
    assert_eq!(id.chars().count(), 36);
    assert_eq!(sig.len(), 64);
    assert!(sig.chars().all(|c| c.is_ascii_hexdigit() && !c.is_ascii_uppercase()));
}

#[test]
fn signature_matches_mac_over_stored_fields() {
    let key = b"test-secret-key";
    let mut s = SessionStore::new(key.to_vec());
    let now = 12345;
    let token = s.create_session_at(9, "carol", true, now).unwrap();
    let (id, sig) = split(&token);
    let message = format!("{}.{}.{}", id, 9, now + SESSION_LIFETIME_SECONDS);
    let mut mac = <Hmac<Sha256> as KeyInit>::new_from_slice(key).unwrap();
    mac.update(message.as_bytes());
    let expected = hex::encode(mac.finalize().into_bytes());
    assert_eq!(sig, expected);
}

#[test]
fn two_sessions_get_distinct_identifiers() {
    let mut s = store();
    let t1 = s.create_session_at(1, "alice", false, 0).unwrap();
    let t2 = s.create_session_at(1, "alice", false, 0).unwrap();
    assert_ne!(split(&t1).0, split(&t2).0);
}

#[test]
fn tampered_signature_is_rejected() {
    let mut s = store();
    let token = s.create_session_at(1, "alice", false, 1000).unwrap();
    let (id, sig) = split(&token);
    for pos in 0..sig.len() {
        let mut chars: Vec<char> = sig.chars().collect();
        chars[pos] = if chars[pos] == '0' { '1' } else { '0' };
        let forged: String = chars.into_iter().collect();
        let forged_token = format!("{}.{}", id, forged);
        if forged_token != token {
            assert!(s.validate_session_at(&forged_token, 1500).is_none());
        }
    }
}

#[test]
fn forged_signature_over_claimed_values_is_rejected() {
    // Signatures are recomputed from the stored row, so a signature an
    // attacker computes over different claimed values never grants access.
    let key = b"test-secret-key";
    let mut s = SessionStore::new(key.to_vec());
    let token = s.create_session_at(1, "alice", false, 1000).unwrap();
    let (id, _) = split(&token);
    // Claim a different account id and a far-future expiry.
    let message = format!("{}.{}.{}", id, 2, i64::MAX);
    let mut mac = <Hmac<Sha256> as KeyInit>::new_from_slice(key).unwrap();
    mac.update(message.as_bytes());
    let forged = format!("{}.{}", id, hex::encode(mac.finalize().into_bytes()));
    assert!(s.validate_session_at(&forged, 1500).is_none());
}

#[test]
fn malformed_tokens_return_none_without_error() {
    let mut s = store();
    s.create_session_at(1, "alice", false, 1000).unwrap();
    assert!(s.validate_session_at("", 1500).is_none());
    assert!(s.validate_session_at("no-dot-here", 1500).is_none());
    assert!(s.validate_session_at("a.b.c", 1500).is_none());
    assert!(s.validate_session_at(".", 1500).is_none());
}

#[test]
fn unknown_identifier_returns_none() {
    let mut s = store();
    s.create_session_at(1, "alice", false, 1000).unwrap();
    assert!(s.validate_session_at("0000-unknown.deadbeef", 1500).is_none());
}

#[test]
fn expired_session_is_rejected_and_evicted() {
    let mut s = store();
    let now = 1000;
    let token = s.create_session_at(1, "alice", false, now).unwrap();
    let after_expiry = now + SESSION_LIFETIME_SECONDS + 1;
    assert!(s.validate_session_at(&token, after_expiry).is_none());
    // The row is gone: even at a time when it would have been valid, the
    // same token now resolves to nothing.
    assert!(s.validate_session_at(&token, now + 1).is_none());
}

#[test]
fn expiry_boundary_is_inclusive() {
    let mut s = store();
    let token = s.create_session_at(1, "alice", false, 1000).unwrap();
    // At exactly the expiry timestamp the session is still valid; one
    // second later it is not.
    let expiry = 1000 + SESSION_LIFETIME_SECONDS;
    assert!(s.validate_session_at(&token, expiry).is_some());
    assert!(s.validate_session_at(&token, expiry + 1).is_none());
}

#[test]
fn deleted_session_no_longer_validates() {
    let mut s = store();
    let token = s.create_session_at(1, "alice", false, 1000).unwrap();
    let session = s.validate_session_at(&token, 1500).unwrap();
    assert_eq!(session.user_id, 1);
    assert_eq!(session.username, "alice");
    assert!(!session.is_admin);
    s.delete_session(&session.id);
    assert!(s.validate_session_at(&token, 1500).is_none());
}

#[test]
fn delete_is_idempotent_and_scoped() {
    let mut s = store();
    let t1 = s.create_session_at(1, "alice", false, 1000).unwrap();
    let t2 = s.create_session_at(2, "bob", true, 1000).unwrap();
    let (id1, _) = split(&t1);
    s.delete_session(&id1);
    s.delete_session(&id1);
    s.delete_session("never-existed");
    assert!(s.validate_session_at(&t1, 1500).is_none());
    let still = s.validate_session_at(&t2, 1500).unwrap();
    assert_eq!(still.user_id, 2);
    assert_eq!(still.username, "bob");
    assert!(still.is_admin);
}

#[test]
fn wall_clock_issuance_validates_now() {
    let mut s = store();
    let token = s.create_session(3, "dora", true).unwrap();
    let session = s.validate_session(&token).expect("a just-issued session is valid");
    assert_eq!(session.user_id, 3);
    assert_eq!(session.username, "dora");
    assert!(session.is_admin);
}

#[test]
fn wrong_key_store_rejects_foreign_token() {
    let mut a = SessionStore::new(b"key-a".to_vec());
    let mut b = SessionStore::new(b"key-b".to_vec());
    let token = a.create_session_at(1, "alice", false, 1000).unwrap();
    // The other store has no such row at all.
    assert!(b.validate_session_at(&token, 1500).is_none());
    let _ = a.validate_session_at(&token, 1500).unwrap();
}

//! Request-identity resolution across the two deployment models.
//!
//! A deployment either trusts browser-held session cookies or runs as a
//! single always-authenticated local identity.  The choice is configuration;
//! the decision it induces on every inbound request is made here, over the
//! session ledger and the account store, so that the web layer only hands in
//! the cookie value and takes back an identity or nothing.

use vstd::prelude::*;

use crate::auth::{AuthManager, has_username, username_index};
use crate::session::{Session, SessionStore, opt_view, session_validated};

verus! {

/// Which identity model a deployment runs with.
#[derive(Debug, Clone, Copy, PartialEq, Eq, Structural)]
pub enum IdentityProvider {
    /// Identities come from signed session cookies, issued at login.
    CookieSession,
    /// One fixed local identity; every request is authenticated as it.
    FixedLocalIdentity,
}

/// Resolves the identity of one inbound request.
///
/// Under [`IdentityProvider::CookieSession`], a present token is validated
/// against the ledger (evicting an expired row as a side effect) and an
/// absent one resolves to nothing.  Under
/// [`IdentityProvider::FixedLocalIdentity`], the token is ignored and the
/// `local` account's identity is returned whenever that account exists.
/// A request that resolves to nothing is anonymous, never an error.
pub fn resolve_request_identity(
    provider: IdentityProvider,
    manager: &AuthManager,
    sessions: &mut SessionStore,
    token: Option<&str>,
) -> (r: Option<Session>)
    requires
        manager.wf(),
        old(sessions).wf(),
    ensures
        final(sessions).wf(),
        match provider {
            IdentityProvider::CookieSession => match token {
                Some(t) => exists|now: int|
                    session_validated(old(sessions)@, final(sessions)@, t@, opt_view(r), now),
                None => r is None && final(sessions)@ == old(sessions)@,
            },
            IdentityProvider::FixedLocalIdentity => {
                &&& final(sessions)@ == old(sessions)@
                &&& match r {
                    Some(s) => {
                        &&& has_username(manager@.accounts, "local"@)
                        &&& s@.user_id == manager@.accounts[username_index(
                            manager@.accounts,
                            "local"@,
                        )].id
                        &&& s@.username == manager@.accounts[username_index(
                            manager@.accounts,
                            "local"@,
                        )].username
                        &&& s@.is_admin == manager@.accounts[username_index(
                            manager@.accounts,
                            "local"@,
                        )].is_admin
                        &&& s@.id == "local"@
                        &&& s@.expires_at == i64::MAX
                    },
                    None => !has_username(manager@.accounts, "local"@),
                }
            },
        },
{
    match provider {
        IdentityProvider::CookieSession => match token {
            Some(t) => sessions.validate_session(t),
            None => None,
        },
        IdentityProvider::FixedLocalIdentity => match manager.get_local_session() {
            Ok(s) => Some(s),
            Err(_) => None,
        },
    }
}

} // verus!

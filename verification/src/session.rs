//! The session ledger.
//!
//! Sessions move through `Issued -> Valid -> {Expired | Revoked}` and never
//! back.  A session token is `sessionIdentifier.signature`, where the
//! signature is a keyed MAC over the identifier and the server-held account
//! id and expiry.  Validation trusts only the signature and the stored row:
//! it recomputes the expected signature from the stored record, never from
//! anything the client claims, evicts expired rows lazily, and treats every
//! failure as an absence of identity.

use vstd::prelude::*;
use vstd::string::*;

use crate::AuthError;
use crate::signing::{compute_signature, lemma_hex_of_no_dot, mac_of, signing_message, spec_signature};

verus! {

/// The fixed session lifetime, in seconds: seven days.
pub const SESSION_LIFETIME_SECONDS: i64 = 604800;

/// The identity resolved from a valid session: the session identifier and
/// the account fields as they were denormalized at issuance time.
#[derive(Debug, Clone)]
pub struct Session {
    pub id: String,
    pub user_id: i64,
    pub username: String,
    pub is_admin: bool,
    pub expires_at: i64,
}

/// Mathematical image of a [`Session`].
pub struct SessionV {
    pub id: Seq<char>,
    pub user_id: int,
    pub username: Seq<char>,
    pub is_admin: bool,
    pub expires_at: int,
}

impl View for Session {
    type V = SessionV;

    open spec fn view(&self) -> SessionV {
        SessionV {
            id: self.id@,
            user_id: self.user_id as int,
            username: self.username@,
            is_admin: self.is_admin,
            expires_at: self.expires_at as int,
        }
    }
}

/// One persistent row of the ledger: the unguessable identifier, the owning
/// account id, the denormalized username and privilege flag, and the
/// absolute expiry timestamp.
#[derive(Debug, Clone)]
pub struct SessionRecord {
    pub session_id: String,
    pub user_id: i64,
    pub username: String,
    pub is_admin: bool,
    pub expires_at: i64,
}

/// Mathematical image of a [`SessionRecord`].
pub struct SessionRecordV {
    pub session_id: Seq<char>,
    pub user_id: int,
    pub username: Seq<char>,
    pub is_admin: bool,
    pub expires_at: int,
}

impl View for SessionRecord {
    type V = SessionRecordV;

    open spec fn view(&self) -> SessionRecordV {
        SessionRecordV {
            session_id: self.session_id@,
            user_id: self.user_id as int,
            username: self.username@,
            is_admin: self.is_admin,
            expires_at: self.expires_at as int,
        }
    }
}

/// The views of a row sequence.
pub open spec fn recs_view(v: Seq<SessionRecord>) -> Seq<SessionRecordV> {
    v.map_values(|r: SessionRecord| r@)
}

/// The ledger of active sessions: the process-wide signing key, fixed at
/// construction, and the stored rows.
pub struct SessionStore {
    secret: Vec<u8>,
    records: Vec<SessionRecord>,
}

/// Mathematical image of a [`SessionStore`].
pub struct SessionStoreV {
    pub key: Seq<u8>,
    pub records: Seq<SessionRecordV>,
}

impl View for SessionStore {
    type V = SessionStoreV;

    closed spec fn view(&self) -> SessionStoreV {
        SessionStoreV { key: self.secret@, records: recs_view(self.records@) }
    }
}

/// A session identifier never contains the separator of the token format.
pub open spec fn id_wf(id: Seq<char>) -> bool {
    forall|i: int| 0 <= i < id.len() ==> id[i] != '.'
}

/// Well-formed rows: separator-free identifiers, no two rows sharing one.
pub open spec fn records_wf(rs: Seq<SessionRecordV>) -> bool {
    &&& forall|i: int| 0 <= i < rs.len() ==> id_wf(#[trigger] rs[i].session_id)
    &&& forall|i: int, j: int|
        0 <= i < j < rs.len() ==> #[trigger] rs[i].session_id != #[trigger] rs[j].session_id
}

impl SessionStore {
    /// The ledger invariant, established by the constructor and preserved by
    /// every operation.
    pub open spec fn wf(&self) -> bool {
        records_wf(self@.records)
    }

    /// A fresh ledger with no sessions, signing with the given key.
    pub fn new(secret_key: Vec<u8>) -> (s: Self)
        ensures
            s@.key == secret_key@,
            s@.records == Seq::<SessionRecordV>::empty(),
            s.wf(),
    {
        let s = SessionStore { secret: secret_key, records: Vec::new() };
        proof {
            assert(s@.records =~= Seq::<SessionRecordV>::empty());
        }
        s
    }
}

/// The token handed to the client for a session identifier and signature.
pub open spec fn spec_token(session_id: Seq<char>, signature: Seq<char>) -> Seq<char> {
    session_id + seq!['.'] + signature
}

/// `d` is the position of the one and only dot of `t`.
pub open spec fn is_sole_dot(t: Seq<char>, d: int) -> bool {
    &&& 0 <= d < t.len()
    &&& t[d] == '.'
    &&& forall|j: int| 0 <= j < t.len() && #[trigger] t[j] == '.' ==> j == d
}

/// A token splits into identifier and signature exactly when it has exactly
/// one dot; any other shape is malformed.
pub open spec fn token_parts(t: Seq<char>) -> Option<(Seq<char>, Seq<char>)> {
    if exists|d: int| is_sole_dot(t, d) {
        let d = choose|d: int| is_sole_dot(t, d);
        Some((t.take(d), t.skip(d + 1)))
    } else {
        None
    }
}

/// Whether some row holds this session identifier.
pub open spec fn has_record(rs: Seq<SessionRecordV>, id: Seq<char>) -> bool {
    exists|i: int| 0 <= i < rs.len() && #[trigger] rs[i].session_id == id
}

/// The index of the row holding this identifier (unique under
/// [`records_wf`]).
pub open spec fn record_index(rs: Seq<SessionRecordV>, id: Seq<char>) -> int {
    choose|i: int| 0 <= i < rs.len() && #[trigger] rs[i].session_id == id
}

/// The identity a row resolves to.
pub open spec fn identity_of(r: SessionRecordV) -> SessionV {
    SessionV {
        id: r.session_id,
        user_id: r.user_id,
        username: r.username,
        is_admin: r.is_admin,
        expires_at: r.expires_at,
    }
}

/// What validating a token against the ledger returns: nothing for a
/// malformed token, an unknown identifier, an expired row, or a signature
/// that differs from the one recomputed out of the stored row; otherwise the
/// stored identity.
pub open spec fn spec_validate(
    key: Seq<u8>,
    rs: Seq<SessionRecordV>,
    token: Seq<char>,
    now: int,
) -> Option<SessionV> {
    match token_parts(token) {
        None => None,
        Some((id, sig)) => {
            if !has_record(rs, id) {
                None
            } else {
                let r = rs[record_index(rs, id)];
                if r.expires_at < now {
                    None
                } else if sig != spec_signature(key, r.session_id, r.user_id, r.expires_at) {
                    None
                } else {
                    Some(identity_of(r))
                }
            }
        },
    }
}

/// The rows left after validating a token: an expired row named by a
/// well-shaped token is evicted, whatever its signature; nothing else
/// changes.
pub open spec fn spec_validate_evicts(
    rs: Seq<SessionRecordV>,
    token: Seq<char>,
    now: int,
) -> Seq<SessionRecordV> {
    match token_parts(token) {
        None => rs,
        Some((id, sig)) => {
            if has_record(rs, id) && rs[record_index(rs, id)].expires_at < now {
                rs.remove(record_index(rs, id))
            } else {
                rs
            }
        },
    }
}

/// The rows left after revoking an identifier: the row holding it is gone;
/// revoking an absent identifier changes nothing and is not an error.
pub open spec fn spec_delete(rs: Seq<SessionRecordV>, id: Seq<char>) -> Seq<SessionRecordV> {
    if has_record(rs, id) {
        rs.remove(record_index(rs, id))
    } else {
        rs
    }
}

/// Characters that can appear in a freshly generated session identifier.
pub open spec fn uuid_char(c: char) -> bool {
    c == '-' || ('0' <= c && c <= '9') || ('a' <= c && c <= 'f')
}

/// Relies on `uuid::Uuid::new_v4` and its `Display` form: 36 characters,
/// lowercase hexadecimal digits and hyphens.  Nothing is assumed about
/// which identifier comes out.
#[verifier::external_body]
fn fresh_session_id() -> (r: String)
    ensures
        r@.len() == 36,
        forall|i: int| 0 <= i < r@.len() ==> uuid_char(#[trigger] r@[i]),
{
    uuid::Uuid::new_v4().to_string()
}

/// Relies on `chrono::Utc::now`: the current wall-clock time as whole
/// seconds since the epoch.  Nothing is assumed about the value.
#[verifier::external_body]
pub(crate) fn current_timestamp() -> i64 {
    chrono::Utc::now().timestamp()
}

/// How issuing a session at time `now` changes the ledger: one new row with
/// the given account fields and expiry `now` plus the fixed lifetime, under
/// a fresh separator-free identifier, and a token binding that identifier to
/// the signature over the stored fields.
pub open spec fn session_created(
    pre: SessionStoreV,
    post: SessionStoreV,
    token: Seq<char>,
    user_id: int,
    username: Seq<char>,
    is_admin: bool,
    now: int,
) -> bool {
    &&& post.key == pre.key
    &&& post.records.len() == pre.records.len() + 1
    &&& post.records.take(pre.records.len() as int) == pre.records
    &&& post.records.last().user_id == user_id
    &&& post.records.last().username == username
    &&& post.records.last().is_admin == is_admin
    &&& post.records.last().expires_at == now + SESSION_LIFETIME_SECONDS
    &&& id_wf(post.records.last().session_id)
    &&& post.records.last().session_id.len() == 36
    &&& forall|i: int|
        0 <= i < post.records.last().session_id.len() ==> uuid_char(
            #[trigger] post.records.last().session_id[i],
        )
    &&& !has_record(pre.records, post.records.last().session_id)
    &&& token == spec_token(
        post.records.last().session_id,
        spec_signature(
            pre.key,
            post.records.last().session_id,
            user_id,
            now + SESSION_LIFETIME_SECONDS,
        ),
    )
}

impl SessionStore {
    /// Whether a row with this identifier is stored.
    fn contains_id(&self, id: &String) -> (r: bool)
        ensures
            r == has_record(self@.records, id@),
    {
        let n = self.records.len();
        let mut i: usize = 0;
        while i < n
            invariant
                i <= n,
                n == self@.records.len(),
                forall|k: int| 0 <= k < i ==> #[trigger] self@.records[k].session_id != id@,
            decreases n - i,
        {
            if self.records[i].session_id == *id {
                assert(self@.records[i as int].session_id == id@);
                return true;
            }
            i += 1;
        }
        false
    }

    /// Issues a session at the given time: stores a row under a fresh random
    /// identifier and returns `identifier.signature`.  The only failure is a
    /// collision of the random identifier with a stored one.
    pub fn create_session_at(
        &mut self,
        user_id: i64,
        username: &str,
        is_admin: bool,
        now: i64,
    ) -> (r: Result<String, AuthError>)
        requires
            old(self).wf(),
            now + SESSION_LIFETIME_SECONDS <= i64::MAX,
        ensures
            final(self).wf(),
            match r {
                Ok(token) => session_created(
                    old(self)@,
                    final(self)@,
                    token@,
                    user_id as int,
                    username@,
                    is_admin,
                    now as int,
                ),
                Err(e) => {
                    &&& final(self)@ == old(self)@
                    &&& e == AuthError::SessionIdCollision
                    &&& old(self)@.records.len() > 0
                },
            },
    {
        let id = fresh_session_id();
        if self.contains_id(&id) {
            proof {
                let k = record_index(self@.records, id@);
                assert(0 <= k < self@.records.len());
            }
            return Err(AuthError::SessionIdCollision);
        }
        proof {
            assert(id_wf(id@)) by {
                assert forall|i: int| 0 <= i < id@.len() implies id@[i] != '.' by {
                    assert(uuid_char(id@[i]));
                }
            }
        }
        let expires_at = now + SESSION_LIFETIME_SECONDS;
        let signature = compute_signature(self.secret.as_slice(), id.as_str(), user_id, expires_at);
        let record = SessionRecord {
            session_id: id.clone(),
            user_id,
            username: username.to_owned(),
            is_admin,
            expires_at,
        };
        let ghost pre = self@;
        self.records.push(record);
        proof {
            assert(self@.records =~= pre.records.push(record@));
            assert(self@.records.take(pre.records.len() as int) =~= pre.records);
            assert forall|i: int, j: int| 0 <= i < j < self@.records.len() implies #[trigger] self@
                .records[i].session_id != #[trigger] self@.records[j].session_id by {
                if j < pre.records.len() {
                    assert(pre.records[i].session_id != pre.records[j].session_id);
                } else {
                    assert(self@.records[j].session_id == id@);
                    assert(!has_record(pre.records, id@));
                    assert(self@.records[i] == pre.records[i]);
                }
            }
        }
        let mut token = id;
        proof {
            reveal_strlit(".");
        }
        token.append(".");
        token.append(signature.as_str());
        proof {
            assert(token@ =~= spec_token(
                self@.records.last().session_id,
                spec_signature(
                    pre.key,
                    self@.records.last().session_id,
                    user_id as int,
                    now + SESSION_LIFETIME_SECONDS,
                ),
            ));
        }
        Ok(token)
    }

    /// The index of the row holding this identifier, if any.
    fn find_id(&self, id: &String) -> (r: Option<usize>)
        requires
            self.wf(),
        ensures
            match r {
                Some(j) => {
                    &&& j < self@.records.len()
                    &&& self@.records[j as int].session_id == id@
                    &&& has_record(self@.records, id@)
                    &&& record_index(self@.records, id@) == j
                },
                None => !has_record(self@.records, id@),
            },
    {
        let n = self.records.len();
        let mut i: usize = 0;
        while i < n
            invariant
                i <= n,
                n == self@.records.len(),
                records_wf(self@.records),
                forall|k: int| 0 <= k < i ==> #[trigger] self@.records[k].session_id != id@,
            decreases n - i,
        {
            if self.records[i].session_id == *id {
                proof {
                    assert(self@.records[i as int].session_id == id@);
                    let k = record_index(self@.records, id@);
                    if k != i {
                        if k < i {
                            assert(self@.records[k].session_id != self@.records[
                                i as int
                            ].session_id);
                        } else {
                            assert(self@.records[i as int].session_id != self@.records[
                                k
                            ].session_id);
                        }
                    }
                }
                return Some(i);
            }
            i += 1;
        }
        None
    }

    /// Issues a session expiring the fixed lifetime after the current wall
    /// clock.  Fails only on an identifier collision or a clock value too
    /// large for the expiry computation.
    pub fn create_session(&mut self, user_id: i64, username: &str, is_admin: bool) -> (r: Result<
        String,
        AuthError,
    >)
        requires
            old(self).wf(),
        ensures
            final(self).wf(),
            match r {
                Ok(token) => exists|now: int|
                    session_created(
                        old(self)@,
                        final(self)@,
                        token@,
                        user_id as int,
                        username@,
                        is_admin,
                        now,
                    ),
                Err(e) => {
                    &&& final(self)@ == old(self)@
                    &&& (e == AuthError::SessionIdCollision || e == AuthError::ClockOutOfRange)
                    &&& (e == AuthError::SessionIdCollision ==> old(self)@.records.len() > 0)
                },
            },
    {
        let now = current_timestamp();
        if now > i64::MAX - SESSION_LIFETIME_SECONDS {
            return Err(AuthError::ClockOutOfRange);
        }
        let r = self.create_session_at(user_id, username, is_admin, now);
        proof {
            if r is Ok {
                assert(session_created(
                    old(self)@,
                    self@,
                    r->Ok_0@,
                    user_id as int,
                    username@,
                    is_admin,
                    now as int,
                ));
            }
        }
        r
    }
}

/// The view of an optional identity.
pub open spec fn opt_view(r: Option<Session>) -> Option<SessionV> {
    match r {
        Some(s) => Some(s@),
        None => None,
    }
}

/// How validating a token at time `now` relates the result and the ledger
/// before and after: the result is exactly [`spec_validate`], and the rows
/// change exactly by [`spec_validate_evicts`].
pub open spec fn session_validated(
    pre: SessionStoreV,
    post: SessionStoreV,
    token: Seq<char>,
    result: Option<SessionV>,
    now: int,
) -> bool {
    &&& post.key == pre.key
    &&& post.records == spec_validate_evicts(pre.records, token, now)
    &&& result == spec_validate(pre.key, pre.records, token, now)
}

/// Splits a token at its sole dot; any other number of dots is a malformed
/// token.
fn split_token(token: &str) -> (r: Option<(String, String)>)
    ensures
        match r {
            Some(parts) => token_parts(token@) == Some((parts.0@, parts.1@)),
            None => token_parts(token@) is None,
        },
{
    let n = token.unicode_len();
    let mut i: usize = 0;
    let mut dot: usize = 0;
    let mut found = false;
    while i < n
        invariant
            i <= n,
            n == token@.len(),
            found ==> dot < i && token@[dot as int] == '.',
            forall|j: int|
                0 <= j < i && #[trigger] token@[j] == '.' ==> found && j == dot as int,
        decreases n - i,
    {
        let c = token.get_char(i);
        if c == '.' {
            if found {
                proof {
                    assert forall|d: int| !is_sole_dot(token@, d) by {
                        if is_sole_dot(token@, d) {
                            assert(token@[dot as int] == '.');
                            assert(token@[i as int] == '.');
                        }
                    }
                }
                return None;
            }
            dot = i;
            found = true;
        }
        i += 1;
    }
    if !found {
        proof {
            assert forall|d: int| !is_sole_dot(token@, d) by {
                if is_sole_dot(token@, d) {
                    assert(token@[d] == '.');
                }
            }
        }
        return None;
    }
    proof {
        assert(is_sole_dot(token@, dot as int));
        let d2 = choose|d: int| is_sole_dot(token@, d);
        assert(token@[d2] == '.');
        assert(d2 == dot as int);
    }
    let id = token.substring_char(0, dot).to_owned();
    let sig = token.substring_char(dot + 1, n).to_owned();
    proof {
        assert(id@ =~= token@.take(dot as int));
        assert(sig@ =~= token@.skip(dot as int + 1));
    }
    Some((id, sig))
}

/// Removing a row commutes with taking views.
proof fn lemma_recs_view_remove(v: Seq<SessionRecord>, j: int)
    requires
        0 <= j < v.len(),
    ensures
        recs_view(v.remove(j)) =~= recs_view(v).remove(j),
{
}

/// Removing a row keeps the rows well formed.
proof fn lemma_records_wf_remove(rs: Seq<SessionRecordV>, j: int)
    requires
        records_wf(rs),
        0 <= j < rs.len(),
    ensures
        records_wf(rs.remove(j)),
{
    let post = rs.remove(j);
    assert forall|a: int, b: int| 0 <= a < b < post.len() implies #[trigger] post[a].session_id
        != #[trigger] post[b].session_id by {
        let a0 = if a < j {
            a
        } else {
            a + 1
        };
        let b0 = if b < j {
            b
        } else {
            b + 1
        };
        assert(post[a] == rs[a0]);
        assert(post[b] == rs[b0]);
        assert(rs[a0].session_id != rs[b0].session_id);
    }
}

impl SessionStore {
    /// Validates a token against the ledger at the given time.  Returns the
    /// stored identity when the token is well shaped, its identifier is
    /// stored, the row is unexpired and the signature matches the one
    /// recomputed from the stored row; returns nothing otherwise, evicting
    /// an expired row as a side effect.
    pub fn validate_session_at(&mut self, session_token: &str, now: i64) -> (r: Option<Session>)
        requires
            old(self).wf(),
        ensures
            final(self).wf(),
            session_validated(old(self)@, final(self)@, session_token@, opt_view(r), now as int),
    {
        let parts = split_token(session_token);
        let (id, sig) = match parts {
            None => {
                return None;
            },
            Some(p) => p,
        };
        let j = match self.find_id(&id) {
            None => {
                return None;
            },
            Some(j) => j,
        };
        if self.records[j].expires_at < now {
            let ghost pre = self@;
            self.records.remove(j);
            proof {
                lemma_recs_view_remove(old(self).records@, j as int);
                lemma_records_wf_remove(pre.records, j as int);
                assert(self@.records =~= spec_validate_evicts(
                    pre.records,
                    session_token@,
                    now as int,
                ));
            }
            return None;
        }
        let expected = compute_signature(
            self.secret.as_slice(),
            self.records[j].session_id.as_str(),
            self.records[j].user_id,
            self.records[j].expires_at,
        );
        if expected == sig {
            let rec = &self.records[j];
            let s = Session {
                id: rec.session_id.clone(),
                user_id: rec.user_id,
                username: rec.username.clone(),
                is_admin: rec.is_admin,
                expires_at: rec.expires_at,
            };
            proof {
                assert(s@ == identity_of(self@.records[j as int]));
            }
            Some(s)
        } else {
            None
        }
    }

    /// Validates a token at the current wall clock.
    pub fn validate_session(&mut self, session_token: &str) -> (r: Option<Session>)
        requires
            old(self).wf(),
        ensures
            final(self).wf(),
            exists|now: int|
                session_validated(old(self)@, final(self)@, session_token@, opt_view(r), now),
    {
        let now = current_timestamp();
        let r = self.validate_session_at(session_token, now);
        proof {
            assert(session_validated(old(self)@, self@, session_token@, opt_view(r), now as int));
        }
        r
    }

    /// Revokes a session by its identifier: the row is removed if present;
    /// revoking an absent identifier is not an error.
    pub fn delete_session(&mut self, session_id: &str)
        requires
            old(self).wf(),
        ensures
            final(self).wf(),
            final(self)@.key == old(self)@.key,
            final(self)@.records == spec_delete(old(self)@.records, session_id@),
    {
        let id = session_id.to_owned();
        match self.find_id(&id) {
            None => {},
            Some(j) => {
                let ghost pre = self@;
                self.records.remove(j);
                proof {
                    lemma_recs_view_remove(old(self).records@, j as int);
                    lemma_records_wf_remove(pre.records, j as int);
                    assert(self@.records =~= spec_delete(pre.records, session_id@));
                }
            },
        }
    }
}

/// The token that issuance hands out for a stored row: the row's identifier
/// joined to the signature over the row's own fields.
pub open spec fn issued_token(key: Seq<u8>, r: SessionRecordV) -> Seq<char> {
    spec_token(r.session_id, spec_signature(key, r.session_id, r.user_id, r.expires_at))
}

/// A token made of a separator-free identifier and a separator-free
/// signature parses back into exactly those two halves.
pub proof fn lemma_token_parts_of_spec_token(id: Seq<char>, sig: Seq<char>)
    requires
        id_wf(id),
        forall|i: int| 0 <= i < sig.len() ==> sig[i] != '.',
    ensures
        token_parts(spec_token(id, sig)) == Some((id, sig)),
{
    let t = spec_token(id, sig);
    let d = id.len() as int;
    assert(t[d] == '.');
    assert forall|j: int| 0 <= j < t.len() && #[trigger] t[j] == '.' implies j == d by {
        if j < d {
            assert(t[j] == id[j]);
        } else if j > d {
            assert(t[j] == sig[j - d - 1]);
        }
    }
    assert(is_sole_dot(t, d));
    let d2 = choose|k: int| is_sole_dot(t, k);
    assert(t[d2] == '.');
    assert(d2 == d);
    assert(t.take(d) =~= id);
    assert(t.skip(d + 1) =~= sig);
}

/// Immediately after issuance -- and indeed any time up to the expiry -- the
/// issued token resolves to exactly the identity that was issued, with the
/// account id, username and privilege flag of the stored row, and validation
/// leaves the ledger unchanged.
pub proof fn lemma_issue_then_validate(key: Seq<u8>, rs: Seq<SessionRecordV>, i: int, now: int)
    requires
        records_wf(rs),
        0 <= i < rs.len(),
        now <= rs[i].expires_at,
    ensures
        spec_validate(key, rs, issued_token(key, rs[i]), now) == Some(identity_of(rs[i])),
        spec_validate_evicts(rs, issued_token(key, rs[i]), now) == rs,
{
    let id = rs[i].session_id;
    let sig = spec_signature(key, id, rs[i].user_id, rs[i].expires_at);
    lemma_hex_of_no_dot(mac_of(key, signing_message(id, rs[i].user_id, rs[i].expires_at)));
    lemma_token_parts_of_spec_token(id, sig);
    assert(has_record(rs, id));
    let k = record_index(rs, id);
    assert(rs[k].session_id == id);
    if k != i {
        if k < i {
            assert(rs[k].session_id != rs[i].session_id);
        } else {
            assert(rs[i].session_id != rs[k].session_id);
        }
    }
}

/// Changing any character of the signature half of an issued token -- while
/// keeping the identifier half and the dot -- makes validation return
/// nothing, at any time.
pub proof fn lemma_tampered_signature_rejected(
    key: Seq<u8>,
    rs: Seq<SessionRecordV>,
    i: int,
    now: int,
    t2: Seq<char>,
)
    requires
        records_wf(rs),
        0 <= i < rs.len(),
        t2.len() == issued_token(key, rs[i]).len(),
        forall|j: int|
            0 <= j <= rs[i].session_id.len() ==> t2[j] == issued_token(key, rs[i])[j],
        exists|j: int|
            rs[i].session_id.len() < j < t2.len() && t2[j] != issued_token(key, rs[i])[j],
    ensures
        spec_validate(key, rs, t2, now) is None,
{
    let t = issued_token(key, rs[i]);
    let id = rs[i].session_id;
    let sig = spec_signature(key, id, rs[i].user_id, rs[i].expires_at);
    let d = id.len() as int;
    lemma_hex_of_no_dot(mac_of(key, signing_message(id, rs[i].user_id, rs[i].expires_at)));
    assert(t[d] == '.');
    assert(t2[d] == '.');
    if exists|k: int| d < k < t2.len() && #[trigger] t2[k] == '.' {
        let k = choose|k: int| d < k < t2.len() && #[trigger] t2[k] == '.';
        assert forall|m: int| !is_sole_dot(t2, m) by {
            if is_sole_dot(t2, m) {
                assert(t2[d] == '.');
                assert(t2[k] == '.');
            }
        }
        assert(token_parts(t2) is None);
    } else {
        assert forall|j: int| 0 <= j < t2.len() && #[trigger] t2[j] == '.' implies j == d by {
            if j < d {
                assert(t2[j] == t[j]);
                assert(t[j] == id[j]);
            }
        }
        assert(is_sole_dot(t2, d));
        let d2 = choose|k: int| is_sole_dot(t2, k);
        assert(t2[d2] == '.');
        assert(d2 == d);
        let id2 = t2.take(d);
        let sig2 = t2.skip(d + 1);
        assert forall|j: int| 0 <= j < d implies id2[j] == id[j] by {
            assert(t2[j] == t[j]);
            assert(t[j] == id[j]);
        }
        assert(id2 =~= id);
        let j0 = choose|j: int| d < j < t2.len() && t2[j] != t[j];
        assert(t[j0] == sig[j0 - d - 1]);
        assert(sig2[j0 - d - 1] != sig[j0 - d - 1]);
        assert(sig2 != sig);
        if has_record(rs, id) {
            let k = record_index(rs, id);
            assert(rs[k].session_id == id);
            if k != i {
                if k < i {
                    assert(rs[k].session_id != rs[i].session_id);
                } else {
                    assert(rs[i].session_id != rs[k].session_id);
                }
            }
        }
    }
}

/// A token resolves only through the stored row: when validation returns an
/// identity, it is the one denormalized in the row that holds the token's
/// identifier, the row is unexpired, and the token's signature half equals
/// the signature recomputed from the row's own account id and expiry --
/// never from anything the token itself claims.
pub proof fn lemma_validate_trusts_store(
    key: Seq<u8>,
    rs: Seq<SessionRecordV>,
    token: Seq<char>,
    now: int,
)
    requires
        records_wf(rs),
        spec_validate(key, rs, token, now) is Some,
    ensures
        token_parts(token) is Some,
        has_record(rs, token_parts(token)->Some_0.0),
        ({
            let r = rs[record_index(rs, token_parts(token)->Some_0.0)];
            &&& spec_validate(key, rs, token, now) == Some(identity_of(r))
            &&& token_parts(token)->Some_0.1 == spec_signature(
                key,
                r.session_id,
                r.user_id,
                r.expires_at,
            )
            &&& now <= r.expires_at
        }),
{
}

/// Revocation is idempotent: deleting an identifier twice leaves exactly
/// what deleting it once leaves, and afterwards no row holds the
/// identifier.
pub proof fn lemma_delete_idempotent(rs: Seq<SessionRecordV>, id: Seq<char>)
    requires
        records_wf(rs),
    ensures
        !has_record(spec_delete(rs, id), id),
        spec_delete(spec_delete(rs, id), id) == spec_delete(rs, id),
{
    if has_record(rs, id) {
        let k = record_index(rs, id);
        assert(0 <= k < rs.len());
        let post = rs.remove(k);
        assert forall|m: int| !(0 <= m < post.len() && #[trigger] post[m].session_id == id) by {
            if 0 <= m < post.len() && post[m].session_id == id {
                let m0 = if m < k {
                    m
                } else {
                    m + 1
                };
                assert(post[m] == rs[m0]);
                if m0 < k {
                    assert(rs[m0].session_id != rs[k].session_id);
                } else {
                    assert(rs[k].session_id != rs[m0].session_id);
                }
            }
        }
        assert(!has_record(post, id));
    }
}

/// A signature computed over claimed account or expiry values other than
/// the stored ones never grants access, at any time: validation compares
/// against the signature recomputed from the stored row alone.  The
/// hypothesis that the forged signature differs from the stored-field one is
/// the property's own condition ("unless the forged signature also
/// matches"); whether two MAC computations collide is not this crate's to
/// decide.
pub proof fn lemma_forged_claims_rejected(
    key: Seq<u8>,
    rs: Seq<SessionRecordV>,
    i: int,
    now: int,
    claimed_user_id: int,
    claimed_expires_at: int,
)
    requires
        records_wf(rs),
        0 <= i < rs.len(),
        spec_signature(key, rs[i].session_id, claimed_user_id, claimed_expires_at)
            != spec_signature(key, rs[i].session_id, rs[i].user_id, rs[i].expires_at),
    ensures
        spec_validate(
            key,
            rs,
            spec_token(
                rs[i].session_id,
                spec_signature(key, rs[i].session_id, claimed_user_id, claimed_expires_at),
            ),
            now,
        ) is None,
{
    let id = rs[i].session_id;
    let sig2 = spec_signature(key, id, claimed_user_id, claimed_expires_at);
    lemma_hex_of_no_dot(mac_of(key, signing_message(id, claimed_user_id, claimed_expires_at)));
    lemma_token_parts_of_spec_token(id, sig2);
    assert(has_record(rs, id));
    let k = record_index(rs, id);
    assert(rs[k].session_id == id);
    if k != i {
        if k < i {
            assert(rs[k].session_id != rs[i].session_id);
        } else {
            assert(rs[i].session_id != rs[k].session_id);
        }
    }
}

/// An expired row is evicted by any well-shaped token naming it, whatever
/// the signature half holds, and the identifier then stays invalid at any
/// later time.  (A signature half holding a dot would make the token
/// malformed, and a malformed token touches nothing.)
pub proof fn lemma_expired_evicted_any_signature(
    key: Seq<u8>,
    rs: Seq<SessionRecordV>,
    i: int,
    now: int,
    later: int,
    sig: Seq<char>,
)
    requires
        records_wf(rs),
        0 <= i < rs.len(),
        rs[i].expires_at < now,
        forall|j: int| 0 <= j < sig.len() ==> sig[j] != '.',
    ensures
        spec_validate(key, rs, spec_token(rs[i].session_id, sig), now) is None,
        !has_record(
            spec_validate_evicts(rs, spec_token(rs[i].session_id, sig), now),
            rs[i].session_id,
        ),
        spec_validate(
            key,
            spec_validate_evicts(rs, spec_token(rs[i].session_id, sig), now),
            spec_token(rs[i].session_id, sig),
            later,
        ) is None,
{
    let id = rs[i].session_id;
    let t = spec_token(id, sig);
    lemma_token_parts_of_spec_token(id, sig);
    assert(has_record(rs, id));
    let k = record_index(rs, id);
    assert(rs[k].session_id == id);
    if k != i {
        if k < i {
            assert(rs[k].session_id != rs[i].session_id);
        } else {
            assert(rs[i].session_id != rs[k].session_id);
        }
    }
    lemma_expired_session_evicted(key, rs, t, now, later);
}

/// A well-shaped token naming an expired row returns nothing and evicts the
/// row, and once the row is gone the same identifier keeps returning
/// nothing, at any later time.
pub proof fn lemma_expired_session_evicted(
    key: Seq<u8>,
    rs: Seq<SessionRecordV>,
    token: Seq<char>,
    now: int,
    later: int,
)
    requires
        records_wf(rs),
        token_parts(token) is Some,
        has_record(rs, token_parts(token)->Some_0.0),
        rs[record_index(rs, token_parts(token)->Some_0.0)].expires_at < now,
    ensures
        spec_validate(key, rs, token, now) is None,
        !has_record(spec_validate_evicts(rs, token, now), token_parts(token)->Some_0.0),
        spec_validate(key, spec_validate_evicts(rs, token, now), token, later) is None,
{
    let id = token_parts(token)->Some_0.0;
    let k = record_index(rs, id);
    assert(0 <= k < rs.len());
    let post = rs.remove(k);
    assert(spec_validate_evicts(rs, token, now) == post);
    assert forall|m: int| !(0 <= m < post.len() && #[trigger] post[m].session_id == id) by {
        if 0 <= m < post.len() && post[m].session_id == id {
            let m0 = if m < k {
                m
            } else {
                m + 1
            };
            assert(post[m] == rs[m0]);
            assert(rs[m0].session_id == id);
            if m0 < k {
                assert(rs[m0].session_id != rs[k].session_id);
            } else {
                assert(rs[k].session_id != rs[m0].session_id);
            }
        }
    }
    assert(!has_record(post, id));
}

} // verus!


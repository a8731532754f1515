//! Accounts and the watch-history store.
//!
//! [`AuthManager`] owns the account table and the watch-history table and
//! presents the operations the web layer consumes: establish the single
//! local account, resolve it, authenticate a credential pair, and record,
//! list, update, remove and clear watch history.  Session issuance and
//! validation live in [`crate::session`].

use vstd::prelude::*;
use vstd::string::*;

use crate::AuthError;
use crate::credentials::{bcrypt_matches, hash_password, verify_password};
use crate::history::{
    EventV, LOCATOR_SENTINEL, WatchHistoryItem, WatchHistoryItemV, event_key, event_view,
    entry_exists, entry_index, has_key, history_listing, history_wf, items_view, key_index,
    key_of,
    lemma_history_wf_remove, lemma_record_event_wf, lemma_spec_clear_wf,
    lemma_update_progress_in_place, lookup_key, opt_str_view, sort_items_by_recency,
    sorted_by_recency, spec_clear, spec_new_row, spec_progressed, spec_record_event,
    spec_record_event_next, spec_refreshed, spec_remove_entry, spec_update_progress,
    spec_user_rows,
};
use crate::session::Session;

verus! {

/// One account: numeric id, unique username, password digest, privilege
/// flag.
#[derive(Debug)]
pub struct Account {
    pub id: i64,
    pub username: String,
    pub password_hash: String,
    pub is_admin: bool,
}

/// Mathematical image of an [`Account`].
pub struct AccountV {
    pub id: int,
    pub username: Seq<char>,
    pub password_hash: Seq<char>,
    pub is_admin: bool,
}

impl View for Account {
    type V = AccountV;

    open spec fn view(&self) -> AccountV {
        AccountV {
            id: self.id as int,
            username: self.username@,
            password_hash: self.password_hash@,
            is_admin: self.is_admin,
        }
    }
}

/// The views of an account sequence.
pub open spec fn accs_view(v: Seq<Account>) -> Seq<AccountV> {
    v.map_values(|a: Account| a@)
}

/// Whether some account carries this username.
pub open spec fn has_username(accs: Seq<AccountV>, name: Seq<char>) -> bool {
    exists|i: int| 0 <= i < accs.len() && #[trigger] accs[i].username == name
}

/// The index of the account carrying this username (unique under
/// [`accounts_wf`]).
pub open spec fn username_index(accs: Seq<AccountV>, name: Seq<char>) -> int {
    choose|i: int| 0 <= i < accs.len() && #[trigger] accs[i].username == name
}

/// Well-formed accounts: unique usernames, unique ids, every id below the
/// next free one.
pub open spec fn accounts_wf(accs: Seq<AccountV>, next_id: int) -> bool {
    &&& forall|i: int, j: int|
        0 <= i < j < accs.len() ==> #[trigger] accs[i].username != #[trigger] accs[j].username
    &&& forall|i: int, j: int|
        0 <= i < j < accs.len() ==> #[trigger] accs[i].id != #[trigger] accs[j].id
    &&& forall|i: int| 0 <= i < accs.len() ==> #[trigger] accs[i].id < next_id
}

/// The account and watch-history store.
pub struct AuthManager {
    accounts: Vec<Account>,
    next_account_id: i64,
    history: Vec<WatchHistoryItem>,
    next_history_id: i64,
}

/// Mathematical image of an [`AuthManager`].
pub struct AuthManagerV {
    pub accounts: Seq<AccountV>,
    pub next_account_id: int,
    pub history: Seq<WatchHistoryItemV>,
    pub next_history_id: int,
}

impl View for AuthManager {
    type V = AuthManagerV;

    closed spec fn view(&self) -> AuthManagerV {
        AuthManagerV {
            accounts: accs_view(self.accounts@),
            next_account_id: self.next_account_id as int,
            history: items_view(self.history@),
            next_history_id: self.next_history_id as int,
        }
    }
}

/// How establishing the local account changes the store: nothing when it
/// already exists, else one new unprivileged account named `local` under the
/// next free id, whose digest verifies against the password `local`.
pub open spec fn local_user_ready(pre: AuthManagerV, post: AuthManagerV) -> bool {
    &&& post.history == pre.history
    &&& post.next_history_id == pre.next_history_id
    &&& if has_username(pre.accounts, "local"@) {
        post == pre
    } else {
        &&& post.accounts.len() == pre.accounts.len() + 1
        &&& post.accounts.take(pre.accounts.len() as int) == pre.accounts
        &&& post.accounts.last().username == "local"@
        &&& post.accounts.last().id == pre.next_account_id
        &&& post.accounts.last().is_admin == false
        &&& bcrypt_matches("local"@, post.accounts.last().password_hash)
        &&& post.next_account_id == pre.next_account_id + 1
    }
}

impl AuthManager {
    /// The store invariant, established by the constructor and preserved by
    /// every operation.
    pub open spec fn wf(&self) -> bool {
        &&& accounts_wf(self@.accounts, self@.next_account_id)
        &&& history_wf(self@.history, self@.next_history_id)
    }

    /// A fresh store with no accounts and no history.
    pub fn new() -> (m: Self)
        ensures
            m.wf(),
            m@.accounts == Seq::<AccountV>::empty(),
            m@.history == Seq::<WatchHistoryItemV>::empty(),
            m@.next_account_id == 1,
            m@.next_history_id == 1,
    {
        let m = AuthManager {
            accounts: Vec::new(),
            next_account_id: 1,
            history: Vec::new(),
            next_history_id: 1,
        };
        proof {
            assert(m@.accounts =~= Seq::<AccountV>::empty());
            assert(m@.history =~= Seq::<WatchHistoryItemV>::empty());
        }
        m
    }

    /// The index of the account carrying this username, if any.
    fn find_username(&self, name: &String) -> (r: Option<usize>)
        requires
            self.wf(),
        ensures
            match r {
                Some(j) => {
                    &&& j < self@.accounts.len()
                    &&& self@.accounts[j as int].username == name@
                    &&& has_username(self@.accounts, name@)
                    &&& username_index(self@.accounts, name@) == j
                },
                None => !has_username(self@.accounts, name@),
            },
    {
        let n = self.accounts.len();
        let mut i: usize = 0;
        while i < n
            invariant
                i <= n,
                n == self@.accounts.len(),
                accounts_wf(self@.accounts, self@.next_account_id),
                forall|k: int| 0 <= k < i ==> #[trigger] self@.accounts[k].username != name@,
            decreases n - i,
        {
            if self.accounts[i].username == *name {
                proof {
                    assert(self@.accounts[i as int].username == name@);
                    let k = username_index(self@.accounts, name@);
                    if k != i {
                        if k < i {
                            assert(self@.accounts[k].username != self@.accounts[
                                i as int
                            ].username);
                        } else {
                            assert(self@.accounts[i as int].username != self@.accounts[
                                k
                            ].username);
                        }
                    }
                }
                return Some(i);
            }
            i += 1;
        }
        None
    }

    /// Creates the single unprivileged `local` account if it does not exist
    /// yet.  Fails only when the password-hashing backend does.
    pub fn init_local_user(&mut self) -> (r: Result<(), AuthError>)
        requires
            old(self).wf(),
        ensures
            final(self).wf(),
            match r {
                Ok(u) => local_user_ready(old(self)@, final(self)@),
                Err(e) => {
                    &&& final(self)@ == old(self)@
                    &&& !has_username(old(self)@.accounts, "local"@)
                    &&& (if e == AuthError::StoreFull {
                        old(self)@.next_account_id == i64::MAX
                    } else {
                        e == AuthError::HashingFailed && old(self)@.next_account_id < i64::MAX
                    })
                },
            },
    {
        let name: String = "local".to_owned();
        if self.find_username(&name).is_some() {
            return Ok(());
        }
        if self.next_account_id == i64::MAX {
            return Err(AuthError::StoreFull);
        }
        let digest = match hash_password("local") {
            Ok(d) => d,
            Err(e) => {
                return Err(e);
            },
        };
        let ghost pre = self@;
        let id = self.next_account_id;
        self.accounts.push(
            Account { id, username: name, password_hash: digest, is_admin: false },
        );
        self.next_account_id = id + 1;
        proof {
            assert(self@.accounts =~= pre.accounts.push(
                AccountV {
                    id: id as int,
                    username: "local"@,
                    password_hash: digest@,
                    is_admin: false,
                },
            ));
            assert(self@.accounts.take(pre.accounts.len() as int) =~= pre.accounts);
            assert forall|a: int, b: int| 0 <= a < b < self@.accounts.len() implies #[trigger] self@
                .accounts[a].username != #[trigger] self@.accounts[b].username by {
                if b == pre.accounts.len() {
                    assert(!has_username(pre.accounts, "local"@));
                    assert(self@.accounts[a] == pre.accounts[a]);
                } else {
                    assert(pre.accounts[a].username != pre.accounts[b].username);
                }
            }
            assert forall|a: int, b: int| 0 <= a < b < self@.accounts.len() implies #[trigger] self@
                .accounts[a].id != #[trigger] self@.accounts[b].id by {
                if b == pre.accounts.len() {
                    assert(pre.accounts[a].id < pre.next_account_id);
                } else {
                    assert(pre.accounts[a].id != pre.accounts[b].id);
                }
            }
        }
        Ok(())
    }

    /// Resolves the always-authenticated local identity: the `local`
    /// account's id, name and privilege flag under the fixed identifier
    /// `local`, never expiring.
    pub fn get_local_session(&self) -> (r: Result<Session, AuthError>)
        requires
            self.wf(),
        ensures
            match r {
                Ok(s) => {
                    &&& has_username(self@.accounts, "local"@)
                    &&& s@.user_id == self@.accounts[username_index(
                        self@.accounts,
                        "local"@,
                    )].id
                    &&& s@.username == self@.accounts[username_index(
                        self@.accounts,
                        "local"@,
                    )].username
                    &&& s@.is_admin == self@.accounts[username_index(
                        self@.accounts,
                        "local"@,
                    )].is_admin
                    &&& s@.id == "local"@
                    &&& s@.expires_at == i64::MAX
                },
                Err(e) => !has_username(self@.accounts, "local"@) && e
                    == AuthError::LocalUserMissing,
            },
    {
        let name: String = "local".to_owned();
        match self.find_username(&name) {
            None => Err(AuthError::LocalUserMissing),
            Some(j) => {
                let acc = &self.accounts[j];
                Ok(
                    Session {
                        id: name,
                        user_id: acc.id,
                        username: acc.username.clone(),
                        is_admin: acc.is_admin,
                        expires_at: i64::MAX,
                    },
                )
            },
        }
    }

    /// Verifies a credential pair with no session side effects.  Returns the
    /// identity exactly when the username names an account and the password
    /// verifies against its stored digest; an unknown user and a wrong
    /// password are indistinguishable absences.
    pub fn authenticate(&self, username: &str, password: &str) -> (r: Option<(i64, String, bool)>)
        requires
            self.wf(),
        ensures
            match r {
                Some(t) => {
                    &&& has_username(self@.accounts, username@)
                    &&& bcrypt_matches(
                        password@,
                        self@.accounts[username_index(self@.accounts, username@)].password_hash,
                    )
                    &&& t.0 == self@.accounts[username_index(self@.accounts, username@)].id
                    &&& t.1@ == self@.accounts[username_index(self@.accounts, username@)].username
                    &&& t.2 == self@.accounts[username_index(self@.accounts, username@)].is_admin
                },
                None => !has_username(self@.accounts, username@) || !bcrypt_matches(
                    password@,
                    self@.accounts[username_index(self@.accounts, username@)].password_hash,
                ),
            },
    {
        let name = username.to_owned();
        match self.find_username(&name) {
            None => None,
            Some(j) => {
                let acc = &self.accounts[j];
                if verify_password(password, acc.password_hash.as_str()) {
                    Some((acc.id, acc.username.clone(), acc.is_admin))
                } else {
                    None
                }
            },
        }
    }
}

/// How recording an event at time `now` changes the store: the account
/// table is untouched and the history follows [`spec_record_event`].
pub open spec fn event_recorded(
    pre: AuthManagerV,
    post: AuthManagerV,
    e: EventV,
    now: int,
) -> bool {
    &&& post.accounts == pre.accounts
    &&& post.next_account_id == pre.next_account_id
    &&& post.history == spec_record_event(pre.history, pre.next_history_id, e, now)
    &&& post.next_history_id == spec_record_event_next(pre.history, pre.next_history_id, e)
}

/// How a progress update at time `now` changes the store: the account
/// table is untouched and the history follows [`spec_update_progress`].
pub open spec fn progress_updated(
    pre: AuthManagerV,
    post: AuthManagerV,
    k: (int, int, Seq<char>, int, int),
    progress_seconds: int,
    completed: bool,
    now: int,
) -> bool {
    &&& post.accounts == pre.accounts
    &&& post.next_account_id == pre.next_account_id
    &&& post.next_history_id == pre.next_history_id
    &&& post.history == spec_update_progress(pre.history, k, progress_seconds, completed, now)
}

impl AuthManager {
    /// The index of the row carrying this key, if any.
    fn find_key(
        &self,
        user_id: i64,
        tmdb_id: i64,
        media_type: &String,
        season_number: i64,
        episode_number: i64,
    ) -> (r: Option<usize>)
        requires
            self.wf(),
        ensures
            match r {
                Some(j) => {
                    &&& j < self@.history.len()
                    &&& key_of(self@.history[j as int]) == (
                        user_id as int,
                        tmdb_id as int,
                        media_type@,
                        season_number as int,
                        episode_number as int,
                    )
                    &&& has_key(
                        self@.history,
                        (
                            user_id as int,
                            tmdb_id as int,
                            media_type@,
                            season_number as int,
                            episode_number as int,
                        ),
                    )
                    &&& key_index(
                        self@.history,
                        (
                            user_id as int,
                            tmdb_id as int,
                            media_type@,
                            season_number as int,
                            episode_number as int,
                        ),
                    ) == j
                },
                None => !has_key(
                    self@.history,
                    (
                        user_id as int,
                        tmdb_id as int,
                        media_type@,
                        season_number as int,
                        episode_number as int,
                    ),
                ),
            },
    {
        let ghost k = (
            user_id as int,
            tmdb_id as int,
            media_type@,
            season_number as int,
            episode_number as int,
        );
        let n = self.history.len();
        let mut i: usize = 0;
        while i < n
            invariant
                i <= n,
                n == self@.history.len(),
                history_wf(self@.history, self@.next_history_id),
                forall|t: int| 0 <= t < i ==> key_of(#[trigger] self@.history[t]) != k,
                k == (
                    user_id as int,
                    tmdb_id as int,
                    media_type@,
                    season_number as int,
                    episode_number as int,
                ),
            decreases n - i,
        {
            let row = &self.history[i];
            if row.user_id == user_id && row.tmdb_id == tmdb_id && row.season_number
                == season_number && row.episode_number == episode_number && row.media_type
                == *media_type {
                proof {
                    assert(key_of(self@.history[i as int]) == k);
                    let t = key_index(self@.history, k);
                    if t != i {
                        if t < i {
                            assert(key_of(self@.history[t]) != key_of(self@.history[i as int]));
                        } else {
                            assert(key_of(self@.history[i as int]) != key_of(self@.history[t]));
                        }
                    }
                }
                return Some(i);
            }
            i += 1;
        }
        None
    }

    /// Records a progress event at the given time: the first event for a key
    /// inserts a row with zero progress; every later event for the same key
    /// only refreshes the last-watched timestamp, so recording is idempotent
    /// on the key.
    pub fn add_to_watch_history_at(
        &mut self,
        user_id: i64,
        tmdb_id: i64,
        media_type: &str,
        title: &str,
        poster_path: Option<&str>,
        season_number: Option<i64>,
        episode_number: Option<i64>,
        episode_title: Option<&str>,
        now: i64,
    ) -> (r: Result<(), AuthError>)
        requires
            old(self).wf(),
        ensures
            final(self).wf(),
            match r {
                Ok(u) => event_recorded(
                    old(self)@,
                    final(self)@,
                    event_view(
                        user_id,
                        tmdb_id,
                        media_type@,
                        title@,
                        opt_str_view(poster_path),
                        season_number,
                        episode_number,
                        opt_str_view(episode_title),
                    ),
                    now as int,
                ),
                Err(e) => {
                    &&& final(self)@ == old(self)@
                    &&& e == AuthError::StoreFull
                    &&& old(self)@.next_history_id == i64::MAX
                },
            },
    {
        let ghost e = event_view(
            user_id,
            tmdb_id,
            media_type@,
            title@,
            opt_str_view(poster_path),
            season_number,
            episode_number,
            opt_str_view(episode_title),
        );
        let ghost pre = self@;
        let season_num = match season_number {
            Some(s) => s,
            None => LOCATOR_SENTINEL,
        };
        let episode_num = match episode_number {
            Some(e) => e,
            None => LOCATOR_SENTINEL,
        };
        let mt = media_type.to_owned();
        proof {
            assert(event_key(e) == (
                user_id as int,
                tmdb_id as int,
                mt@,
                season_num as int,
                episode_num as int,
            ));
        }
        match self.find_key(user_id, tmdb_id, &mt, season_num, episode_num) {
            Some(j) => {
                proof {
                    lemma_record_event_wf(pre.history, pre.next_history_id, e, now as int);
                }
                let mut row = self.history.remove(j);
                row.watched_at = now;
                self.history.insert(j, row);
                proof {
                    assert(items_view(self.history@) =~= pre.history.update(
                        j as int,
                        spec_refreshed(pre.history[j as int], now as int),
                    ));
                }
            },
            None => {
                if self.next_history_id == i64::MAX {
                    return Err(AuthError::StoreFull);
                }
                proof {
                    lemma_record_event_wf(pre.history, pre.next_history_id, e, now as int);
                }
                let id = self.next_history_id;
                let row = WatchHistoryItem {
                    id,
                    user_id,
                    tmdb_id,
                    media_type: mt,
                    title: title.to_owned(),
                    poster_path: match poster_path {
                        Some(p) => Some(p.to_owned()),
                        None => None,
                    },
                    season_number: season_num,
                    episode_number: episode_num,
                    episode_title: match episode_title {
                        Some(t) => Some(t.to_owned()),
                        None => None,
                    },
                    progress_seconds: 0,
                    completed: false,
                    watched_at: now,
                };
                proof {
                    assert(row@ == spec_new_row(e, pre.next_history_id, now as int));
                }
                self.history.push(row);
                self.next_history_id = id + 1;
                proof {
                    assert(items_view(self.history@) =~= pre.history.push(
                        spec_new_row(e, pre.next_history_id, now as int),
                    ));
                }
            },
        }
        Ok(())
    }

    /// Records a progress event at the current wall clock.
    pub fn add_to_watch_history(
        &mut self,
        user_id: i64,
        tmdb_id: i64,
        media_type: &str,
        title: &str,
        poster_path: Option<&str>,
        season_number: Option<i64>,
        episode_number: Option<i64>,
        episode_title: Option<&str>,
    ) -> (r: Result<(), AuthError>)
        requires
            old(self).wf(),
        ensures
            final(self).wf(),
            match r {
                Ok(u) => exists|now: int|
                    event_recorded(
                        old(self)@,
                        final(self)@,
                        event_view(
                            user_id,
                            tmdb_id,
                            media_type@,
                            title@,
                            opt_str_view(poster_path),
                            season_number,
                            episode_number,
                            opt_str_view(episode_title),
                        ),
                        now,
                    ),
                Err(e) => {
                    &&& final(self)@ == old(self)@
                    &&& e == AuthError::StoreFull
                    &&& old(self)@.next_history_id == i64::MAX
                },
            },
    {
        let now = crate::session::current_timestamp();
        self.add_to_watch_history_at(
            user_id,
            tmdb_id,
            media_type,
            title,
            poster_path,
            season_number,
            episode_number,
            episode_title,
            now,
        )
    }

    /// Updates progress, completion and timestamp for the row carrying the
    /// key, at the given time.  A missing row is a no-op, not an error: the
    /// two-call protocol expects `add_to_watch_history` first.
    pub fn update_watch_progress_at(
        &mut self,
        user_id: i64,
        tmdb_id: i64,
        media_type: &str,
        progress_seconds: i64,
        completed: bool,
        season_number: Option<i64>,
        episode_number: Option<i64>,
        now: i64,
    )
        requires
            old(self).wf(),
        ensures
            final(self).wf(),
            progress_updated(
                old(self)@,
                final(self)@,
                lookup_key(user_id, tmdb_id, media_type@, season_number, episode_number),
                progress_seconds as int,
                completed,
                now as int,
            ),
    {
        let ghost k = lookup_key(user_id, tmdb_id, media_type@, season_number, episode_number);
        let ghost pre = self@;
        let season_num = match season_number {
            Some(s) => s,
            None => LOCATOR_SENTINEL,
        };
        let episode_num = match episode_number {
            Some(e) => e,
            None => LOCATOR_SENTINEL,
        };
        let mt = media_type.to_owned();
        proof {
            lemma_update_progress_in_place(
                pre.history,
                pre.next_history_id,
                k,
                progress_seconds as int,
                completed,
                now as int,
            );
        }
        match self.find_key(user_id, tmdb_id, &mt, season_num, episode_num) {
            Some(j) => {
                let mut row = self.history.remove(j);
                row.progress_seconds = progress_seconds;
                row.completed = completed;
                row.watched_at = now;
                self.history.insert(j, row);
                proof {
                    assert(items_view(self.history@) =~= pre.history.update(
                        j as int,
                        spec_progressed(
                            pre.history[j as int],
                            progress_seconds as int,
                            completed,
                            now as int,
                        ),
                    ));
                }
            },
            None => {},
        }
    }

    /// Updates progress at the current wall clock.
    pub fn update_watch_progress(
        &mut self,
        user_id: i64,
        tmdb_id: i64,
        media_type: &str,
        progress_seconds: i64,
        completed: bool,
        season_number: Option<i64>,
        episode_number: Option<i64>,
    )
        requires
            old(self).wf(),
        ensures
            final(self).wf(),
            exists|now: int|
                progress_updated(
                    old(self)@,
                    final(self)@,
                    lookup_key(user_id, tmdb_id, media_type@, season_number, episode_number),
                    progress_seconds as int,
                    completed,
                    now,
                ),
    {
        let now = crate::session::current_timestamp();
        self.update_watch_progress_at(
            user_id,
            tmdb_id,
            media_type,
            progress_seconds,
            completed,
            season_number,
            episode_number,
            now,
        );
    }

    /// Lists the account's history, most recently watched first, bounded to
    /// the fifty most recent entries.  Read-only.
    pub fn get_watch_history(&self, user_id: i64) -> (r: Vec<WatchHistoryItem>)
        ensures
            r@.len() <= 50,
            sorted_by_recency(items_view(r@)),
            exists|full: Seq<WatchHistoryItemV>|
                history_listing(self@.history, user_id as int, items_view(r@), full),
    {
        let n = self.history.len();
        let mut mine: Vec<WatchHistoryItem> = Vec::new();
        proof {
            assert(items_view(mine@) =~= spec_user_rows(
                items_view(self.history@).take(0),
                user_id as int,
            ));
        }
        let mut i: usize = 0;
        while i < n
            invariant
                i <= n,
                n == self@.history.len(),
                items_view(mine@) == spec_user_rows(self@.history.take(i as int), user_id as int),
            decreases n - i,
        {
            let ghost pre_mine = items_view(mine@);
            if self.history[i].user_id == user_id {
                mine.push(self.history[i].clone());
            }
            proof {
                let hv = self@.history;
                assert(hv.take(i + 1).drop_last() =~= hv.take(i as int));
                assert(hv.take(i + 1).last() == hv[i as int]);
                if self@.history[i as int].user_id == user_id as int {
                    assert(items_view(mine@) =~= pre_mine.push(hv[i as int]));
                }
            }
            i += 1;
        }
        proof {
            assert(self@.history.take(n as int) =~= self@.history);
        }
        let mut sorted = sort_items_by_recency(mine);
        let ghost full = items_view(sorted@);
        if sorted.len() > 50 {
            sorted.truncate(50);
            proof {
                assert(items_view(sorted@) =~= full.take(50));
            }
        } else {
            proof {
                assert(items_view(sorted@) =~= full.take(full.len() as int));
            }
        }
        proof {
            assert(history_listing(self@.history, user_id as int, items_view(sorted@), full));
        }
        sorted
    }

    /// Removes exactly one entry, scoped to the owning account: a guessed
    /// entry id of another account deletes nothing.
    pub fn remove_from_watch_history(&mut self, user_id: i64, history_id: i64)
        requires
            old(self).wf(),
        ensures
            final(self).wf(),
            final(self)@.accounts == old(self)@.accounts,
            final(self)@.next_account_id == old(self)@.next_account_id,
            final(self)@.next_history_id == old(self)@.next_history_id,
            final(self)@.history == spec_remove_entry(
                old(self)@.history,
                user_id as int,
                history_id as int,
            ),
    {
        match self.find_entry(user_id, history_id) {
            None => {},
            Some(j) => {
                let ghost hv = self@.history;
                proof {
                    lemma_history_wf_remove(hv, self@.next_history_id, j as int);
                }
                self.history.remove(j);
                proof {
                    assert(items_view(self.history@) =~= hv.remove(j as int));
                }
            },
        }
    }

    /// The index of the row with this id owned by this account, if any.
    fn find_entry(&self, user_id: i64, history_id: i64) -> (r: Option<usize>)
        requires
            self.wf(),
        ensures
            match r {
                Some(j) => {
                    &&& j < self@.history.len()
                    &&& entry_exists(self@.history, user_id as int, history_id as int)
                    &&& entry_index(self@.history, user_id as int, history_id as int) == j
                },
                None => !entry_exists(self@.history, user_id as int, history_id as int),
            },
    {
        let n = self.history.len();
        let mut i: usize = 0;
        while i < n
            invariant
                i <= n,
                n == self@.history.len(),
                history_wf(self@.history, self@.next_history_id),
                forall|t: int|
                    0 <= t < i ==> !((#[trigger] self@.history[t]).id == history_id as int
                        && self@.history[t].user_id == user_id as int),
            decreases n - i,
        {
            if self.history[i].id == history_id && self.history[i].user_id == user_id {
                proof {
                    assert((self@.history[i as int]).id == history_id as int && self@.history[
                        i as int
                    ].user_id == user_id as int);
                    assert(entry_exists(self@.history, user_id as int, history_id as int));
                    let t = entry_index(self@.history, user_id as int, history_id as int);
                    if t != i {
                        if t < i {
                            assert(self@.history[t].id != self@.history[i as int].id);
                        } else {
                            assert(self@.history[i as int].id != self@.history[t].id);
                        }
                    }
                }
                return Some(i);
            }
            i += 1;
        }
        None
    }

    /// Deletes all history of the account.
    pub fn clear_watch_history(&mut self, user_id: i64)
        requires
            old(self).wf(),
        ensures
            final(self).wf(),
            final(self)@.accounts == old(self)@.accounts,
            final(self)@.next_account_id == old(self)@.next_account_id,
            final(self)@.next_history_id == old(self)@.next_history_id,
            final(self)@.history == spec_clear(old(self)@.history, user_id as int),
    {
        let ghost pre = self@;
        let n = self.history.len();
        let mut kept: Vec<WatchHistoryItem> = Vec::new();
        proof {
            assert(items_view(kept@) =~= spec_clear(self@.history.take(0), user_id as int));
        }
        let mut i: usize = 0;
        while i < n
            invariant
                i <= n,
                n == self@.history.len(),
                items_view(kept@) == spec_clear(self@.history.take(i as int), user_id as int),
            decreases n - i,
        {
            let ghost pre_kept = items_view(kept@);
            if self.history[i].user_id != user_id {
                kept.push(self.history[i].clone());
            }
            proof {
                let hv = self@.history;
                assert(hv.take(i + 1).drop_last() =~= hv.take(i as int));
                assert(hv.take(i + 1).last() == hv[i as int]);
                if self@.history[i as int].user_id != user_id as int {
                    assert(items_view(kept@) =~= pre_kept.push(hv[i as int]));
                }
            }
            i += 1;
        }
        proof {
            assert(self@.history.take(n as int) =~= self@.history);
            lemma_spec_clear_wf(pre.history, pre.next_history_id, user_id as int);
        }
        self.history = kept;
    }
}

} // verus!

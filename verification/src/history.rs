//! The watch-history ledger's rows and their mathematical model.
//!
//! One row exists per `(account, content id, media kind, season, episode)`
//! combination; a missing season or episode is the sentinel `-1`, so the
//! combination works as a uniqueness key.  The ledger is a current-state
//! table: an event for an existing key refreshes the row in place, never
//! appends.  The transition functions here say exactly how each operation
//! rewrites the rows; the store in [`crate::auth`] is verified against them.

use vstd::prelude::*;
use vstd::multiset::Multiset;

verus! {

/// The sentinel standing for "not applicable" in the season and episode
/// locators of the uniqueness key.
pub const LOCATOR_SENTINEL: i64 = -1;

/// One row of the watch-history table.
#[derive(Debug)]
pub struct WatchHistoryItem {
    pub id: i64,
    pub user_id: i64,
    pub tmdb_id: i64,
    pub media_type: String,
    pub title: String,
    pub poster_path: Option<String>,
    pub season_number: i64,
    pub episode_number: i64,
    pub episode_title: Option<String>,
    pub progress_seconds: i64,
    pub completed: bool,
    pub watched_at: i64,
}

/// Mathematical image of a [`WatchHistoryItem`].
pub struct WatchHistoryItemV {
    pub id: int,
    pub user_id: int,
    pub tmdb_id: int,
    pub media_type: Seq<char>,
    pub title: Seq<char>,
    pub poster_path: Option<Seq<char>>,
    pub season_number: int,
    pub episode_number: int,
    pub episode_title: Option<Seq<char>>,
    pub progress_seconds: int,
    pub completed: bool,
    pub watched_at: int,
}

/// The view of an optional owned string.
pub open spec fn opt_string_view(o: Option<String>) -> Option<Seq<char>> {
    match o {
        Some(s) => Some(s@),
        None => None,
    }
}

/// The view of an optional borrowed string.
pub open spec fn opt_str_view(o: Option<&str>) -> Option<Seq<char>> {
    match o {
        Some(s) => Some(s@),
        None => None,
    }
}

impl View for WatchHistoryItem {
    type V = WatchHistoryItemV;

    open spec fn view(&self) -> WatchHistoryItemV {
        WatchHistoryItemV {
            id: self.id as int,
            user_id: self.user_id as int,
            tmdb_id: self.tmdb_id as int,
            media_type: self.media_type@,
            title: self.title@,
            poster_path: opt_string_view(self.poster_path),
            season_number: self.season_number as int,
            episode_number: self.episode_number as int,
            episode_title: opt_string_view(self.episode_title),
            progress_seconds: self.progress_seconds as int,
            completed: self.completed,
            watched_at: self.watched_at as int,
        }
    }
}

impl Clone for WatchHistoryItem {
    fn clone(&self) -> (r: Self)
        ensures
            r == *self,
    {
        WatchHistoryItem {
            id: self.id,
            user_id: self.user_id,
            tmdb_id: self.tmdb_id,
            media_type: self.media_type.clone(),
            title: self.title.clone(),
            poster_path: match &self.poster_path {
                Some(s) => Some(s.clone()),
                None => None,
            },
            season_number: self.season_number,
            episode_number: self.episode_number,
            episode_title: match &self.episode_title {
                Some(s) => Some(s.clone()),
                None => None,
            },
            progress_seconds: self.progress_seconds,
            completed: self.completed,
            watched_at: self.watched_at,
        }
    }
}

/// The views of a row sequence.
pub open spec fn items_view(v: Seq<WatchHistoryItem>) -> Seq<WatchHistoryItemV> {
    v.map_values(|x: WatchHistoryItem| x@)
}

/// The uniqueness key of a row.
pub open spec fn key_of(x: WatchHistoryItemV) -> (int, int, Seq<char>, int, int) {
    (x.user_id, x.tmdb_id, x.media_type, x.season_number, x.episode_number)
}

/// Whether some row carries this key.
pub open spec fn has_key(h: Seq<WatchHistoryItemV>, k: (int, int, Seq<char>, int, int)) -> bool {
    exists|i: int| 0 <= i < h.len() && key_of(#[trigger] h[i]) == k
}

/// The index of the row carrying this key (unique when keys are unique).
pub open spec fn key_index(h: Seq<WatchHistoryItemV>, k: (int, int, Seq<char>, int, int)) -> int {
    choose|i: int| 0 <= i < h.len() && key_of(#[trigger] h[i]) == k
}

/// The rows carrying this key, in order.
pub open spec fn rows_with_key(
    h: Seq<WatchHistoryItemV>,
    k: (int, int, Seq<char>, int, int),
) -> Seq<WatchHistoryItemV>
    decreases h.len(),
{
    if h.len() == 0 {
        Seq::<WatchHistoryItemV>::empty()
    } else if key_of(h.last()) == k {
        rows_with_key(h.drop_last(), k).push(h.last())
    } else {
        rows_with_key(h.drop_last(), k)
    }
}

/// The rows owned by this account, in storage order.
pub open spec fn spec_user_rows(h: Seq<WatchHistoryItemV>, user_id: int) -> Seq<
    WatchHistoryItemV,
>
    decreases h.len(),
{
    if h.len() == 0 {
        Seq::<WatchHistoryItemV>::empty()
    } else if h.last().user_id == user_id {
        spec_user_rows(h.drop_last(), user_id).push(h.last())
    } else {
        spec_user_rows(h.drop_last(), user_id)
    }
}

/// Most-recently-watched first.
pub open spec fn sorted_by_recency(s: Seq<WatchHistoryItemV>) -> bool {
    forall|i: int, j: int| 0 <= i < j < s.len() ==> s[i].watched_at >= s[j].watched_at
}

/// Well-formed rows: every uniqueness key appears at most once, row ids are
/// unique, and every row id is below the next free id.
pub open spec fn history_wf(h: Seq<WatchHistoryItemV>, next_id: int) -> bool {
    &&& forall|i: int, j: int|
        0 <= i < j < h.len() ==> key_of(#[trigger] h[i]) != key_of(#[trigger] h[j])
    &&& forall|i: int, j: int| 0 <= i < j < h.len() ==> #[trigger] h[i].id != #[trigger] h[j].id
    &&& forall|i: int| 0 <= i < h.len() ==> #[trigger] h[i].id < next_id
}

/// A progress event, with the season and episode locators already
/// normalized to the sentinel.
pub struct EventV {
    pub user_id: int,
    pub tmdb_id: int,
    pub media_type: Seq<char>,
    pub title: Seq<char>,
    pub poster_path: Option<Seq<char>>,
    pub season_number: int,
    pub episode_number: int,
    pub episode_title: Option<Seq<char>>,
}

/// The key an event addresses.
pub open spec fn event_key(e: EventV) -> (int, int, Seq<char>, int, int) {
    (e.user_id, e.tmdb_id, e.media_type, e.season_number, e.episode_number)
}

/// The row a first event for a key creates: progress zero, not completed,
/// watched now.
pub open spec fn spec_new_row(e: EventV, id: int, now: int) -> WatchHistoryItemV {
    WatchHistoryItemV {
        id: id,
        user_id: e.user_id,
        tmdb_id: e.tmdb_id,
        media_type: e.media_type,
        title: e.title,
        poster_path: e.poster_path,
        season_number: e.season_number,
        episode_number: e.episode_number,
        episode_title: e.episode_title,
        progress_seconds: 0,
        completed: false,
        watched_at: now,
    }
}

/// A row with only its last-watched timestamp refreshed; the title and
/// poster are write-once at first sight and stay as they were.
pub open spec fn spec_refreshed(x: WatchHistoryItemV, now: int) -> WatchHistoryItemV {
    WatchHistoryItemV { watched_at: now, ..x }
}

/// A row with progress, completion and timestamp replaced.
pub open spec fn spec_progressed(
    x: WatchHistoryItemV,
    progress_seconds: int,
    completed: bool,
    now: int,
) -> WatchHistoryItemV {
    WatchHistoryItemV { progress_seconds, completed, watched_at: now, ..x }
}

/// How recording an event rewrites the rows: refresh the timestamp of the
/// row already carrying the key, or append a fresh row under the next free
/// id.  Recording is idempotent on the key.
pub open spec fn spec_record_event(
    h: Seq<WatchHistoryItemV>,
    next_id: int,
    e: EventV,
    now: int,
) -> Seq<WatchHistoryItemV> {
    if has_key(h, event_key(e)) {
        h.update(key_index(h, event_key(e)), spec_refreshed(h[key_index(h, event_key(e))], now))
    } else {
        h.push(spec_new_row(e, next_id, now))
    }
}

/// The next free id after recording an event.
pub open spec fn spec_record_event_next(
    h: Seq<WatchHistoryItemV>,
    next_id: int,
    e: EventV,
) -> int {
    if has_key(h, event_key(e)) {
        next_id
    } else {
        next_id + 1
    }
}

/// How a progress update rewrites the rows: the row carrying the key is
/// updated in place; a missing key is a no-op, not an error.
pub open spec fn spec_update_progress(
    h: Seq<WatchHistoryItemV>,
    k: (int, int, Seq<char>, int, int),
    progress_seconds: int,
    completed: bool,
    now: int,
) -> Seq<WatchHistoryItemV> {
    if has_key(h, k) {
        h.update(key_index(h, k), spec_progressed(h[key_index(h, k)], progress_seconds, completed, now))
    } else {
        h
    }
}

/// Whether some row has this id and belongs to this account.
pub open spec fn entry_exists(h: Seq<WatchHistoryItemV>, user_id: int, entry_id: int) -> bool {
    exists|i: int|
        0 <= i < h.len() && (#[trigger] h[i]).id == entry_id && h[i].user_id == user_id
}

/// The index of that row (unique when row ids are unique).
pub open spec fn entry_index(h: Seq<WatchHistoryItemV>, user_id: int, entry_id: int) -> int {
    choose|i: int|
        0 <= i < h.len() && (#[trigger] h[i]).id == entry_id && h[i].user_id == user_id
}

/// How removing one entry rewrites the rows: the row with this id is gone,
/// but only when it belongs to the requesting account; nothing else ever
/// goes.
pub open spec fn spec_remove_entry(
    h: Seq<WatchHistoryItemV>,
    user_id: int,
    entry_id: int,
) -> Seq<WatchHistoryItemV> {
    if entry_exists(h, user_id, entry_id) {
        h.remove(entry_index(h, user_id, entry_id))
    } else {
        h
    }
}

/// How clearing an account rewrites the rows: every row of the account is
/// gone, every other row stays, in order.
pub open spec fn spec_clear(h: Seq<WatchHistoryItemV>, user_id: int) -> Seq<WatchHistoryItemV>
    decreases h.len(),
{
    if h.len() == 0 {
        Seq::<WatchHistoryItemV>::empty()
    } else if h.last().user_id == user_id {
        spec_clear(h.drop_last(), user_id)
    } else {
        spec_clear(h.drop_last(), user_id).push(h.last())
    }
}

/// What a listing returns: a prefix of some most-recent-first arrangement
/// of the account's rows, cut to the fifty most recent.
pub open spec fn history_listing(
    h: Seq<WatchHistoryItemV>,
    user_id: int,
    listed: Seq<WatchHistoryItemV>,
    full: Seq<WatchHistoryItemV>,
) -> bool {
    &&& full.to_multiset() == spec_user_rows(h, user_id).to_multiset()
    &&& sorted_by_recency(full)
    &&& listed == full.take(
        if full.len() < 50 {
            full.len() as int
        } else {
            50
        },
    )
}

/// The event a call with these arguments describes, the missing locators
/// normalized to the sentinel.
pub open spec fn event_view(
    user_id: i64,
    tmdb_id: i64,
    media_type: Seq<char>,
    title: Seq<char>,
    poster_path: Option<Seq<char>>,
    season_number: Option<i64>,
    episode_number: Option<i64>,
    episode_title: Option<Seq<char>>,
) -> EventV {
    EventV {
        user_id: user_id as int,
        tmdb_id: tmdb_id as int,
        media_type: media_type,
        title: title,
        poster_path: poster_path,
        season_number: match season_number {
            Some(s) => s as int,
            None => LOCATOR_SENTINEL as int,
        },
        episode_number: match episode_number {
            Some(e) => e as int,
            None => LOCATOR_SENTINEL as int,
        },
        episode_title: episode_title,
    }
}

/// The key a lookup with these arguments addresses, the missing locators
/// normalized to the sentinel.
pub open spec fn lookup_key(
    user_id: i64,
    tmdb_id: i64,
    media_type: Seq<char>,
    season_number: Option<i64>,
    episode_number: Option<i64>,
) -> (int, int, Seq<char>, int, int) {
    (
        user_id as int,
        tmdb_id as int,
        media_type,
        match season_number {
            Some(s) => s as int,
            None => LOCATOR_SENTINEL as int,
        },
        match episode_number {
            Some(e) => e as int,
            None => LOCATOR_SENTINEL as int,
        },
    )
}

/// Sorts rows most-recently-watched first; the result is a permutation of
/// the input.
pub fn sort_items_by_recency(items: Vec<WatchHistoryItem>) -> (out: Vec<WatchHistoryItem>)
    ensures
        items_view(out@).to_multiset() == items_view(items@).to_multiset(),
        sorted_by_recency(items_view(out@)),
{
    broadcast use vstd::seq_lib::group_to_multiset_ensures;
    broadcast use vstd::multiset::group_multiset_axioms;

    let ghost orig = items_view(items@);
    let mut rest = items;
    let mut out: Vec<WatchHistoryItem> = Vec::new();
    proof {
        assert(items_view(out@) =~= Seq::<WatchHistoryItemV>::empty());
        assert(items_view(out@).to_multiset().add(items_view(rest@).to_multiset())
            =~= orig.to_multiset());
    }
    while rest.len() > 0
        invariant
            sorted_by_recency(items_view(out@)),
            forall|a: int, b: int|
                0 <= a < out@.len() && 0 <= b < rest@.len() ==> items_view(out@)[a].watched_at
                    >= items_view(rest@)[b].watched_at,
            items_view(out@).to_multiset().add(items_view(rest@).to_multiset())
                == orig.to_multiset(),
        decreases rest.len(),
    {
        let mut m: usize = 0;
        let mut k: usize = 1;
        while k < rest.len()
            invariant
                m < rest@.len(),
                k <= rest@.len(),
                forall|t: int|
                    0 <= t < k ==> items_view(rest@)[t].watched_at <= items_view(rest@)[
                        m as int
                    ].watched_at,
            decreases rest.len() - k,
        {
            if rest[k].watched_at > rest[m].watched_at {
                m = k;
            }
            k += 1;
        }
        let ghost pre_rest = rest@;
        let ghost pre_out = out@;
        let x = rest.remove(m);
        out.push(x);
        proof {
            assert(items_view(pre_rest)[m as int] == x@);
            assert(items_view(rest@) =~= items_view(pre_rest).remove(m as int));
            assert(items_view(out@) =~= items_view(pre_out).push(x@));
            assert(items_view(pre_rest).contains(x@));
            broadcast use vstd::multiset::group_multiset_axioms;
            vstd::seq_lib::to_multiset_build(items_view(pre_out), x@);
            vstd::seq_lib::to_multiset_remove(items_view(pre_rest), m as int);
            items_view(pre_rest).to_multiset_ensures();
            assert(items_view(pre_rest).to_multiset().count(x@) > 0);
            assert(items_view(out@).to_multiset().add(items_view(rest@).to_multiset())
                =~= orig.to_multiset());
            assert forall|a: int, b: int|
                0 <= a < out@.len() && 0 <= b < rest@.len() implies items_view(out@)[
                a
            ].watched_at >= items_view(rest@)[b].watched_at by {
                let b0 = if b < m {
                    b
                } else {
                    b + 1
                };
                assert(items_view(rest@)[b] == items_view(pre_rest)[b0]);
                assert(items_view(pre_rest)[b0].watched_at <= items_view(pre_rest)[
                    m as int
                ].watched_at);
                if a < pre_out.len() {
                    assert(items_view(out@)[a] == items_view(pre_out)[a]);
                } else {
                    assert(items_view(out@)[a] == x@);
                }
            }
            assert forall|i: int, j: int| 0 <= i < j < items_view(out@).len() implies items_view(
                out@,
            )[i].watched_at >= items_view(out@)[j].watched_at by {
                if j < pre_out.len() {
                    assert(items_view(pre_out)[i].watched_at >= items_view(
                        pre_out,
                    )[j].watched_at);
                } else {
                    assert(items_view(out@)[j] == x@);
                }
            }
        }
    }
    proof {
        assert(items_view(rest@).to_multiset() =~= Multiset::<WatchHistoryItemV>::empty());
        assert(items_view(out@).to_multiset() =~= orig.to_multiset());
    }
    out
}

/// Under unique keys, a key is carried by exactly one row when present and
/// none when absent.
pub proof fn lemma_keys_unique_one_row(h: Seq<WatchHistoryItemV>, k: (int, int, Seq<char>, int, int))
    requires
        forall|i: int, j: int|
            0 <= i < j < h.len() ==> key_of(#[trigger] h[i]) != key_of(#[trigger] h[j]),
    ensures
        rows_with_key(h, k).len() == if has_key(h, k) {
            1int
        } else {
            0
        },
    decreases h.len(),
{
    if h.len() == 0 {
        assert(!has_key(h, k));
    } else {
        let h0 = h.drop_last();
        assert(forall|i: int, j: int|
            0 <= i < j < h0.len() ==> key_of(#[trigger] h0[i]) != key_of(#[trigger] h0[j]));
        lemma_keys_unique_one_row(h0, k);
        if key_of(h.last()) == k {
            assert(has_key(h, k));
            assert(!has_key(h0, k)) by {
                if has_key(h0, k) {
                    let m = choose|i: int| 0 <= i < h0.len() && key_of(#[trigger] h0[i]) == k;
                    assert(key_of(h[m]) != key_of(h[h.len() - 1]));
                }
            }
        } else {
            if has_key(h, k) {
                let m = choose|i: int| 0 <= i < h.len() && key_of(#[trigger] h[i]) == k;
                assert(m < h0.len());
                assert(h0[m] == h[m]);
                assert(key_of(h0[m]) == k);
                assert(has_key(h0, k));
            }
            if has_key(h0, k) {
                assert(has_key(h, k));
            }
        }
    }
}

/// Recording an event keeps the rows well formed, and afterwards the
/// event's key is present.
pub proof fn lemma_record_event_wf(h: Seq<WatchHistoryItemV>, next_id: int, e: EventV, now: int)
    requires
        history_wf(h, next_id),
        has_key(h, event_key(e)) || next_id < i64::MAX,
    ensures
        history_wf(
            spec_record_event(h, next_id, e, now),
            spec_record_event_next(h, next_id, e),
        ),
        has_key(spec_record_event(h, next_id, e, now), event_key(e)),
        spec_record_event(h, next_id, e, now).len() == if has_key(h, event_key(e)) {
            h.len() as int
        } else {
            h.len() as int + 1
        },
{
    let k = event_key(e);
    if has_key(h, k) {
        let idx = key_index(h, k);
        assert(0 <= idx < h.len() && key_of(h[idx]) == k);
        let h2 = h.update(idx, spec_refreshed(h[idx], now));
        assert forall|i: int| 0 <= i < h2.len() implies key_of(#[trigger] h2[i]) == key_of(h[i])
            && h2[i].id == h[i].id by {}
        assert(key_of(h2[idx]) == k);
        assert(has_key(h2, k));
    } else {
        let row = spec_new_row(e, next_id, now);
        let h2 = h.push(row);
        assert(key_of(h2[h.len() as int]) == k);
        assert(has_key(h2, k));
        assert forall|i: int, j: int| 0 <= i < j < h2.len() implies key_of(#[trigger] h2[i])
            != key_of(#[trigger] h2[j]) by {
            if j == h.len() {
                assert(h2[i] == h[i]);
                if key_of(h[i]) == k {
                    assert(has_key(h, k));
                }
            } else {
                assert(key_of(h[i]) != key_of(h[j]));
            }
        }
        assert forall|i: int, j: int| 0 <= i < j < h2.len() implies #[trigger] h2[i].id
            != #[trigger] h2[j].id by {
            if j == h.len() {
                assert(h[i].id < next_id);
            } else {
                assert(h[i].id != h[j].id);
            }
        }
    }
}

/// Recording twice with the same key is idempotent: after the first event
/// exactly one row carries the key, and the second event refreshes that row
/// without adding one.
pub proof fn lemma_record_event_idempotent(
    h: Seq<WatchHistoryItemV>,
    next_id: int,
    e: EventV,
    t1: int,
    t2: int,
)
    requires
        history_wf(h, next_id),
        next_id < i64::MAX - 1,
    ensures
        ({
            let h1 = spec_record_event(h, next_id, e, t1);
            let n1 = spec_record_event_next(h, next_id, e);
            let h2 = spec_record_event(h1, n1, e, t2);
            &&& rows_with_key(h1, event_key(e)).len() == 1
            &&& h2.len() == h1.len()
            &&& rows_with_key(h2, event_key(e)).len() == 1
        }),
{
    let k = event_key(e);
    let h1 = spec_record_event(h, next_id, e, t1);
    let n1 = spec_record_event_next(h, next_id, e);
    let h2 = spec_record_event(h1, n1, e, t2);
    lemma_record_event_wf(h, next_id, e, t1);
    lemma_keys_unique_one_row(h1, k);
    lemma_record_event_wf(h1, n1, e, t2);
    lemma_keys_unique_one_row(h2, k);
    assert(has_key(h1, k));
    assert(h2.len() == h1.len());
}

/// A progress update rewrites one row in place: the row count is unchanged
/// and the key still maps to exactly one row, so no duplicate appears.
pub proof fn lemma_update_progress_in_place(
    h: Seq<WatchHistoryItemV>,
    next_id: int,
    k: (int, int, Seq<char>, int, int),
    progress_seconds: int,
    completed: bool,
    now: int,
)
    requires
        history_wf(h, next_id),
    ensures
        ({
            let h2 = spec_update_progress(h, k, progress_seconds, completed, now);
            &&& h2.len() == h.len()
            &&& history_wf(h2, next_id)
            &&& rows_with_key(h2, k).len() == rows_with_key(h, k).len()
        }),
{
    let h2 = spec_update_progress(h, k, progress_seconds, completed, now);
    if has_key(h, k) {
        let idx = key_index(h, k);
        assert(0 <= idx < h.len() && key_of(h[idx]) == k);
        assert forall|i: int| 0 <= i < h2.len() implies key_of(#[trigger] h2[i]) == key_of(h[i])
            && h2[i].id == h[i].id by {}
        assert(key_of(h2[idx]) == k);
        assert(has_key(h2, k));
        lemma_keys_unique_one_row(h, k);
        lemma_keys_unique_one_row(h2, k);
    }
}

/// Removing a row keeps the rows well formed.
pub proof fn lemma_history_wf_remove(h: Seq<WatchHistoryItemV>, next_id: int, j: int)
    requires
        history_wf(h, next_id),
        0 <= j < h.len(),
    ensures
        history_wf(h.remove(j), next_id),
{
    let post = h.remove(j);
    assert forall|a: int, b: int| 0 <= a < b < post.len() implies key_of(#[trigger] post[a])
        != key_of(#[trigger] post[b]) && #[trigger] post[a].id != #[trigger] post[b].id by {
        let a0 = if a < j {
            a
        } else {
            a + 1
        };
        let b0 = if b < j {
            b
        } else {
            b + 1
        };
        assert(post[a] == h[a0]);
        assert(post[b] == h[b0]);
        assert(key_of(h[a0]) != key_of(h[b0]));
        assert(h[a0].id != h[b0].id);
    }
    assert forall|i: int| 0 <= i < post.len() implies #[trigger] post[i].id < next_id by {
        let i0 = if i < j {
            i
        } else {
            i + 1
        };
        assert(post[i] == h[i0]);
    }
}

/// Clearing an account keeps the rows well formed, and every row it keeps
/// was already stored.
pub proof fn lemma_spec_clear_wf(h: Seq<WatchHistoryItemV>, next_id: int, user_id: int)
    requires
        history_wf(h, next_id),
    ensures
        history_wf(spec_clear(h, user_id), next_id),
        forall|i: int|
            0 <= i < spec_clear(h, user_id).len() ==> h.contains(
                #[trigger] spec_clear(h, user_id)[i],
            ),
        forall|i: int|
            0 <= i < spec_clear(h, user_id).len() ==> spec_clear(h, user_id)[i].user_id
                != user_id,
    decreases h.len(),
{
    if h.len() > 0 {
        let h0 = h.drop_last();
        assert(history_wf(h0, next_id)) by {
            assert(forall|i: int| 0 <= i < h0.len() ==> h0[i] == h[i]);
        }
        lemma_spec_clear_wf(h0, next_id, user_id);
        let c0 = spec_clear(h0, user_id);
        assert(forall|i: int| 0 <= i < c0.len() ==> h.contains(#[trigger] c0[i])) by {
            assert(forall|i: int|
                0 <= i < c0.len() ==> h0.contains(#[trigger] c0[i]));
            assert forall|x: WatchHistoryItemV| h0.contains(x) implies h.contains(x) by {
                if h0.contains(x) {
                    let m = choose|m: int| 0 <= m < h0.len() && h0[m] == x;
                    assert(h[m] == x);
                }
            }
        }
        if h.last().user_id != user_id {
            let c = spec_clear(h, user_id);
            assert(c == c0.push(h.last()));
            assert forall|a: int, b: int| 0 <= a < b < c.len() implies key_of(#[trigger] c[a])
                != key_of(#[trigger] c[b]) && #[trigger] c[a].id != #[trigger] c[b].id by {
                if b == c.len() - 1 {
                    assert(c[a] == c0[a]);
                    assert(h.contains(c0[a]));
                    let m = choose|m: int| 0 <= m < h.len() && h[m] == c0[a];
                    assert(c0[a].user_id != user_id);
                    assert(h.last().user_id == user_id || m < h.len() - 1 || h[m]
                        == h.last());
                    if m < h.len() - 1 {
                        assert(key_of(h[m]) != key_of(h[h.len() - 1]));
                        assert(h[m].id != h[h.len() - 1].id);
                    }
                } else {
                    assert(key_of(c0[a]) != key_of(c0[b]));
                    assert(c0[a].id != c0[b].id);
                }
            }
        }
    }
}

/// Whole minutes watched, as display code derives it from stored seconds:
/// the division floors.
pub fn minutes_watched(progress_seconds: i64) -> (m: i64)
    requires
        progress_seconds >= 0,
    ensures
        m == progress_seconds as int / 60,
{
    progress_seconds / 60
}

} // verus!

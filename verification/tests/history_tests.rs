use ruststream::auth::AuthManager;
use ruststream::history::minutes_watched;

#[test]
fn record_then_update_yields_one_row_with_progress() {
    let mut m = AuthManager::new();
    m.add_to_watch_history_at(1, 42, "movie", "Example", Some("/p.jpg"), None, None, None, 100).unwrap();
    m.update_watch_progress_at(1, 42, "movie", 125, false, None, None, 200);
    let rows = m.get_watch_history(1);
    assert_eq!(rows.len(), 1);
    let row = &rows[0];
    assert_eq!(row.user_id, 1);
    assert_eq!(row.tmdb_id, 42);
    assert_eq!(row.media_type, "movie");
    assert_eq!(row.title, "Example");
    assert_eq!(row.poster_path.as_deref(), Some("/p.jpg"));
    assert_eq!(row.progress_seconds, 125);
    assert!(!row.completed);
    assert_eq!(row.season_number, -1);
    assert_eq!(row.episode_number, -1);
}

#[test]
fn recording_twice_with_same_key_keeps_one_row() {
    let mut m = AuthManager::new();
    m.add_to_watch_history_at(1, 42, "movie", "Example", Some("/p.jpg"), None, None, None, 100).unwrap();
    m.add_to_watch_history_at(1, 42, "movie", "Example", Some("/p.jpg"), None, None, None, 300).unwrap();
    let rows = m.get_watch_history(1);
    assert_eq!(rows.len(), 1);
    // Only the last-watched timestamp was refreshed.
    assert_eq!(rows[0].watched_at, 300);
    assert_eq!(rows[0].progress_seconds, 0);
}

#[test]
fn title_and_poster_are_write_once() {
    let mut m = AuthManager::new();
    m.add_to_watch_history_at(1, 42, "movie", "First", Some("/a.jpg"), None, None, None, 100).unwrap();
    m.add_to_watch_history_at(1, 42, "movie", "Second", Some("/b.jpg"), None, None, None, 200).unwrap();
    let rows = m.get_watch_history(1);
    assert_eq!(rows.len(), 1);
    assert_eq!(rows[0].title, "First");
    assert_eq!(rows[0].poster_path.as_deref(), Some("/a.jpg"));
}

#[test]
fn update_without_record_is_a_noop() {
    let mut m = AuthManager::new();
    m.update_watch_progress_at(1, 42, "movie", 125, false, None, None, 100);
    assert!(m.get_watch_history(1).is_empty());
}

#[test]
fn distinct_episodes_make_distinct_rows() {
    let mut m = AuthManager::new();
    m.add_to_watch_history_at(1, 7, "tv", "Show", None, Some(1), Some(1), Some("Pilot"), 100).unwrap();
    m.add_to_watch_history_at(1, 7, "tv", "Show", None, Some(1), Some(2), Some("Next"), 200).unwrap();
    let rows = m.get_watch_history(1);
    assert_eq!(rows.len(), 2);
}

#[test]
fn movie_and_episode_rows_are_distinct() {
    let mut m = AuthManager::new();
    m.add_to_watch_history_at(1, 7, "movie", "Same id", None, None, None, None, 100).unwrap();
    m.add_to_watch_history_at(1, 7, "tv", "Same id", None, Some(1), Some(1), None, 200).unwrap();
    assert_eq!(m.get_watch_history(1).len(), 2);
}

#[test]
fn listing_is_most_recent_first() {
    let mut m = AuthManager::new();
    m.add_to_watch_history_at(1, 10, "movie", "Ten", None, None, None, None, 10).unwrap();
    m.add_to_watch_history_at(1, 30, "movie", "Thirty", None, None, None, None, 30).unwrap();
    m.add_to_watch_history_at(1, 20, "movie", "Twenty", None, None, None, None, 20).unwrap();
    let rows = m.get_watch_history(1);
    let ids: Vec<i64> = rows.iter().map(|r| r.tmdb_id).collect();
    assert_eq!(ids, vec![30, 20, 10]);
}

#[test]
fn listing_is_bounded_to_fifty_most_recent() {
    let mut m = AuthManager::new();
    for k in 0..55 {
        m.add_to_watch_history_at(1, 1000 + k, "movie", "Bulk", None, None, None, None, k).unwrap();
    }
    let rows = m.get_watch_history(1);
    assert_eq!(rows.len(), 50);
    // The five oldest events fell off; the newest comes first.
    assert_eq!(rows[0].watched_at, 54);
    assert_eq!(rows[49].watched_at, 5);
    for w in rows.windows(2) {
        assert!(w[0].watched_at >= w[1].watched_at);
    }
}

#[test]
fn listing_is_scoped_to_the_account() {
    let mut m = AuthManager::new();
    m.add_to_watch_history_at(1, 42, "movie", "Mine", None, None, None, None, 100).unwrap();
    m.add_to_watch_history_at(2, 43, "movie", "Theirs", None, None, None, None, 200).unwrap();
    let rows = m.get_watch_history(1);
    assert_eq!(rows.len(), 1);
    assert_eq!(rows[0].title, "Mine");
}

#[test]
fn remove_is_scoped_to_the_owning_account() {
    let mut m = AuthManager::new();
    m.add_to_watch_history_at(1, 42, "movie", "Mine", None, None, None, None, 100).unwrap();
    let entry_id = m.get_watch_history(1)[0].id;
    // Another account guessing the id deletes nothing.
    m.remove_from_watch_history(2, entry_id);
    assert_eq!(m.get_watch_history(1).len(), 1);
    m.remove_from_watch_history(1, entry_id);
    assert!(m.get_watch_history(1).is_empty());
}

#[test]
fn clear_removes_only_the_accounts_rows() {
    let mut m = AuthManager::new();
    m.add_to_watch_history_at(1, 1, "movie", "A", None, None, None, None, 1).unwrap();
    m.add_to_watch_history_at(1, 2, "movie", "B", None, None, None, None, 2).unwrap();
    m.add_to_watch_history_at(2, 3, "movie", "C", None, None, None, None, 3).unwrap();
    m.clear_watch_history(1);
    assert!(m.get_watch_history(1).is_empty());
    assert_eq!(m.get_watch_history(2).len(), 1);
}

#[test]
fn completed_flag_and_progress_update_in_place() {
    let mut m = AuthManager::new();
    m.add_to_watch_history_at(1, 42, "movie", "Example", None, None, None, None, 100).unwrap();
    m.update_watch_progress_at(1, 42, "movie", 3600, true, None, None, 200);
    let rows = m.get_watch_history(1);
    assert_eq!(rows.len(), 1);
    assert_eq!(rows[0].progress_seconds, 3600);
    assert!(rows[0].completed);
    assert_eq!(rows[0].watched_at, 200);
}

#[test]
fn minutes_watched_floors() {
    assert_eq!(minutes_watched(125), 2);
    assert_eq!(minutes_watched(119), 1);
    assert_eq!(minutes_watched(60), 1);
    assert_eq!(minutes_watched(59), 0);
    assert_eq!(minutes_watched(0), 0);
}

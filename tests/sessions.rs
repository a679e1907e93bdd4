use dualmind::models::{Message, Role};
use dualmind::session::{cleanup_old_sessions, SessionStore, SESSION_TIMEOUT_MS, SWEEP_INTERVAL_MS};

fn user(t: &str) -> Message {
    Message::new(Role::User, t.to_string())
}

#[test]
fn get_or_create_then_append_keeps_one_record() {
    let mut store = SessionStore::new(0);
    assert_eq!(store.get_or_create("s1", 10), Vec::<Message>::new());
    store.append_assistant("s1", "answer".to_string());
    let again = store.get_or_create("s1", 20);
    assert_eq!(again, vec![Message::new(Role::Assistant, "answer".to_string())]);
    assert_eq!(store.len(), 1);
    assert!(store.contains("s1"));
}

#[test]
fn repeated_creates_do_not_duplicate() {
    let mut store = SessionStore::new(0);
    for t in 0..5u64 {
        store.get_or_create("same", t);
    }
    store.get_or_create("other", 6);
    assert_eq!(store.len(), 2);
}

#[test]
fn append_to_missing_session_is_a_no_op() {
    let mut store = SessionStore::new(0);
    store.append_assistant("ghost", "x".to_string());
    assert_eq!(store.len(), 0);
    assert_eq!(store.history("ghost"), None);
}

#[test]
fn clear_reports_whether_it_existed() {
    let mut store = SessionStore::new(0);
    store.get_or_create("a", 1);
    store.get_or_create("b", 1);
    assert!(store.clear("a"));
    assert!(!store.clear("a"));
    assert!(!store.contains("a"));
    assert!(store.contains("b"));
}

#[test]
fn sweep_respects_the_idle_window() {
    let t = 1_000u64;
    let mut store = SessionStore::new(0);
    store.get_or_create("s", t);
    let mut kept = SessionStore::new(0);
    kept.get_or_create("s", t);
    kept.sweep(t + SESSION_TIMEOUT_MS - 1, SESSION_TIMEOUT_MS);
    assert!(kept.contains("s"));
    kept.sweep(t + SESSION_TIMEOUT_MS, SESSION_TIMEOUT_MS);
    assert!(kept.contains("s"));
    store.sweep(t + SESSION_TIMEOUT_MS + 1, SESSION_TIMEOUT_MS);
    assert!(!store.contains("s"));
}

#[test]
fn touching_refreshes_last_use() {
    let mut store = SessionStore::new(0);
    store.get_or_create("s", 0);
    store.get_or_create("s", SESSION_TIMEOUT_MS);
    cleanup_old_sessions(&mut store, SESSION_TIMEOUT_MS + 10);
    assert!(store.contains("s"));
    cleanup_old_sessions(&mut store, 2 * SESSION_TIMEOUT_MS + 1);
    assert!(!store.contains("s"));
}

#[test]
fn sweep_gate_runs_once_per_interval() {
    let mut store = SessionStore::new(0);
    store.get_or_create("old", 0);
    assert!(!store.maybe_sweep(SWEEP_INTERVAL_MS));
    assert!(store.maybe_sweep(SWEEP_INTERVAL_MS + 1));
    assert!(store.contains("old"));
    assert!(!store.maybe_sweep(SWEEP_INTERVAL_MS + 2));
    assert!(store.maybe_sweep(SESSION_TIMEOUT_MS + 5));
    assert!(!store.contains("old"));
}

#[test]
fn history_is_a_copy() {
    let mut store = SessionStore::new(0);
    store.get_or_create("s", 0);
    store.append_assistant("s", "one".to_string());
    let mut snap = store.history("s").unwrap();
    snap.push(user("local"));
    assert_eq!(store.history("s").unwrap().len(), 1);
}

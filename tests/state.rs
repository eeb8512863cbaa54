use crawler::state::{is_url_processed, mark_url_processed, SharedState};
use crawler::task::Task;

#[test]
fn state_test_shared_state() {
    let mut state = SharedState::new();

    state.add_url("https://example.com".to_string()).unwrap();
    state.add_visited("https://example.com".to_string()).unwrap();

    assert!(state.is_visited("https://example.com").unwrap_or(false));
    assert!(!state.is_visited("https://example.org").unwrap_or(false));
}

#[test]
fn test_shared_state() {
    let mut state = SharedState::new();

    state.add_url("https://example.com".to_string()).unwrap();
    state.add_visited("https://example.com".to_string()).unwrap();

    assert!(state.is_visited("https://example.com").unwrap_or(false));
    assert!(!state.is_visited("https://example.org").unwrap_or(false));
    assert_eq!(state.get_urls().unwrap(), vec!["https://example.com".to_string()]);
}

#[test]
fn visited_stays_visited() {
    let mut state = SharedState::new();
    state.add_visited("http://a.test/".to_string()).unwrap();
    state.add_url("http://b.test/".to_string()).unwrap();
    state.add_visited("http://c.test/".to_string()).unwrap();
    let _ = state.pop_url();
    state.add_visited("http://a.test/".to_string()).unwrap();
    assert!(state.is_visited("http://a.test/").unwrap());
    assert_eq!(
        state.get_visited().unwrap(),
        vec!["http://a.test/".to_string(), "http://c.test/".to_string()]
    );
}

#[test]
fn added_urls_listed_in_order() {
    let mut state = SharedState::new();
    state.add_url("u1".to_string()).unwrap();
    state.add_urls(vec!["u2".to_string(), "u1".to_string()]).unwrap();
    state.add_url("u3".to_string()).unwrap();
    assert_eq!(
        state.get_urls().unwrap(),
        vec!["u1".to_string(), "u2".to_string(), "u1".to_string(), "u3".to_string()]
    );
    assert_eq!(state.pending(), 4);
    assert_eq!(state.pop_url(), Some("u1".to_string()));
    assert_eq!(state.pop_url(), Some("u2".to_string()));
}

#[test]
fn empty_frontier_pops_nothing() {
    let mut state = SharedState::new();
    assert_eq!(state.pop_url(), None);
    assert!(state.get_urls().unwrap().is_empty());
    assert!(state.get_visited().unwrap().is_empty());
}

#[test]
fn processed_helpers_use_visited_set() {
    let mut state = SharedState::new();
    assert!(!is_url_processed(&state, "http://x.test/"));
    mark_url_processed(&mut state, "http://x.test/".to_string());
    assert!(is_url_processed(&state, "http://x.test/"));
}

#[test]
fn task_carries_its_url() {
    let t = Task::new("http://x.test/".to_string());
    assert_eq!(t.url(), "http://x.test/");
    assert_eq!(t.into_url(), "http://x.test/".to_string());
}

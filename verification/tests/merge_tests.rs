use news_ticker::feed::{FeedItem, FeedState};

fn item(id: &str, title: &str) -> FeedItem {
    FeedItem {
        id: String::from(id),
        title: String::from(title),
        link: String::from("https://example.org/item"),
        description: None,
        published: None,
    }
}

fn ids(state: &FeedState) -> Vec<String> {
    state.items.iter().map(|i| i.id.clone()).collect()
}

#[test]
fn empty_state_starts_blank() {
    let state = FeedState::new();
    assert!(state.all_ids.is_empty());
    assert!(state.unseen_ids.is_empty());
    assert!(state.items.is_empty());
}

#[test]
fn first_fetch_fills_empty_state() {
    let mut state = FeedState::new();
    let batch = vec![item("a", "A"), item("b", "B")];
    let found = state.merge(&batch, false);
    assert!(found);
    assert_eq!(ids(&state), vec!["a".to_string(), "b".to_string()]);
    assert_eq!(state.all_ids, vec!["a".to_string(), "b".to_string()]);
    assert_eq!(state.unseen_ids, vec!["a".to_string(), "b".to_string()]);
}

#[test]
fn pruning_without_preserve_items() {
    let mut state = FeedState::new();
    state.merge(&vec![item("a", "A"), item("b", "B")], false);
    let found = state.merge(&vec![item("b", "B"), item("c", "C")], false);
    assert!(found);
    assert_eq!(ids(&state), vec!["b".to_string(), "c".to_string()]);
    assert_eq!(state.all_ids, vec!["b".to_string(), "c".to_string()]);
}

#[test]
fn growth_with_preserve_items() {
    let mut state = FeedState::new();
    state.merge(&vec![item("a", "A"), item("b", "B")], true);
    let found = state.merge(&vec![item("b", "B"), item("c", "C")], true);
    assert!(found);
    assert_eq!(
        ids(&state),
        vec!["a".to_string(), "b".to_string(), "c".to_string()]
    );
    assert_eq!(
        state.all_ids,
        vec!["a".to_string(), "b".to_string(), "c".to_string()]
    );
}

#[test]
fn merge_is_idempotent_under_preserve() {
    let mut state = FeedState::new();
    let batch = vec![item("a", "A"), item("b", "B")];
    let first = state.merge(&batch, true);
    assert!(first);
    let items_before = ids(&state);
    let all_before = state.all_ids.clone();
    let unseen_before = state.unseen_ids.clone();
    let second = state.merge(&batch, true);
    assert!(!second);
    assert_eq!(ids(&state), items_before);
    assert_eq!(state.all_ids, all_before);
    assert_eq!(state.unseen_ids, unseen_before);
}

#[test]
fn duplicate_ids_in_one_batch_last_wins() {
    let mut state = FeedState::new();
    let batch = vec![item("a", "first"), item("b", "B"), item("a", "second")];
    state.merge(&batch, false);
    assert_eq!(ids(&state), vec!["b".to_string(), "a".to_string()]);
    assert_eq!(state.items[1].title, "second");
}

#[test]
fn no_duplicates_across_repeated_fetches() {
    let mut state = FeedState::new();
    state.merge(&vec![item("a", "A")], true);
    state.merge(&vec![item("a", "A"), item("b", "B")], true);
    state.merge(&vec![item("b", "B"), item("a", "A")], true);
    let mut seen = ids(&state);
    seen.sort();
    seen.dedup();
    assert_eq!(seen.len(), state.items.len());
    let mut all = state.all_ids.clone();
    all.sort();
    all.dedup();
    assert_eq!(all.len(), state.all_ids.len());
}

#[test]
fn unseen_ids_drop_what_left_upstream() {
    let mut state = FeedState::new();
    state.merge(&vec![item("a", "A"), item("b", "B")], true);
    // "a" is no longer present upstream: it leaves unseen_ids; "c" is new.
    state.merge(&vec![item("b", "B"), item("c", "C")], true);
    assert_eq!(state.unseen_ids, vec!["b".to_string(), "c".to_string()]);
}

#[test]
fn unchanged_fetch_reports_nothing_new() {
    let mut state = FeedState::new();
    state.merge(&vec![item("a", "A")], false);
    let found = state.merge(&vec![item("a", "A")], false);
    assert!(!found);
}

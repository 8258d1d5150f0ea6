use wortify::{step, LoadAction, LoadEvent, LoadState};

fn delivered(action: LoadAction) -> (Vec<String>, Option<String>) {
    match action {
        LoadAction::Deliver { dataset, warning } => (
            dataset.iter().map(|w| w.as_str().to_string()).collect(),
            warning.map(|e| e.reason),
        ),
        _ => panic!("expected a dataset"),
    }
}

#[test]
fn cache_hit_delivers_without_fetch() {
    let (state, action) = step(
        LoadState::start(),
        LoadEvent::CacheHit { raw: "Apfel\nbirne\n".to_string() },
    );
    assert!(matches!(state, LoadState::Finished));
    let (words, warning) = delivered(action);
    assert_eq!(words, vec!["apfel", "birne"]);
    assert!(warning.is_none());
}

#[test]
fn cache_miss_fetches_then_persists_then_delivers() {
    let (state, action) = step(LoadState::start(), LoadEvent::CacheMiss);
    assert!(matches!(state, LoadState::Fetching));
    assert!(matches!(action, LoadAction::Fetch));

    let (state, action) = step(state, LoadEvent::Fetched { raw: "Kiwi\n".to_string() });
    assert!(matches!(&state, LoadState::Persisting { raw } if raw == "Kiwi\n"));
    assert!(matches!(&action, LoadAction::Persist { raw } if raw == "Kiwi\n"));

    let (state, action) = step(state, LoadEvent::Persisted);
    assert!(matches!(state, LoadState::Finished));
    let (words, warning) = delivered(action);
    assert_eq!(words, vec!["kiwi"]);
    assert!(warning.is_none());
}

#[test]
fn failed_fetch_aborts() {
    let (state, action) = step(
        LoadState::Fetching,
        LoadEvent::FetchFailed { reason: "offline".to_string() },
    );
    assert!(matches!(state, LoadState::Finished));
    assert!(matches!(&action, LoadAction::Abort { error } if error.reason == "offline"));
}

#[test]
fn failed_persist_still_delivers_with_warning() {
    let (state, action) = step(
        LoadState::Persisting { raw: "Kiwi\nNuss".to_string() },
        LoadEvent::PersistFailed { reason: "read-only".to_string() },
    );
    assert!(matches!(state, LoadState::Finished));
    let (words, warning) = delivered(action);
    assert_eq!(words, vec!["kiwi", "nuss"]);
    assert_eq!(warning, Some("read-only".to_string()));
}

#[test]
fn unexpected_event_is_ignored() {
    let (state, action) = step(LoadState::Finished, LoadEvent::CacheMiss);
    assert!(matches!(state, LoadState::Finished));
    assert!(matches!(action, LoadAction::Ignore));
    let (state, action) = step(LoadState::start(), LoadEvent::Persisted);
    assert!(matches!(state, LoadState::LookingUp));
    assert!(matches!(action, LoadAction::Ignore));
}

use mdwatch::registry::{
    attach_failure_error, AttachFailure, StartDecision, WatchError, WatchRegistry,
};

#[test]
fn start_validates_before_anything_else() {
    let reg = WatchRegistry::new();
    let d = reg.plan_start(&"/missing".to_string(), false, false);
    assert_eq!(d, StartDecision::Rejected { error: WatchError::PathNotFound });
    let d = reg.plan_start(&"/a/file.md".to_string(), true, false);
    assert_eq!(d, StartDecision::Rejected { error: WatchError::NotADirectory });
}

#[test]
fn starting_twice_reuses_the_watch() {
    // The same canonical path started twice yields the same id and only one
    // attachment: the second plan never asks for one.
    let mut reg = WatchRegistry::new();
    let root = "/projects/notes".to_string();
    assert_eq!(reg.plan_start(&root, true, true), StartDecision::ReadyToAttach);
    let id = reg.confirm_start(root.clone());
    assert_eq!(reg.plan_start(&root, true, true), StartDecision::AlreadyWatching { id });
    assert_eq!(reg.active_count(), 1);
}

#[test]
fn distinct_roots_get_distinct_ids() {
    let mut reg = WatchRegistry::new();
    let a = reg.confirm_start("/a".to_string());
    let b = reg.confirm_start("/b".to_string());
    assert_ne!(a, b);
    assert_eq!(reg.active_count(), 2);
    assert!(reg.watched(&"/a".to_string()));
    assert!(reg.watched(&"/b".to_string()));
}

#[test]
fn stop_on_unwatched_path_is_notwatching_without_side_effects() {
    let mut reg = WatchRegistry::new();
    let never = "/never/started".to_string();
    assert_eq!(reg.stop(&never), Err(WatchError::NotWatching));
    assert_eq!(reg.active_count(), 0);

    let root = "/tree".to_string();
    reg.confirm_start(root.clone());
    assert_eq!(reg.stop(&never), Err(WatchError::NotWatching));
    assert_eq!(reg.active_count(), 1);
}

#[test]
fn stop_removes_exactly_the_stopped_watch() {
    let mut reg = WatchRegistry::new();
    let a = "/a".to_string();
    let b = "/b".to_string();
    let id_a = reg.confirm_start(a.clone());
    reg.confirm_start(b.clone());
    assert_eq!(reg.stop(&a), Ok(id_a));
    assert!(!reg.watched(&a));
    assert!(reg.watched(&b));
    // Stopping an already-stopped path is the benign NotWatching again.
    assert_eq!(reg.stop(&a), Err(WatchError::NotWatching));
}

#[test]
fn stop_all_drains_every_watch_in_order() {
    let mut reg = WatchRegistry::new();
    let a = reg.confirm_start("/a".to_string());
    let b = reg.confirm_start("/b".to_string());
    let c = reg.confirm_start("/c".to_string());
    let ids = reg.stop_all();
    assert_eq!(ids, vec![a, b, c]);
    assert_eq!(reg.active_count(), 0);
}

#[test]
fn ids_are_not_reused_after_stop() {
    let mut reg = WatchRegistry::new();
    let root = "/tree".to_string();
    let first = reg.confirm_start(root.clone());
    assert_eq!(reg.stop(&root), Ok(first));
    let second = reg.confirm_start(root.clone());
    assert_ne!(first, second);
}

#[test]
fn attach_failures_map_to_their_start_errors() {
    assert_eq!(attach_failure_error(AttachFailure::AccessDenied), WatchError::PermissionDenied);
    assert_eq!(attach_failure_error(AttachFailure::LimitExceeded), WatchError::WatchLimitExceeded);
    assert_eq!(attach_failure_error(AttachFailure::RootMissing), WatchError::PathNotFound);
}

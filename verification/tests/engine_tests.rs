use mdwatch::engine::{DebounceEngine, Notification, StepEffect, WatchEvent};
use mdwatch::filter::PathFilter;

fn engine_for(root: &str) -> DebounceEngine {
    DebounceEngine::new(root.to_string(), PathFilter::markdown())
}

fn raw(path: &str) -> WatchEvent {
    WatchEvent::RawChange { path: path.to_string() }
}

fn assert_silent(eff: &StepEffect) {
    assert!(eff.delivery.is_none());
    assert!(!eff.release_source);
}

#[test]
fn raw_event_arms_timer_and_delivers_nothing() {
    let mut e = engine_for("/tree");
    let eff = e.on_event(raw("/tree/a.md"));
    assert!(eff.arm_timer);
    assert!(!eff.release_source);
    assert!(eff.delivery.is_none());
}

#[test]
fn burst_on_one_path_coalesces_to_single_mention() {
    let mut e = engine_for("/tree");
    for _ in 0..5 {
        let eff = e.on_event(raw("/tree/a.md"));
        assert!(eff.arm_timer);
        assert!(eff.delivery.is_none());
    }
    let eff = e.on_event(WatchEvent::TimerElapsed);
    assert!(!eff.arm_timer);
    assert_eq!(
        eff.delivery,
        Some(Notification::Changed {
            watch_root: "/tree".to_string(),
            paths: vec!["/tree/a.md".to_string()],
        })
    );
}

#[test]
fn scenario_mixed_burst_reports_only_markdown_once() {
    // Start a watch on D; within the window create D/a.md, modify D/a.md,
    // create D/b.txt; after the quiet period exactly one notification with
    // ["D/a.md"] is delivered.
    let mut e = engine_for("D");
    assert_silent(&e.on_event(raw("D/a.md")));
    assert_silent(&e.on_event(raw("D/a.md")));
    assert_silent(&e.on_event(raw("D/b.txt")));
    let eff = e.on_event(WatchEvent::TimerElapsed);
    assert_eq!(
        eff.delivery,
        Some(Notification::Changed {
            watch_root: "D".to_string(),
            paths: vec!["D/a.md".to_string()],
        })
    );
    // And the flush emptied the accumulator: a further quiet period is silent.
    let eff = e.on_event(WatchEvent::TimerElapsed);
    assert!(eff.delivery.is_none());
}

#[test]
fn quiet_watch_never_notifies() {
    // Debounce is quiet-period, not periodic: with no events, the window
    // elapsing delivers nothing.
    let mut e = engine_for("D");
    let eff = e.on_event(WatchEvent::TimerElapsed);
    assert!(eff.delivery.is_none());
    assert!(!eff.arm_timer);
    assert!(!eff.release_source);
}

#[test]
fn fully_filtered_burst_delivers_nothing() {
    let mut e = engine_for("D");
    assert_silent(&e.on_event(raw("D/b.txt")));
    assert_silent(&e.on_event(raw("D/c.rs")));
    let eff = e.on_event(WatchEvent::TimerElapsed);
    assert!(eff.delivery.is_none());
}

#[test]
fn distinct_paths_all_reported_in_order() {
    let mut e = engine_for("D");
    assert_silent(&e.on_event(raw("D/a.md")));
    assert_silent(&e.on_event(raw("D/b.md")));
    assert_silent(&e.on_event(raw("D/a.md")));
    let eff = e.on_event(WatchEvent::TimerElapsed);
    assert_eq!(
        eff.delivery,
        Some(Notification::Changed {
            watch_root: "D".to_string(),
            paths: vec!["D/a.md".to_string(), "D/b.md".to_string()],
        })
    );
}

#[test]
fn cancel_releases_source_and_silences_watch() {
    let mut e = engine_for("D");
    assert_silent(&e.on_event(raw("D/a.md")));
    let eff = e.on_event(WatchEvent::CancelRequested);
    assert!(eff.release_source);
    assert!(eff.delivery.is_none());
    assert!(!eff.arm_timer);
    // Events in flight at cancellation are discarded, never delivered.
    let eff = e.on_event(raw("D/a.md"));
    assert!(eff.delivery.is_none());
    assert!(!eff.arm_timer);
    assert!(!eff.release_source);
    let eff = e.on_event(WatchEvent::TimerElapsed);
    assert!(eff.delivery.is_none());
}

#[test]
fn source_error_reports_failure_once_and_stops() {
    let mut e = engine_for("D");
    assert_silent(&e.on_event(raw("D/a.md")));
    let eff = e.on_event(WatchEvent::SourceError { reason: "device removed".to_string() });
    assert!(eff.release_source);
    assert_eq!(
        eff.delivery,
        Some(Notification::WatchFailed {
            watch_root: "D".to_string(),
            reason: "device removed".to_string(),
        })
    );
    // The watch is not auto-restarted: everything after the failure is silent.
    let eff = e.on_event(raw("D/a.md"));
    assert!(eff.delivery.is_none());
    let eff = e.on_event(WatchEvent::TimerElapsed);
    assert!(eff.delivery.is_none());
}

#[test]
fn watch_root_is_kept() {
    let e = engine_for("/somewhere/deep");
    assert_eq!(e.watch_root(), "/somewhere/deep");
}

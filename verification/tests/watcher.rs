use zvec_grep::domain::WorkspaceChange;
use zvec_grep::watcher::{
    normalize_config, normalize_event, retry_delay, EventPath, NativeWatcherConfig, RawEventKind, WatchEvent, WatchLoopState,
};

#[test]
fn retry_delay_doubles_from_100ms_up_to_5s() {
    assert_eq!(retry_delay(0), 100);
    assert_eq!(retry_delay(1), 100);
    assert_eq!(retry_delay(2), 200);
    assert_eq!(retry_delay(3), 400);
    assert_eq!(retry_delay(6), 3200);
    assert_eq!(retry_delay(7), 5000);
    assert_eq!(retry_delay(u32::MAX), 5000);
    let mut previous = 0;
    for errors in 0..40 {
        let delay = retry_delay(errors);
        assert!((100..=5000).contains(&delay));
        assert!(delay >= previous);
        previous = delay;
    }
}

#[test]
fn default_config_and_normalization() {
    let config = NativeWatcherConfig::new();
    assert_eq!(config.debounce_ms, 750);
    assert_eq!(config.max_wait_ms, 5000);
    let mut zero = NativeWatcherConfig::new();
    zero.max_changed_paths = 0;
    zero.raw_event_capacity = 0;
    zero.batch_capacity = 0;
    let normalized = normalize_config(zero);
    assert_eq!(normalized.max_changed_paths, 1);
    assert_eq!(normalized.raw_event_capacity, 1);
    assert_eq!(normalized.batch_capacity, 1);
}

#[test]
fn a_stream_of_changes_cannot_postpone_the_maximum_wait() {
    let config = NativeWatcherConfig::new();
    let mut state = WatchLoopState::new(&config, 1_000);
    state.step(&config, WatchEvent::ChangesAdded { now: 1_000, pending: true });
    assert_eq!(state.debounce_deadline, Some(1_750));
    assert_eq!(state.max_wait_deadline, Some(6_000));
    state.step(&config, WatchEvent::ChangesAdded { now: 3_000, pending: true });
    assert_eq!(state.debounce_deadline, Some(3_750));
    assert_eq!(state.max_wait_deadline, Some(6_000));
    let effects = state.step(&config, WatchEvent::MaxWaitElapsed);
    assert!(effects.flush);
    let after = state.step(&config, WatchEvent::Flushed { delivered: true });
    assert!(!after.stop);
    assert_eq!(state.debounce_deadline, None);
    assert_eq!(state.max_wait_deadline, None);
}

#[test]
fn loop_stops_on_close_and_failed_delivery() {
    let config = NativeWatcherConfig::new();
    let mut state = WatchLoopState::new(&config, 0);
    assert!(state.step(&config, WatchEvent::Closed).stop);
    assert!(state.step(&config, WatchEvent::RawChannelClosed).stop);
    assert!(state.step(&config, WatchEvent::Flushed { delivered: false }).stop);
    assert!(!state.step(&config, WatchEvent::DebounceElapsed).stop);
}

#[test]
fn backend_failure_drops_the_watcher_and_schedules_a_retry_and_rescan() {
    let config = NativeWatcherConfig::new();
    let mut state = WatchLoopState::new(&config, 0);
    let effects = state.step(&config, WatchEvent::BackendFailed { now: 10 });
    assert!(effects.drop_watcher);
    assert!(effects.full_rescan);
    assert!(!state.watcher_active);
    assert_eq!(state.consecutive_errors, 1);
    assert_eq!(state.retry_deadline, Some(110));
    let second = state.step(&config, WatchEvent::BackendFailed { now: 20 });
    assert!(!second.full_rescan);
    assert_eq!(state.retry_deadline, Some(220));
    assert!(state.step(&config, WatchEvent::RetryElapsed).create_watcher);
    state.step(&config, WatchEvent::WatcherCreated { now: 300, ok: true });
    assert!(state.watcher_active);
    assert_eq!(state.stable_deadline, Some(1_300));
    state.step(&config, WatchEvent::StableElapsed);
    assert_eq!(state.consecutive_errors, 0);
}

fn event_path(path: &str, exists: bool, is_dir: bool) -> EventPath {
    EventPath { path: path.to_string(), exists, is_dir, can_affect: true }
}

#[test]
fn raw_events_become_workspace_changes() {
    let root = "/repo";
    assert!(normalize_event(root, false, RawEventKind::Access, &vec![event_path("/repo/a.rs", true, false)]).is_empty());
    assert_eq!(normalize_event(root, false, RawEventKind::Any, &Vec::new()), vec![WorkspaceChange::Rescan]);
    assert_eq!(
        normalize_event(root, false, RawEventKind::Modify, &vec![event_path("/repo/src/a.rs", true, false)]),
        vec![WorkspaceChange::Upsert("src/a.rs".to_string())]
    );
    assert_eq!(
        normalize_event(root, false, RawEventKind::RemoveFile, &vec![event_path("/repo/src/a.rs", false, false)]),
        vec![WorkspaceChange::Delete("src/a.rs".to_string())]
    );
    assert_eq!(
        normalize_event(root, false, RawEventKind::Create, &vec![event_path("/elsewhere/a.rs", true, false)]),
        Vec::<WorkspaceChange>::new()
    );
}

#[test]
fn watch_sessions_stop_when_cancelled_or_past_their_deadline() {
    use_check(true, 0, None, Err(zvec_grep::errors::EngineError::Cancelled));
    use_check(false, 5, Some(5), Err(zvec_grep::errors::EngineError::DeadlineExceeded));
    use_check(false, 4, Some(5), Ok(()));
}

fn use_check(cancelled: bool, now: u64, deadline: Option<u64>, expected: Result<(), zvec_grep::errors::EngineError>) {
    assert_eq!(zvec_grep::watcher::check_control(cancelled, now, deadline), expected);
}

#[test]
fn a_batch_flushes_within_the_maximum_wait_of_the_first_change() {
    let config = NativeWatcherConfig::new();
    let mut state = WatchLoopState::new(&config, 1_000);
    state.step(&config, WatchEvent::ChangesAdded { now: 1_000, pending: true });
    assert_eq!(state.max_wait_deadline, Some(6_000));
    state.step(&config, WatchEvent::ReconcileElapsed { now: 2_000 });
    state.step(&config, WatchEvent::OverflowNotified { now: 2_500, overflowed: true });
    state.step(&config, WatchEvent::BackendFailed { now: 3_000 });
    state.step(&config, WatchEvent::ChangesAdded { now: 5_900, pending: true });
    assert_eq!(state.max_wait_deadline, Some(6_000));
    assert!(state.step(&config, WatchEvent::MaxWaitElapsed).flush);
}

#[test]
fn nothing_pending_sends_no_batch() {
    let config = NativeWatcherConfig::new();
    let mut state = WatchLoopState::new(&config, 0);
    state.step(&config, WatchEvent::ChangesAdded { now: 10, pending: false });
    assert!(!state.pending);
    let effects = state.step(&config, WatchEvent::DebounceElapsed);
    assert!(!effects.flush);
    assert_eq!(state.debounce_deadline, None);
    assert_eq!(state.max_wait_deadline, None);
    state.step(&config, WatchEvent::ChangesAdded { now: 20, pending: true });
    let effects = state.step(&config, WatchEvent::DebounceElapsed);
    assert!(effects.flush);
    assert!(!effects.rescan_batch);
    state.step(&config, WatchEvent::Flushed { delivered: true });
    assert!(!state.pending);
    assert!(!state.step(&config, WatchEvent::MaxWaitElapsed).flush);
}

#[test]
fn an_overflow_is_sent_as_a_single_rescan_within_the_maximum_wait() {
    let config = NativeWatcherConfig::new();
    let mut state = WatchLoopState::new(&config, 0);
    let effects = state.step(&config, WatchEvent::OverflowNotified { now: 100, overflowed: true });
    assert!(effects.full_rescan);
    assert!(state.pending);
    assert!(state.rescan_pending);
    assert_eq!(state.max_wait_deadline, Some(5_100));
    state.step(&config, WatchEvent::ChangesAdded { now: 4_000, pending: true });
    assert_eq!(state.max_wait_deadline, Some(5_100));
    let flush = state.step(&config, WatchEvent::MaxWaitElapsed);
    assert!(flush.flush);
    assert!(flush.rescan_batch);
    state.step(&config, WatchEvent::Flushed { delivered: true });
    assert!(!state.rescan_pending);
    assert!(!state.step(&config, WatchEvent::OverflowNotified { now: 6_000, overflowed: false }).full_rescan);
    assert!(!state.pending);
}

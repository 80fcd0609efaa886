//! The native watch loop as a state machine: debounced and capped flushes, periodic full
//! rescans, recovery of a failed backend with backoff; and how raw filesystem events
//! become workspace changes.
use vstd::prelude::*;

verus! {

/// Settings of a native watch session; durations are in milliseconds.
#[derive(Debug, PartialEq, Eq)]
pub struct NativeWatcherConfig {
    pub debounce_ms: u64,
    pub max_wait_ms: u64,
    pub reconcile_interval_ms: Option<u64>,
    pub resume_check_interval_ms: Option<u64>,
    pub resume_threshold_ms: u64,
    pub max_changed_paths: usize,
    pub raw_event_capacity: usize,
    pub batch_capacity: usize,
    /// Uses the polling backend with this interval when set; the native backend otherwise.
    pub poll_interval_ms: Option<u64>,
}

/// The default watch settings (see [`NativeWatcherConfig::new`]).
pub open spec fn default_watcher_config() -> NativeWatcherConfig {
    NativeWatcherConfig {
        debounce_ms: 750,
        max_wait_ms: 5000,
        reconcile_interval_ms: Some(3600000u64),
        resume_check_interval_ms: Some(30000u64),
        resume_threshold_ms: 90000,
        max_changed_paths: 1000,
        raw_event_capacity: 4096,
        batch_capacity: 16,
        poll_interval_ms: None,
    }
}

impl NativeWatcherConfig {
    /// The default settings: 750 ms debounce, 5 s maximum wait, hourly reconcile, a resume
    /// check every 30 s with a 90 s threshold, 1000 changed paths, 4096 raw events, 16
    /// batches, native backend.
    pub fn new() -> (c: NativeWatcherConfig)
        ensures
            c.debounce_ms == 750,
            c.max_wait_ms == 5000,
            c.reconcile_interval_ms == Some(3600000u64),
            c.resume_check_interval_ms == Some(30000u64),
            c.resume_threshold_ms == 90000,
            c.max_changed_paths == 1000,
            c.raw_event_capacity == 4096,
            c.batch_capacity == 16,
            c.poll_interval_ms is None,
            c == default_watcher_config(),
    {
        NativeWatcherConfig {
            debounce_ms: 750,
            max_wait_ms: 5000,
            reconcile_interval_ms: Some(3600000),
            resume_check_interval_ms: Some(30000),
            resume_threshold_ms: 90000,
            max_changed_paths: 1000,
            raw_event_capacity: 4096,
            batch_capacity: 16,
            poll_interval_ms: None,
        }
    }
}

/// Raises the path limit and both channel capacities to at least one.
pub fn normalize_config(config: NativeWatcherConfig) -> (c: NativeWatcherConfig)
    ensures
        c.max_changed_paths == (if config.max_changed_paths < 1 { 1 } else { config.max_changed_paths }),
        c.raw_event_capacity == (if config.raw_event_capacity < 1 { 1 } else { config.raw_event_capacity }),
        c.batch_capacity == (if config.batch_capacity < 1 { 1 } else { config.batch_capacity }),
        c.debounce_ms == config.debounce_ms,
        c.max_wait_ms == config.max_wait_ms,
        c.reconcile_interval_ms == config.reconcile_interval_ms,
        c.resume_check_interval_ms == config.resume_check_interval_ms,
        c.resume_threshold_ms == config.resume_threshold_ms,
        c.poll_interval_ms == config.poll_interval_ms,
{
    let mut c = config;
    if c.max_changed_paths < 1 {
        c.max_changed_paths = 1;
    }
    if c.raw_event_capacity < 1 {
        c.raw_event_capacity = 1;
    }
    if c.batch_capacity < 1 {
        c.batch_capacity = 1;
    }
    c
}

/// Creates native watch sessions with one configuration.
#[derive(Debug, PartialEq, Eq)]
pub struct NativeWatcherFactory {
    pub ripgrep_executable: String,
    pub config: NativeWatcherConfig,
}

impl NativeWatcherFactory {
    /// A factory resolving file types with the given ripgrep executable, with default settings.
    pub fn new(ripgrep_executable: &str) -> (f: NativeWatcherFactory)
        ensures
            f.ripgrep_executable@ == ripgrep_executable@,
            f.config == default_watcher_config(),
    {
        NativeWatcherFactory { ripgrep_executable: ripgrep_executable.to_owned(), config: NativeWatcherConfig::new() }
    }

    /// The same factory with other settings.
    pub fn with_config(self, config: NativeWatcherConfig) -> (f: NativeWatcherFactory)
        ensures
            f.ripgrep_executable == self.ripgrep_executable,
            f.config == config,
    {
        NativeWatcherFactory { ripgrep_executable: self.ripgrep_executable, config }
    }
}

/// `2^e`.
pub open spec fn pow2(e: nat) -> nat
    decreases e,
{
    if e == 0 { 1 } else { 2 * pow2((e - 1) as nat) }
}

/// The backoff before retrying a failed backend after `errors` consecutive failures:
/// 100 ms doubled per earlier failure (at most six doublings), capped at 5 s.
pub open spec fn retry_delay_spec(errors: u32) -> nat {
    let e: nat = if errors == 0 { 0 } else if errors - 1 > 6 { 6 } else { (errors - 1) as nat };
    if 100 * pow2(e) > 5000 { 5000 } else { 100 * pow2(e) }
}

/// The backoff before retrying a failed backend.
pub fn retry_delay(consecutive_errors: u32) -> (ms: u64)
    ensures
        ms == retry_delay_spec(consecutive_errors),
{
    let e: u32 = if consecutive_errors == 0 { 0 } else if consecutive_errors - 1 > 6 { 6 } else { consecutive_errors - 1 };
    let mut p: u64 = 1;
    let mut k: u32 = 0;
    while k < e
        invariant
            k <= e <= 6,
            p == pow2(k as nat),
            p <= 64,
        decreases e - k,
    {
        proof {
            assert(pow2((k + 1) as nat) == 2 * pow2(k as nat));
            if k == 0 { assert(pow2(1) == 2) by { reveal_with_fuel(pow2, 2); } }
            if k <= 5 {
                assert(pow2(k as nat) <= 32) by {
                    reveal_with_fuel(pow2, 7);
                }
            }
        }
        p = p * 2;
        k += 1;
    }
    if 100 * p > 5000 { 5000 } else { 100 * p }
}

/// Deadlines and recovery state of a watch loop; times are milliseconds on a monotonic clock.
#[derive(Debug, PartialEq, Eq)]
pub struct WatchLoopState {
    pub debounce_deadline: Option<u64>,
    pub max_wait_deadline: Option<u64>,
    pub reconcile_deadline: Option<u64>,
    pub resume_deadline: Option<u64>,
    pub last_resume_check: u64,
    pub retry_deadline: Option<u64>,
    pub stable_deadline: Option<u64>,
    pub consecutive_errors: u32,
    pub recovery_reconcile_pending: bool,
    pub watcher_active: bool,
    /// Changes wait to be sent.
    pub pending: bool,
    /// The waiting changes are a full rescan: the next batch is the single `Rescan` change.
    pub rescan_pending: bool,
}

/// What every reachable loop state keeps: a maximum-wait deadline is set only while
/// changes wait, and a waiting full rescan is a waiting change.
pub open spec fn pending_consistent(s: WatchLoopState) -> bool {
    &&& s.max_wait_deadline is Some ==> s.pending
    &&& s.rescan_pending ==> s.pending
}

/// How long a recreated backend must run before its failures are forgotten.
pub const STABLE_AFTER_MS: u64 = 1000;

/// Every deadline a step may set from `now` fits the clock.
pub open spec fn time_fits(c: NativeWatcherConfig, now: u64) -> bool {
    &&& now + c.debounce_ms <= u64::MAX
    &&& now + c.max_wait_ms <= u64::MAX
    &&& (c.reconcile_interval_ms matches Some(i) ==> now + i <= u64::MAX)
    &&& (c.resume_check_interval_ms matches Some(i) ==> now + i <= u64::MAX)
    &&& now + 5000 <= u64::MAX
    &&& now + STABLE_AFTER_MS <= u64::MAX
}

/// Something that happened to a watch loop. The driver reports the current time with
/// each event that sets a deadline.
#[derive(Clone, Copy, Debug, PartialEq, Eq)]
pub enum WatchEvent {
    /// The session was closed.
    Closed,
    /// The debounce deadline passed.
    DebounceElapsed,
    /// The maximum-wait deadline passed.
    MaxWaitElapsed,
    /// A requested flush ended; `delivered` is false when the batch could not be sent.
    Flushed { delivered: bool },
    ReconcileElapsed { now: u64 },
    ResumeCheckElapsed { now: u64 },
    StableElapsed,
    RetryElapsed,
    /// A requested backend creation ended.
    WatcherCreated { now: u64, ok: bool },
    /// The event queue overflowed (`overflowed`: the overflow flag was set and is now cleared).
    OverflowNotified { now: u64, overflowed: bool },
    /// A raw event's changes were added; `pending` tells whether changes now wait.
    ChangesAdded { now: u64, pending: bool },
    /// Normalizing a raw event failed.
    EventWorkerFailed { now: u64 },
    /// The backend reported an error.
    BackendFailed { now: u64 },
    /// The raw event channel closed.
    RawChannelClosed,
}

/// What the driver must do after a step.
#[derive(Clone, Copy, Debug, PartialEq, Eq)]
pub struct WatchEffects {
    /// End the loop (and drop the backend).
    pub stop: bool,
    /// Send the pending changes as one batch, then report `Flushed`.
    pub flush: bool,
    /// Mark the pending changes as a full rescan.
    pub full_rescan: bool,
    /// Try to create the backend again, then report `WatcherCreated`.
    pub create_watcher: bool,
    /// Drop the failed backend.
    pub drop_watcher: bool,
    /// The batch to send (with `flush`) is the single `Rescan` change.
    pub rescan_batch: bool,
}

/// No effect.
pub open spec fn no_effects() -> WatchEffects {
    WatchEffects { stop: false, flush: false, full_rescan: false, create_watcher: false, drop_watcher: false, rescan_batch: false }
}

/// An offset from `now` if an interval is set.
pub open spec fn after(now: u64, interval: Option<u64>) -> Option<u64> {
    match interval {
        Some(i) => Some((now + i) as u64),
        None => None,
    }
}

/// The initial state of a loop started at `now` with a fresh backend.
pub open spec fn initial_state(c: NativeWatcherConfig, now: u64) -> WatchLoopState {
    WatchLoopState {
        debounce_deadline: None,
        max_wait_deadline: None,
        reconcile_deadline: after(now, c.reconcile_interval_ms),
        resume_deadline: after(now, c.resume_check_interval_ms),
        last_resume_check: now,
        retry_deadline: None,
        stable_deadline: Some((now + STABLE_AFTER_MS) as u64),
        consecutive_errors: 0,
        recovery_reconcile_pending: false,
        watcher_active: true,
        pending: false,
        rescan_pending: false,
    }
}

/// Schedules a flush: the debounce deadline restarts, the maximum-wait deadline is kept if
/// set (so a stream of changes cannot postpone it), else it starts now.
pub open spec fn scheduled(c: NativeWatcherConfig, s: WatchLoopState, now: u64) -> WatchLoopState {
    WatchLoopState {
        debounce_deadline: Some((now + c.debounce_ms) as u64),
        max_wait_deadline: match s.max_wait_deadline {
            Some(d) => Some(d),
            None => Some((now + c.max_wait_ms) as u64),
        },
        ..s
    }
}

/// Marks the waiting changes as a full rescan and schedules their flush.
pub open spec fn rescan_scheduled(c: NativeWatcherConfig, s: WatchLoopState, now: u64) -> WatchLoopState {
    WatchLoopState { pending: true, rescan_pending: true, ..scheduled(c, s, now) }
}

/// A deadline to flush passed: with changes waiting, they are sent as one batch (the single
/// `Rescan` change when a full rescan is waiting); with none, no batch is sent and both
/// flush deadlines are cleared.
pub open spec fn flush_due(s: WatchLoopState) -> (WatchLoopState, WatchEffects) {
    if s.pending {
        (s, WatchEffects { flush: true, rescan_batch: s.rescan_pending, ..no_effects() })
    } else {
        (WatchLoopState { debounce_deadline: None, max_wait_deadline: None, ..s }, no_effects())
    }
}

/// One step of the watch loop.
pub open spec fn watch_step_spec(c: NativeWatcherConfig, s: WatchLoopState, e: WatchEvent) -> (WatchLoopState, WatchEffects) {
    match e {
        WatchEvent::Closed => (s, WatchEffects { stop: true, ..no_effects() }),
        WatchEvent::DebounceElapsed => flush_due(s),
        WatchEvent::MaxWaitElapsed => flush_due(s),
        WatchEvent::Flushed { delivered } => if delivered {
            (
                WatchLoopState { debounce_deadline: None, max_wait_deadline: None, pending: false, rescan_pending: false, ..s },
                no_effects(),
            )
        } else {
            (s, WatchEffects { stop: true, ..no_effects() })
        },
        WatchEvent::ReconcileElapsed { now } => (
            WatchLoopState { reconcile_deadline: after(now, c.reconcile_interval_ms), ..rescan_scheduled(c, s, now) },
            WatchEffects { full_rescan: true, ..no_effects() },
        ),
        WatchEvent::ResumeCheckElapsed { now } => {
            let slept = now > s.last_resume_check && now - s.last_resume_check > c.resume_threshold_ms;
            let base = if slept { rescan_scheduled(c, s, now) } else { s };
            (
                WatchLoopState { last_resume_check: now, resume_deadline: after(now, c.resume_check_interval_ms), ..base },
                WatchEffects { full_rescan: slept, ..no_effects() },
            )
        },
        WatchEvent::StableElapsed => (
            WatchLoopState { consecutive_errors: 0, recovery_reconcile_pending: false, stable_deadline: None, ..s },
            no_effects(),
        ),
        WatchEvent::RetryElapsed => (s, WatchEffects { create_watcher: true, ..no_effects() }),
        WatchEvent::WatcherCreated { now, ok } => if ok {
            (
                WatchLoopState { watcher_active: true, retry_deadline: None, stable_deadline: Some((now + STABLE_AFTER_MS) as u64), ..s },
                no_effects(),
            )
        } else {
            let errors: u32 = if s.consecutive_errors == u32::MAX { u32::MAX } else { (s.consecutive_errors + 1) as u32 };
            (
                WatchLoopState { consecutive_errors: errors, retry_deadline: Some((now + retry_delay_spec(errors)) as u64), ..s },
                no_effects(),
            )
        },
        WatchEvent::OverflowNotified { now, overflowed } => if overflowed {
            (rescan_scheduled(c, s, now), WatchEffects { full_rescan: true, ..no_effects() })
        } else {
            (s, no_effects())
        },
        WatchEvent::ChangesAdded { now, pending } => if pending {
            (WatchLoopState { pending: true, ..scheduled(c, s, now) }, no_effects())
        } else {
            (s, no_effects())
        },
        WatchEvent::EventWorkerFailed { now } => (rescan_scheduled(c, s, now), WatchEffects { full_rescan: true, ..no_effects() }),
        WatchEvent::BackendFailed { now } => {
            let errors: u32 = if s.consecutive_errors == u32::MAX { u32::MAX } else { (s.consecutive_errors + 1) as u32 };
            let failed = WatchLoopState {
                watcher_active: false,
                consecutive_errors: errors,
                stable_deadline: None,
                retry_deadline: Some((now + retry_delay_spec(errors)) as u64),
                ..s
            };
            if s.recovery_reconcile_pending {
                (failed, WatchEffects { drop_watcher: true, ..no_effects() })
            } else {
                (
                    WatchLoopState { recovery_reconcile_pending: true, ..rescan_scheduled(c, failed, now) },
                    WatchEffects { drop_watcher: true, full_rescan: true, ..no_effects() },
                )
            }
        },
        WatchEvent::RawChannelClosed => (s, WatchEffects { stop: true, ..no_effects() }),
    }
}

/// The time an event carries, if any.
pub open spec fn event_time(e: WatchEvent) -> Option<u64> {
    match e {
        WatchEvent::ReconcileElapsed { now } => Some(now),
        WatchEvent::ResumeCheckElapsed { now } => Some(now),
        WatchEvent::WatcherCreated { now, .. } => Some(now),
        WatchEvent::OverflowNotified { now, .. } => Some(now),
        WatchEvent::ChangesAdded { now, .. } => Some(now),
        WatchEvent::EventWorkerFailed { now } => Some(now),
        WatchEvent::BackendFailed { now } => Some(now),
        _ => None,
    }
}

impl WatchLoopState {
    /// The state of a loop started at `now`.
    pub fn new(config: &NativeWatcherConfig, now: u64) -> (s: WatchLoopState)
        requires
            time_fits(*config, now),
        ensures
            s == initial_state(*config, now),
    {
        WatchLoopState {
            debounce_deadline: None,
            max_wait_deadline: None,
            reconcile_deadline: match config.reconcile_interval_ms { Some(i) => Some(now + i), None => None },
            resume_deadline: match config.resume_check_interval_ms { Some(i) => Some(now + i), None => None },
            last_resume_check: now,
            retry_deadline: None,
            stable_deadline: Some(now + STABLE_AFTER_MS),
            consecutive_errors: 0,
            recovery_reconcile_pending: false,
            watcher_active: true,
            pending: false,
            rescan_pending: false,
        }
    }

    fn schedule_flush(&mut self, config: &NativeWatcherConfig, now: u64)
        requires
            time_fits(*config, now),
        ensures
            *final(self) == scheduled(*config, *old(self), now),
    {
        self.debounce_deadline = Some(now + config.debounce_ms);
        if self.max_wait_deadline.is_none() {
            self.max_wait_deadline = Some(now + config.max_wait_ms);
        }
    }

    fn schedule_rescan(&mut self, config: &NativeWatcherConfig, now: u64)
        requires
            time_fits(*config, now),
        ensures
            *final(self) == rescan_scheduled(*config, *old(self), now),
    {
        self.schedule_flush(config, now);
        self.pending = true;
        self.rescan_pending = true;
    }

    fn flush_due(&mut self) -> (fx: WatchEffects)
        ensures
            (*final(self), fx) == flush_due(*old(self)),
    {
        let none = WatchEffects { stop: false, flush: false, full_rescan: false, create_watcher: false, drop_watcher: false, rescan_batch: false };
        if self.pending {
            WatchEffects { flush: true, rescan_batch: self.rescan_pending, ..none }
        } else {
            self.debounce_deadline = None;
            self.max_wait_deadline = None;
            none
        }
    }

    /// Applies one event and says what the driver must do (see [`watch_step_spec`]).
    pub fn step(&mut self, config: &NativeWatcherConfig, event: WatchEvent) -> (fx: WatchEffects)
        requires
            event_time(event) matches Some(now) ==> time_fits(*config, now),
        ensures
            (*final(self), fx) == watch_step_spec(*config, *old(self), event),
    {
        let none = WatchEffects { stop: false, flush: false, full_rescan: false, create_watcher: false, drop_watcher: false, rescan_batch: false };
        match event {
            WatchEvent::Closed => WatchEffects { stop: true, ..none },
            WatchEvent::DebounceElapsed => self.flush_due(),
            WatchEvent::MaxWaitElapsed => self.flush_due(),
            WatchEvent::Flushed { delivered } => {
                if delivered {
                    self.debounce_deadline = None;
                    self.max_wait_deadline = None;
                    self.pending = false;
                    self.rescan_pending = false;
                    none
                } else {
                    WatchEffects { stop: true, ..none }
                }
            },
            WatchEvent::ReconcileElapsed { now } => {
                self.schedule_rescan(config, now);
                self.reconcile_deadline = match config.reconcile_interval_ms { Some(i) => Some(now + i), None => None };
                WatchEffects { full_rescan: true, ..none }
            },
            WatchEvent::ResumeCheckElapsed { now } => {
                let slept = now > self.last_resume_check && now - self.last_resume_check > config.resume_threshold_ms;
                if slept {
                    self.schedule_rescan(config, now);
                }
                self.last_resume_check = now;
                self.resume_deadline = match config.resume_check_interval_ms { Some(i) => Some(now + i), None => None };
                WatchEffects { full_rescan: slept, ..none }
            },
            WatchEvent::StableElapsed => {
                self.consecutive_errors = 0;
                self.recovery_reconcile_pending = false;
                self.stable_deadline = None;
                none
            },
            WatchEvent::RetryElapsed => WatchEffects { create_watcher: true, ..none },
            WatchEvent::WatcherCreated { now, ok } => {
                if ok {
                    self.watcher_active = true;
                    self.retry_deadline = None;
                    self.stable_deadline = Some(now + STABLE_AFTER_MS);
                } else {
                    let errors = if self.consecutive_errors == u32::MAX { u32::MAX } else { self.consecutive_errors + 1 };
                    self.consecutive_errors = errors;
                    let delay = retry_delay(errors);
                    self.retry_deadline = Some(now + delay);
                }
                none
            },
            WatchEvent::OverflowNotified { now, overflowed } => {
                if overflowed {
                    self.schedule_rescan(config, now);
                    WatchEffects { full_rescan: true, ..none }
                } else {
                    none
                }
            },
            WatchEvent::ChangesAdded { now, pending } => {
                if pending {
                    self.schedule_flush(config, now);
                    self.pending = true;
                }
                none
            },
            WatchEvent::EventWorkerFailed { now } => {
                self.schedule_rescan(config, now);
                WatchEffects { full_rescan: true, ..none }
            },
            WatchEvent::BackendFailed { now } => {
                let errors = if self.consecutive_errors == u32::MAX { u32::MAX } else { self.consecutive_errors + 1 };
                self.watcher_active = false;
                self.consecutive_errors = errors;
                self.stable_deadline = None;
                let delay = retry_delay(errors);
                self.retry_deadline = Some(now + delay);
                if self.recovery_reconcile_pending {
                    WatchEffects { drop_watcher: true, ..none }
                } else {
                    self.recovery_reconcile_pending = true;
                    self.schedule_rescan(config, now);
                    WatchEffects { drop_watcher: true, full_rescan: true, ..none }
                }
            },
            WatchEvent::RawChannelClosed => WatchEffects { stop: true, ..none },
        }
    }
}

} // verus!

verus! {

use crate::errors::{EngineError, EngineErrorModel};
use crate::domain::{WorkspaceChange, WorkspaceChangeModel};
use crate::path::{file_name_spec, normalized_spec, parent_scope_spec, same_path};
use crate::ripgrep::path_strip_prefix;

/// The path of a change relative to the watched root: the root file's own name when the
/// root is that file, else the normalized path below the root (none outside it or for the
/// root itself).
pub open spec fn relative_change_spec(root: Seq<char>, root_is_file: bool, path: Seq<char>) -> Option<Seq<char>> {
    if root_is_file && same_path(path, root) {
        file_name_spec(root)
    } else {
        match path_strip_prefix(path, root) {
            Some(rel) => if rel.len() == 0 { None } else { Some(normalized_spec(rel)) },
            None => None,
        }
    }
}

/// The change a present path stands for: the directory root itself means a full rescan; a
/// `.gitignore` rescans its directory; otherwise a path the policy ignores is dropped, a
/// directory is rescanned and a file upserted.
pub open spec fn present_change_spec(root: Seq<char>, root_is_file: bool, path: Seq<char>, is_directory: bool, can_affect: bool) -> Option<WorkspaceChangeModel> {
    if same_path(path, root) && !root_is_file {
        Some(WorkspaceChangeModel::Rescan)
    } else {
        match relative_change_spec(root, root_is_file, path) {
            None => None,
            Some(rel) => if file_name_spec(path) == Some(".gitignore"@) {
                Some(WorkspaceChangeModel::RescanDirectory(parent_scope_spec(rel)))
            } else if !can_affect {
                None
            } else if is_directory {
                Some(WorkspaceChangeModel::RescanDirectory(rel))
            } else {
                Some(WorkspaceChangeModel::Upsert(rel))
            },
        }
    }
}

/// The change a removed path stands for: like a present path, but a removal deletes the
/// file, or everything below the path when `prefix`.
pub open spec fn removed_change_spec(root: Seq<char>, root_is_file: bool, path: Seq<char>, prefix: bool, can_affect: bool) -> Option<WorkspaceChangeModel> {
    if same_path(path, root) && !root_is_file {
        Some(WorkspaceChangeModel::Rescan)
    } else {
        match relative_change_spec(root, root_is_file, path) {
            None => None,
            Some(rel) => if file_name_spec(path) == Some(".gitignore"@) {
                Some(WorkspaceChangeModel::RescanDirectory(parent_scope_spec(rel)))
            } else if !can_affect {
                None
            } else if prefix {
                Some(WorkspaceChangeModel::DeletePrefix(rel))
            } else {
                Some(WorkspaceChangeModel::Delete(rel))
            },
        }
    }
}

/// The path of a change relative to the watched root.
pub fn relative_change_path(root: &str, root_is_file: bool, path: &str) -> (r: Option<String>)
    ensures
        match r {
            Some(s) => relative_change_spec(root@, root_is_file, path@) == Some(s@),
            None => relative_change_spec(root@, root_is_file, path@) is None,
        },
{
    if root_is_file && crate::path::paths_equal(path, root) {
        return crate::path::file_name_of(root);
    }
    match crate::ripgrep::strip_path_prefix(path, root) {
        Some(rel) => if rel.as_str().is_empty() {
            None
        } else {
            Some(crate::path::normalize_relative_path(rel.as_str()))
        },
        None => None,
    }
}

fn is_gitignore(path: &str) -> (r: bool)
    ensures
        r == (file_name_spec(path@) == Some(".gitignore"@)),
{
    match crate::path::file_name_of(path) {
        Some(n) => crate::text::str_eq(n.as_str(), ".gitignore"),
        None => false,
    }
}

/// The change a present path stands for (see [`present_change_spec`]); `can_affect` is the
/// root policy's verdict on the path.
pub fn normalize_present_path(root: &str, root_is_file: bool, path: &str, is_directory: bool, can_affect: bool) -> (r: Option<WorkspaceChange>)
    ensures
        match r {
            Some(c) => present_change_spec(root@, root_is_file, path@, is_directory, can_affect) == Some(c@),
            None => present_change_spec(root@, root_is_file, path@, is_directory, can_affect) is None,
        },
{
    if crate::path::paths_equal(path, root) && !root_is_file {
        return Some(WorkspaceChange::Rescan);
    }
    let rel = match relative_change_path(root, root_is_file, path) {
        Some(r) => r,
        None => { return None; },
    };
    if is_gitignore(path) {
        return Some(WorkspaceChange::RescanDirectory(crate::path::parent_scope(rel.as_str())));
    }
    if !can_affect {
        return None;
    }
    if is_directory {
        Some(WorkspaceChange::RescanDirectory(rel))
    } else {
        Some(WorkspaceChange::Upsert(rel))
    }
}

/// The change a removed path stands for (see [`removed_change_spec`]).
pub fn normalize_removed_path(root: &str, root_is_file: bool, path: &str, prefix: bool, can_affect: bool) -> (r: Option<WorkspaceChange>)
    ensures
        match r {
            Some(c) => removed_change_spec(root@, root_is_file, path@, prefix, can_affect) == Some(c@),
            None => removed_change_spec(root@, root_is_file, path@, prefix, can_affect) is None,
        },
{
    if crate::path::paths_equal(path, root) && !root_is_file {
        return Some(WorkspaceChange::Rescan);
    }
    let rel = match relative_change_path(root, root_is_file, path) {
        Some(r) => r,
        None => { return None; },
    };
    if is_gitignore(path) {
        return Some(WorkspaceChange::RescanDirectory(crate::path::parent_scope(rel.as_str())));
    }
    if !can_affect {
        return None;
    }
    if prefix {
        Some(WorkspaceChange::DeletePrefix(rel))
    } else {
        Some(WorkspaceChange::Delete(rel))
    }
}

/// Whether a watch session may go on: a cancelled session stops with
/// `Cancelled`, one whose deadline (if any) has been reached at `now_ms` with
/// `DeadlineExceeded`.
pub fn check_control(cancelled: bool, now_ms: u64, deadline_ms: Option<u64>) -> (r: Result<(), EngineError>)
    ensures
        cancelled ==> r == Err::<(), EngineError>(EngineError::Cancelled),
        !cancelled && (deadline_ms matches Some(d) && now_ms >= d) ==> r == Err::<(), EngineError>(EngineError::DeadlineExceeded),
        !cancelled && !(deadline_ms matches Some(d) && now_ms >= d) ==> r is Ok,
{
    if cancelled {
        return Err(EngineError::Cancelled);
    }
    if let Some(d) = deadline_ms {
        if now_ms >= d {
            return Err(EngineError::DeadlineExceeded);
        }
    }
    Ok(())
}

/// What a watch request learns of its root: the root is watched only when it
/// could be inspected and is a file or a directory. `metadata` is the result
/// of inspecting it (`(is_file, is_dir)`, or the error's text); the answer is
/// whether the root is a file.
pub fn watch_root_check(root: &str, metadata: Result<(bool, bool), String>) -> (r: Result<bool, EngineError>)
    ensures
        match metadata {
            Err(error) => r matches Err(e) && e@ == (EngineErrorModel::InvalidInput {
                message: "watch root "@ + root@ + " could not be inspected: "@ + error@,
            }),
            Ok((is_file, is_dir)) => if !is_file && !is_dir {
                r matches Err(e) && e@ == (EngineErrorModel::InvalidInput {
                    message: "watch root "@ + root@ + " must be a file or directory"@,
                })
            } else {
                r == Ok::<bool, EngineError>(is_file)
            },
        },
{
    match metadata {
        Err(error) => {
            let mut msg: Vec<char> = Vec::new();
            crate::text::append_str(&mut msg, "watch root ");
            crate::text::append_str(&mut msg, root);
            crate::text::append_str(&mut msg, " could not be inspected: ");
            crate::text::append_str(&mut msg, error.as_str());
            let m = crate::text::string_of(&msg);
            Err(EngineError::invalid_input(m.as_str()))
        },
        Ok((is_file, is_dir)) => {
            if !is_file && !is_dir {
                let mut msg: Vec<char> = Vec::new();
                crate::text::append_str(&mut msg, "watch root ");
                crate::text::append_str(&mut msg, root);
                crate::text::append_str(&mut msg, " must be a file or directory");
                let m = crate::text::string_of(&msg);
                Err(EngineError::invalid_input(m.as_str()))
            } else {
                Ok(is_file)
            }
        },
    }
}

/// The kind of a raw filesystem event.
#[derive(Clone, Copy, Debug, PartialEq, Eq)]
pub enum RawEventKind {
    Access,
    Any,
    Other,
    Create,
    Modify,
    RemoveFile,
    RemoveOther,
}

/// One path of a raw event, with what the driver learned about it: whether it still
/// exists, whether it is a directory, and whether the root policy lets it affect the index
/// (asked as a directory only for an existing directory).
#[derive(Debug, PartialEq, Eq)]
pub struct EventPath {
    pub path: String,
    pub exists: bool,
    pub is_dir: bool,
    pub can_affect: bool,
}

/// The change of one event path of an event of `kind`.
pub open spec fn path_change_spec(root: Seq<char>, root_is_file: bool, kind: RawEventKind, p: EventPath) -> Option<WorkspaceChangeModel> {
    match kind {
        RawEventKind::RemoveFile => removed_change_spec(root, root_is_file, p.path@, false, p.can_affect),
        RawEventKind::RemoveOther => removed_change_spec(root, root_is_file, p.path@, true, p.can_affect),
        _ => if !p.exists {
            removed_change_spec(root, root_is_file, p.path@, true, p.can_affect)
        } else {
            present_change_spec(root, root_is_file, p.path@, p.is_dir, p.can_affect)
        },
    }
}

/// The changes of the paths of an event, in order.
pub open spec fn paths_changes(root: Seq<char>, root_is_file: bool, kind: RawEventKind, ps: Seq<EventPath>) -> Seq<WorkspaceChangeModel>
    decreases ps.len(),
{
    if ps.len() == 0 {
        seq![]
    } else {
        paths_changes(root, root_is_file, kind, ps.drop_last()) + match path_change_spec(root, root_is_file, kind, ps.last()) {
            Some(c) => seq![c],
            None => seq![],
        }
    }
}

/// The changes a raw event stands for: access events none, unknown events a full rescan,
/// and every other event the changes of its paths.
pub open spec fn event_changes_spec(root: Seq<char>, root_is_file: bool, kind: RawEventKind, ps: Seq<EventPath>) -> Seq<WorkspaceChangeModel> {
    match kind {
        RawEventKind::Access => seq![],
        RawEventKind::Any | RawEventKind::Other => seq![WorkspaceChangeModel::Rescan],
        _ => paths_changes(root, root_is_file, kind, ps),
    }
}

/// The views of a list of changes.
pub open spec fn changes_view(v: Seq<WorkspaceChange>) -> Seq<WorkspaceChangeModel> {
    v.map_values(|c: WorkspaceChange| c@)
}

/// Normalizes a raw filesystem event into workspace changes.
pub fn normalize_event(root: &str, root_is_file: bool, kind: RawEventKind, paths: &Vec<EventPath>) -> (out: Vec<WorkspaceChange>)
    ensures
        changes_view(out@) == event_changes_spec(root@, root_is_file, kind, paths@),
{
    let mut out: Vec<WorkspaceChange> = Vec::new();
    match kind {
        RawEventKind::Access => {
            assert(changes_view(out@) =~= seq![]);
            return out;
        },
        RawEventKind::Any | RawEventKind::Other => {
            out.push(WorkspaceChange::Rescan);
            assert(changes_view(out@) =~= seq![WorkspaceChangeModel::Rescan]);
            return out;
        },
        _ => {},
    }
    let mut i: usize = 0;
    while i < paths.len()
        invariant
            0 <= i <= paths@.len(),
            !(kind is Access || kind is Any || kind is Other),
            changes_view(out@) == paths_changes(root@, root_is_file, kind, paths@.take(i as int)),
        decreases paths@.len() - i,
    {
        let p = &paths[i];
        let c = match kind {
            RawEventKind::RemoveFile => normalize_removed_path(root, root_is_file, p.path.as_str(), false, p.can_affect),
            RawEventKind::RemoveOther => normalize_removed_path(root, root_is_file, p.path.as_str(), true, p.can_affect),
            _ => if !p.exists {
                normalize_removed_path(root, root_is_file, p.path.as_str(), true, p.can_affect)
            } else {
                normalize_present_path(root, root_is_file, p.path.as_str(), p.is_dir, p.can_affect)
            },
        };
        let ghost before = changes_view(out@);
        proof {
            assert(paths@.take(i + 1).drop_last() =~= paths@.take(i as int));
            assert(paths@.take(i + 1).last() == paths@[i as int]);
        }
        match c {
            Some(ch) => {
                out.push(ch);
                assert(changes_view(out@) =~= before.push(ch@));
            },
            None => {},
        }
        i += 1;
    }
    assert(paths@.take(paths@.len() as int) =~= paths@);
    out
}

/// What one path of an event inside a directory root becomes, for a path below the root
/// (`rel` is its normalized path relative to the root) that can affect the index and is not
/// a `.gitignore`: a removal that is not a file removal, or a create or modify event whose
/// path no longer exists, deletes everything below the path (`DeletePrefix`); a file
/// removal deletes the one path (`Delete`); an existing directory is rescanned and an
/// existing file upserted.
pub proof fn lemma_event_path_changes(root: Seq<char>, kind: RawEventKind, p: EventPath, r: Seq<char>)
    requires
        path_strip_prefix(p.path@, root) == Some(r),
        r.len() > 0,
        !same_path(p.path@, root),
        file_name_spec(p.path@) != Some(".gitignore"@),
        p.can_affect,
    ensures
        ({
            let rel = normalized_spec(r);
            let out = event_changes_spec(root, false, kind, seq![p]);
            &&& kind is RemoveOther ==> out == seq![WorkspaceChangeModel::DeletePrefix(rel)]
            &&& kind is RemoveFile ==> out == seq![WorkspaceChangeModel::Delete(rel)]
            &&& (kind is Create || kind is Modify) && !p.exists ==> out == seq![WorkspaceChangeModel::DeletePrefix(rel)]
            &&& (kind is Create || kind is Modify) && p.exists && p.is_dir ==> out == seq![WorkspaceChangeModel::RescanDirectory(rel)]
            &&& (kind is Create || kind is Modify) && p.exists && !p.is_dir ==> out == seq![WorkspaceChangeModel::Upsert(rel)]
        }),
{
    let ps = seq![p];
    assert(ps.drop_last() =~= Seq::<EventPath>::empty());
    assert(ps.last() == p);
    assert(paths_changes(root, false, kind, Seq::<EventPath>::empty()) == Seq::<WorkspaceChangeModel>::empty());
    assert(relative_change_spec(root, false, p.path@) == Some(normalized_spec(r)));
}

/// The other outcomes for one path of an event inside a directory root: access events
/// give nothing and unknown events a full rescan, whatever their paths; otherwise the root
/// itself gives a full rescan, a `.gitignore` below it rescans the directory that holds it,
/// and any other path below the root that cannot affect the index gives nothing.
pub proof fn lemma_event_path_special_changes(root: Seq<char>, kind: RawEventKind, p: EventPath, r: Seq<char>)
    ensures
        kind is Access ==> event_changes_spec(root, false, kind, seq![p]) == Seq::<WorkspaceChangeModel>::empty(),
        (kind is Any || kind is Other) ==> event_changes_spec(root, false, kind, seq![p]) == seq![WorkspaceChangeModel::Rescan],
        !(kind is Access || kind is Any || kind is Other) && same_path(p.path@, root)
            ==> event_changes_spec(root, false, kind, seq![p]) == seq![WorkspaceChangeModel::Rescan],
        !(kind is Access || kind is Any || kind is Other) && !same_path(p.path@, root) && path_strip_prefix(p.path@, root) == Some(r)
            && r.len() > 0 && file_name_spec(p.path@) == Some(".gitignore"@)
            ==> event_changes_spec(root, false, kind, seq![p]) == seq![WorkspaceChangeModel::RescanDirectory(parent_scope_spec(normalized_spec(r)))],
        !(kind is Access || kind is Any || kind is Other) && !same_path(p.path@, root) && path_strip_prefix(p.path@, root) == Some(r)
            && r.len() > 0 && file_name_spec(p.path@) != Some(".gitignore"@) && !p.can_affect
            ==> event_changes_spec(root, false, kind, seq![p]) == Seq::<WorkspaceChangeModel>::empty(),
{
    let ps = seq![p];
    assert(ps.drop_last() =~= Seq::<EventPath>::empty());
    assert(ps.last() == p);
    assert(paths_changes(root, false, kind, Seq::<EventPath>::empty()) == Seq::<WorkspaceChangeModel>::empty());
    assert(Seq::<WorkspaceChangeModel>::empty() + Seq::<WorkspaceChangeModel>::empty() =~= Seq::<WorkspaceChangeModel>::empty());
}

} // verus!

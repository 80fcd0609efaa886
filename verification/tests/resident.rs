use zvec_grep::common::{DiscoveryOptions, RootSpec};
use zvec_grep::domain::{ChangeIndexAction, ChangeIndexRequest, Command, WorkspaceChange};
use zvec_grep::errors::{EngineError, ErrorCode};
use zvec_grep::resident::{
    after_index_run, after_next_changes, first_failure, follow_up_applies, follow_up_error, follow_up_for,
    incremental_index_request, stopped_result, CompletedReply, EnsureAction, FollowUp, IndexRunResult, LoopControl,
    OutcomeKind, ResidentRegistry, ResidentWorkspaceError,
};

fn root(path: &str) -> RootSpec {
    RootSpec { path: path.to_string(), recursive: true, discovery: DiscoveryOptions::new() }
}

#[test]
fn watching_the_same_root_twice_is_idempotent() {
    let mut registry = ResidentRegistry::new();
    let first = registry.ensure(&root("/repo"), false);
    assert_eq!(first, EnsureAction::Start { retired: None });
    registry.register(root("/repo"));
    assert_eq!(registry.active_count(), 1);
    assert_eq!(registry.ensure(&root("/repo"), false), EnsureAction::KeepExisting);
    assert_eq!(registry.ensure(&root("/repo/"), false), EnsureAction::KeepExisting);
    assert_eq!(registry.active_count(), 1);
}

#[test]
fn changed_root_policy_restarts_the_session() {
    let mut registry = ResidentRegistry::new();
    registry.ensure(&root("/repo"), false);
    registry.register(root("/repo"));
    let mut changed = root("/repo");
    changed.discovery.hidden = true;
    let action = registry.ensure(&changed, false);
    assert_eq!(action, EnsureAction::Start { retired: Some(root("/repo")) });
    assert_eq!(registry.active_count(), 0);
    registry.register(changed);
    assert_eq!(registry.active_count(), 1);
}

#[test]
fn a_finished_session_is_restarted() {
    let mut registry = ResidentRegistry::new();
    registry.ensure(&root("/repo"), false);
    registry.register(root("/repo"));
    assert_eq!(registry.ensure(&root("/repo"), true), EnsureAction::Start { retired: Some(root("/repo")) });
}

#[test]
fn rejects_relative_roots() {
    let mut registry = ResidentRegistry::new();
    let action = registry.ensure(&root("relative"), false);
    assert_eq!(action, EnsureAction::Reject(ResidentWorkspaceError::RelativeRoot("relative".to_string())));
    let EnsureAction::Reject(error) = action else {
        panic!("relative roots must be rejected");
    };
    assert_eq!(error.message(), "resident workspace root must be absolute: relative");
}

#[test]
fn shutdown_closes_sessions_and_rejects_new_roots() {
    let mut registry = ResidentRegistry::new();
    registry.ensure(&root("/a"), false);
    registry.register(root("/a"));
    registry.ensure(&root("/b"), false);
    registry.register(root("/b"));
    let drained = registry.shutdown();
    assert_eq!(drained.len(), 2);
    assert!(registry.is_shut_down());
    assert_eq!(registry.active_count(), 0);
    assert_eq!(registry.ensure(&root("/c"), false), EnsureAction::Reject(ResidentWorkspaceError::ShuttingDown));
}

#[test]
fn stopping_reports_whether_a_session_existed() {
    let mut registry = ResidentRegistry::new();
    registry.ensure(&root("/repo"), false);
    registry.register(root("/repo"));
    assert_eq!(registry.stop("/repo"), Some(root("/repo")));
    assert_eq!(registry.stop("/repo"), None);
    assert_eq!(registry.active_count(), 0);
}

#[test]
fn the_first_failure_wins() {
    assert!(first_failure(vec![Ok(()), Ok(())]).is_ok());
    let result = first_failure(vec![
        Ok(()),
        Err(ResidentWorkspaceError::UnexpectedReply { root: "/a".to_string() }),
        Err(ResidentWorkspaceError::ShuttingDown),
    ]);
    assert_eq!(result, Err(ResidentWorkspaceError::UnexpectedReply { root: "/a".to_string() }));
    let joined = stopped_result("/a", Err(ResidentWorkspaceError::ShuttingDown), Err("panicked".to_string()));
    assert_eq!(joined, Err(ResidentWorkspaceError::Join { root: "/a".to_string(), message: "panicked".to_string() }));
    assert_eq!(stopped_result("/a", Err(ResidentWorkspaceError::ShuttingDown), Ok(Ok(()))), Err(ResidentWorkspaceError::ShuttingDown));
}

#[test]
fn completed_index_attaches_and_completed_disable_detaches_watcher() {
    let command = Command::ChangeIndex(ChangeIndexRequest { root: None, action: ChangeIndexAction::Disable, force: false });
    let follow_up = follow_up_for("/repo", &command);
    assert_eq!(follow_up, FollowUp::Stop("/repo".to_string()));
    assert!(follow_up_applies(&follow_up, OutcomeKind::Completed(CompletedReply::ChangeIndex)));
    assert!(!follow_up_applies(&follow_up, OutcomeKind::Accepted));
    let ensure = FollowUp::Ensure(vec![root("/repo")]);
    assert!(follow_up_applies(&ensure, OutcomeKind::Completed(CompletedReply::Index)));
    assert!(!follow_up_applies(&ensure, OutcomeKind::Accepted));
    assert!(!follow_up_applies(&FollowUp::Nothing, OutcomeKind::Completed(CompletedReply::Index)));
    let error = follow_up_error(&ResidentWorkspaceError::ShuttingDown);
    assert_eq!(error.message(), "resident-workspace-manager failed: resident workspace manager is shutting down");
}

#[test]
fn watch_loop_decisions() {
    assert_eq!(after_next_changes("/r", Ok(0), false), LoopControl::Continue);
    assert_eq!(after_next_changes("/r", Ok(3), false), LoopControl::RunIndex);
    assert_eq!(after_next_changes("/r", Err(EngineError::Cancelled), true), LoopControl::Stop);
    assert_eq!(
        after_next_changes("/r", Err(EngineError::Cancelled), false),
        LoopControl::Fail(ResidentWorkspaceError::Watch { root: "/r".to_string(), source: EngineError::Cancelled })
    );
    assert_eq!(after_index_run("/r", IndexRunResult::Accepted, false), LoopControl::Continue);
    assert_eq!(after_index_run("/r", IndexRunResult::Completed(CompletedReply::Index), false), LoopControl::Continue);
    assert_eq!(
        after_index_run("/r", IndexRunResult::Completed(CompletedReply::Other), false),
        LoopControl::Fail(ResidentWorkspaceError::UnexpectedReply { root: "/r".to_string() })
    );
    assert_eq!(
        after_index_run("/r", IndexRunResult::InputRequired { reason: "confirm".to_string() }, false),
        LoopControl::Fail(ResidentWorkspaceError::AuthorizationRequired { root: "/r".to_string(), reason: "confirm".to_string() })
    );
    assert_eq!(
        after_index_run("/r", IndexRunResult::Failed { code: ErrorCode::Cancelled, message: "stop".to_string() }, true),
        LoopControl::Stop
    );
    assert_eq!(
        after_index_run("/r", IndexRunResult::Failed { code: ErrorCode::BackendFailure, message: "disk".to_string() }, true),
        LoopControl::Fail(ResidentWorkspaceError::Index { root: "/r".to_string(), message: "disk".to_string() })
    );
}

#[test]
fn watcher_batches_become_narrow_index_requests() {
    let mut spec = root("/repo");
    spec.discovery.hidden = true;
    let request = incremental_index_request(&spec, vec![WorkspaceChange::Upsert("a.rs".to_string())]);
    assert_eq!(request.root, None);
    assert_eq!(request.roots, vec![root_with_hidden("/repo")]);
    assert_eq!(request.changes, vec![WorkspaceChange::Upsert("a.rs".to_string())]);
    assert!(request.discovery.hidden);
    assert!(!request.wait);
}

fn root_with_hidden(path: &str) -> RootSpec {
    let mut spec = root(path);
    spec.discovery.hidden = true;
    spec
}

#[test]
fn resident_error_messages() {
    let error = ResidentWorkspaceError::StartWatcher { root: "/r".to_string(), source: EngineError::invalid_input("bad") };
    assert_eq!(error.message(), "failed to create watcher for /r: invalid input: bad");
    let close = ResidentWorkspaceError::CloseWatcher { root: "/r".to_string(), source: EngineError::Closed };
    assert_eq!(close.message(), "failed to close watcher for /r: service is closed");
}

#[test]
fn accepted_index_does_not_watch_before_job_success() {
    let command = Command::Index(incremental_index_request(&root("/repo"), Vec::new()));
    let follow_up = follow_up_for("/repo", &command);
    assert_eq!(follow_up, FollowUp::Ensure(vec![root("/repo")]));
    assert!(!follow_up_applies(&follow_up, OutcomeKind::Accepted));
    assert!(!follow_up_applies(&follow_up, OutcomeKind::InputRequired));
    assert!(follow_up_applies(&follow_up, OutcomeKind::Completed(CompletedReply::Index)));
}

#[test]
fn rewatching_a_root_keeps_the_number_of_sessions() {
    let mut registry = ResidentRegistry::new();
    registry.ensure(&root("/a"), false);
    registry.register(root("/a"));
    registry.ensure(&root("/repo"), false);
    registry.register(root("/repo"));
    assert_eq!(registry.active_count(), 2);
    assert_eq!(registry.ensure(&root("/repo"), false), EnsureAction::KeepExisting);
    assert_eq!(registry.active_count(), 2);
    assert_eq!(registry.ensure(&root_with_hidden("/repo"), false), EnsureAction::Start { retired: Some(root("/repo")) });
    registry.register(root_with_hidden("/repo"));
    assert_eq!(registry.active_count(), 2);
    assert_eq!(registry.stop("/repo"), Some(root_with_hidden("/repo")));
    assert_eq!(registry.stop("/repo"), None);
    assert_eq!(registry.active_count(), 1);
}

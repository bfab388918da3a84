use rfx::adapter::ahead_behind_args;
use rfx::adapter::first_commit_args;
use rfx::adapter::git_reset_soft;
use rfx::adapter::last_commit_args;
use rfx::adapter::list_branches_args;
use rfx::adapter::list_commits_args;
use rfx::adapter::list_remote_branches_args;
use rfx::adapter::list_remotes_args;
use rfx::adapter::status_porcelain_args;
use rfx::sync::is_conflict_error;
use rfx::sync::is_no_commit_error;
use rfx::sync::is_terminal;
use rfx::sync::is_up_to_date;
use rfx::sync::push_error_hint;
use rfx::sync::sync_step;
use rfx::sync::PushErrorHint;
use rfx::sync::SyncEvent;
use rfx::sync::SyncKind;
use rfx::sync::SyncState;

#[test]
fn dirty_tree_asks_for_a_decision() {
    let s = sync_step(SyncKind::Pull, SyncState::CheckingChanges, SyncEvent::ChangesFound);
    assert_eq!(s, SyncState::AwaitingDecision);
}

#[test]
fn clean_tree_proceeds_to_target_selection() {
    let s = sync_step(SyncKind::Pull, SyncState::CheckingChanges, SyncEvent::TreeClean);
    assert_eq!(s, SyncState::SelectingTarget);
}

#[test]
fn committing_returns_to_the_change_check() {
    let s = sync_step(SyncKind::Push, SyncState::AwaitingDecision, SyncEvent::DecisionCommit);
    assert_eq!(s, SyncState::CheckingChanges);
}

#[test]
fn only_the_push_flow_may_keep_changes() {
    let push = sync_step(SyncKind::Push, SyncState::AwaitingDecision, SyncEvent::DecisionKeep);
    assert_eq!(push, SyncState::SelectingTarget);
    let pull = sync_step(SyncKind::Pull, SyncState::AwaitingDecision, SyncEvent::DecisionKeep);
    assert_eq!(pull, SyncState::AwaitingDecision);
}

#[test]
fn cancelling_aborts_the_flow() {
    let s = sync_step(SyncKind::Pull, SyncState::AwaitingDecision, SyncEvent::DecisionCancel);
    assert_eq!(s, SyncState::Aborted);
    let t = sync_step(SyncKind::Push, SyncState::SelectingTarget, SyncEvent::SelectionCancelled);
    assert_eq!(t, SyncState::Aborted);
}

#[test]
fn execution_ends_in_success_or_failure() {
    let ok = sync_step(SyncKind::Pull, SyncState::Executing, SyncEvent::RunSucceeded);
    assert_eq!(ok, SyncState::Succeeded);
    let bad = sync_step(SyncKind::Pull, SyncState::Executing, SyncEvent::RunFailed);
    assert_eq!(bad, SyncState::Failed);
}

#[test]
fn terminal_states_stay_put() {
    for s in [SyncState::Aborted, SyncState::Succeeded, SyncState::Failed] {
        assert!(is_terminal(s));
        let next = sync_step(SyncKind::Push, s, SyncEvent::ChangesFound);
        assert_eq!(next, s);
    }
    assert!(!is_terminal(SyncState::CheckingChanges));
    assert!(!is_terminal(SyncState::Executing));
}

#[test]
fn push_errors_are_classified_for_guidance() {
    assert_eq!(
        push_error_hint("! [rejected] main -> main (fetch first)"),
        PushErrorHint::Rejected
    );
    assert_eq!(
        push_error_hint("fatal: Could not read from remote repository."),
        PushErrorHint::Connectivity
    );
    assert_eq!(push_error_hint("something else went wrong"), PushErrorHint::Other);
}

#[test]
fn pull_conflicts_and_idle_pulls_are_recognized() {
    assert!(is_conflict_error("Automatic merge failed; fix conflicts and commit."));
    assert!(!is_conflict_error("error: unrelated"));
    assert!(is_up_to_date("Already up to date.\n"));
    assert!(!is_up_to_date("Fast-forwarded."));
}

#[test]
fn missing_commit_errors_are_recognized_on_undo() {
    assert!(is_no_commit_error("fatal: ambiguous argument 'HEAD~1'"));
    assert!(is_no_commit_error("unknown revision or path not in the working tree"));
    assert!(!is_no_commit_error("fatal: soft reset refused"));
}

#[test]
fn fixed_argument_vectors_match_the_tool_contract() {
    assert_eq!(status_porcelain_args(), vec!["status", "--porcelain=v1"]);
    assert_eq!(list_branches_args(), vec![
        "for-each-ref",
        "--format=%(refname:short)",
        "refs/heads/",
    ]);
    assert_eq!(list_remotes_args(), vec!["remote", "-v"]);
    assert_eq!(list_remote_branches_args(), vec![
        "for-each-ref",
        "--format=%(refname:short)|%(authorname)|%(authordate:relative)",
        "refs/remotes/",
    ]);
    assert_eq!(first_commit_args("dev"), vec![
        "log",
        "--reverse",
        "--format=%an|%ad",
        "--date=short",
        "dev",
    ]);
    assert_eq!(last_commit_args("dev"), vec![
        "log",
        "-1",
        "--format=%ad|%s",
        "--date=short",
        "dev",
    ]);
    assert_eq!(list_commits_args("main", 10), vec![
        "log",
        "-10",
        "--pretty=format:%h|%an|%ad|%s",
        "--date=short",
        "main",
    ]);
    assert_eq!(ahead_behind_args("main"), vec![
        "rev-list",
        "--left-right",
        "--count",
        "main...@{u}",
    ]);
    assert_eq!(git_reset_soft(3), vec!["reset", "--soft", "HEAD~3"]);
    assert_eq!(git_reset_soft(12), vec!["reset", "--soft", "HEAD~12"]);
}

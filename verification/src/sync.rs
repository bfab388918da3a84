//! The guarded pull/push flow.
//!
//! Before a network operation the flow re-checks the working tree for
//! uncommitted changes in a loop; only a clean tree proceeds to
//! remote-branch selection and execution.  The decisions are a pure step
//! function from state and observed event to the next state; the
//! unverified shell performs the prompts and the subprocess runs, and
//! feeds each outcome back as an event.  The module also classifies tool
//! error text into friendlier guidance, a best-effort cosmetic layer.

use vstd::prelude::*;

use crate::text::contains_sub;
use crate::text::contains_sub_spec;

verus! {

/// Which guarded flow is running.  Pulling re-checks until the tree is
/// clean or the user cancels; pushing additionally allows keeping local
/// changes and pushing only the existing commits.
#[derive(Clone, Copy, Debug, PartialEq, Eq, Structural)]
pub enum SyncKind {
    Pull,
    Push,
}

/// The states of the guarded flow.  `Aborted`, `Succeeded` and `Failed`
/// are terminal.
#[derive(Clone, Copy, Debug, PartialEq, Eq, Structural)]
pub enum SyncState {
    CheckingChanges,
    AwaitingDecision,
    SelectingTarget,
    Executing,
    Aborted,
    Succeeded,
    Failed,
}

/// What the unverified shell observed and feeds back into the flow.
#[derive(Clone, Copy, Debug, PartialEq, Eq, Structural)]
pub enum SyncEvent {
    ChangesFound,
    TreeClean,
    DecisionCommit,
    DecisionKeep,
    DecisionCancel,
    TargetChosen,
    SelectionCancelled,
    RunSucceeded,
    RunFailed,
}

/// The transition relation of the guarded flow, one case per meaningful
/// state/event pair.  The keep decision is honoured only by the push
/// flow; an event that does not belong to the current state leaves the
/// state unchanged.
pub open spec fn sync_step_spec(kind: SyncKind, s: SyncState, e: SyncEvent) -> SyncState {
    match (s, e) {
        (SyncState::CheckingChanges, SyncEvent::ChangesFound) => SyncState::AwaitingDecision,
        (SyncState::CheckingChanges, SyncEvent::TreeClean) => SyncState::SelectingTarget,
        (SyncState::AwaitingDecision, SyncEvent::DecisionCommit) => SyncState::CheckingChanges,
        (SyncState::AwaitingDecision, SyncEvent::DecisionKeep) => (if kind is Push {
            SyncState::SelectingTarget
        } else {
            SyncState::AwaitingDecision
        }),
        (SyncState::AwaitingDecision, SyncEvent::DecisionCancel) => SyncState::Aborted,
        (SyncState::SelectingTarget, SyncEvent::TargetChosen) => SyncState::Executing,
        (SyncState::SelectingTarget, SyncEvent::SelectionCancelled) => SyncState::Aborted,
        (SyncState::Executing, SyncEvent::RunSucceeded) => SyncState::Succeeded,
        (SyncState::Executing, SyncEvent::RunFailed) => SyncState::Failed,
        _ => s,
    }
}

/// Advances the guarded flow by one observed event.
pub fn sync_step(kind: SyncKind, s: SyncState, e: SyncEvent) -> (r: SyncState)
    ensures
        r == sync_step_spec(kind, s, e),
{
    match (s, e) {
        (SyncState::CheckingChanges, SyncEvent::ChangesFound) => SyncState::AwaitingDecision,
        (SyncState::CheckingChanges, SyncEvent::TreeClean) => SyncState::SelectingTarget,
        (SyncState::AwaitingDecision, SyncEvent::DecisionCommit) => SyncState::CheckingChanges,
        (SyncState::AwaitingDecision, SyncEvent::DecisionKeep) => {
            if matches!(kind, SyncKind::Push) {
                SyncState::SelectingTarget
            } else {
                SyncState::AwaitingDecision
            }
        },
        (SyncState::AwaitingDecision, SyncEvent::DecisionCancel) => SyncState::Aborted,
        (SyncState::SelectingTarget, SyncEvent::TargetChosen) => SyncState::Executing,
        (SyncState::SelectingTarget, SyncEvent::SelectionCancelled) => SyncState::Aborted,
        (SyncState::Executing, SyncEvent::RunSucceeded) => SyncState::Succeeded,
        (SyncState::Executing, SyncEvent::RunFailed) => SyncState::Failed,
        _ => s,
    }
}

/// Whether the flow is finished.
pub open spec fn is_terminal_spec(s: SyncState) -> bool {
    s is Aborted || s is Succeeded || s is Failed
}

/// Decides `is_terminal_spec`.
pub fn is_terminal(s: SyncState) -> (r: bool)
    ensures
        r == is_terminal_spec(s),
{
    matches!(s, SyncState::Aborted | SyncState::Succeeded | SyncState::Failed)
}

/// A finished flow stays finished: no event moves the machine out of
/// `Aborted`, `Succeeded` or `Failed`.
pub proof fn lemma_terminal_states_stay(kind: SyncKind, s: SyncState, e: SyncEvent)
    requires
        is_terminal_spec(s),
    ensures
        sync_step_spec(kind, s, e) == s,
{
}

/// The pull flow reaches target selection only from a clean tree: unlike
/// the push flow, it never carries uncommitted changes forward.
pub proof fn lemma_pull_requires_clean_tree(s: SyncState, e: SyncEvent)
    requires
        sync_step_spec(SyncKind::Pull, s, e) is SelectingTarget,
        !(s is SelectingTarget),
    ensures
        s is CheckingChanges && e is TreeClean,
{
}

// ---------- tool error guidance ----------

/// The cosmetic classification of a failed push: a rejected push (the
/// remote holds commits the local branch lacks), a connectivity failure,
/// or anything else.  Best-effort substring matching on the tool's error
/// text, not an authoritative classification.
#[derive(Clone, Copy, Debug, PartialEq, Eq, Structural)]
pub enum PushErrorHint {
    Rejected,
    Connectivity,
    Other,
}

/// How a push failure's error text is classified for guidance.
pub open spec fn push_error_hint_spec(e: Seq<char>) -> PushErrorHint {
    if contains_sub_spec(e, "rejected"@) || contains_sub_spec(e, "fetch first"@) {
        PushErrorHint::Rejected
    } else if contains_sub_spec(e, "Could not read from remote"@) {
        PushErrorHint::Connectivity
    } else {
        PushErrorHint::Other
    }
}

/// Classifies a push failure's error text for friendlier guidance.
pub fn push_error_hint(e: &str) -> (r: PushErrorHint)
    ensures
        r == push_error_hint_spec(e@),
{
    if contains_sub(e, "rejected") || contains_sub(e, "fetch first") {
        PushErrorHint::Rejected
    } else if contains_sub(e, "Could not read from remote") {
        PushErrorHint::Connectivity
    } else {
        PushErrorHint::Other
    }
}

/// Whether a pull failure's error text points at a merge conflict.
pub fn is_conflict_error(e: &str) -> (r: bool)
    ensures
        r == contains_sub_spec(e@, "conflict"@),
{
    contains_sub(e, "conflict")
}

/// Whether a pull's output says everything was already up to date.
pub fn is_up_to_date(out: &str) -> (r: bool)
    ensures
        r == contains_sub_spec(out@, "Already up to date"@),
{
    contains_sub(out, "Already up to date")
}

/// Whether an undo failure's error text says there is no commit to undo.
pub fn is_no_commit_error(e: &str) -> (r: bool)
    ensures
        r == (contains_sub_spec(e@, "ambiguous argument"@) || contains_sub_spec(
            e@,
            "unknown revision"@,
        )),
{
    contains_sub(e, "ambiguous argument") || contains_sub(e, "unknown revision")
}

} // verus!

use vstd::prelude::*;

verus! {

/// What one attempt at deleting a directory tree reported, by kind.
#[derive(Debug, Clone, Copy, PartialEq, Eq, Structural)]
pub enum RemoveOutcome {
    /// The tree was deleted.
    Removed,
    /// The tree was not there.
    NotFound,
    /// Something inside the tree is held open elsewhere.
    ResourceBusy,
    /// The deletion was not permitted.
    PermissionDenied,
    /// Any other failure.
    Other,
}

/// Why the operator is asked to intervene.
#[derive(Debug, Clone, Copy, PartialEq, Eq, Structural)]
pub enum PromptReason {
    Busy,
    PermissionDenied,
}

/// What the removal supervisor does after an attempt.
#[derive(Debug, Clone, Copy, PartialEq, Eq, Structural)]
pub enum RemovalStep {
    /// The tree is gone: stop with success.
    Done,
    /// The removal is abandoned and the tree left in place: stop with failure.
    Failed,
    /// Ask the operator to fix the problem, wait for an acknowledgment, and
    /// attempt again.
    AwaitOperator(PromptReason),
}

/// The removal supervisor's decision after one deletion attempt: an absent
/// tree counts as removed, a busy tree or a denied permission is retried
/// after the operator acknowledges, and any other failure abandons this
/// removal.
pub fn remove_dir_step(outcome: RemoveOutcome) -> (r: RemovalStep)
    ensures
        outcome == RemoveOutcome::Removed ==> r == RemovalStep::Done,
        outcome == RemoveOutcome::NotFound ==> r == RemovalStep::Done,
        outcome == RemoveOutcome::ResourceBusy ==> r == RemovalStep::AwaitOperator(
            PromptReason::Busy,
        ),
        outcome == RemoveOutcome::PermissionDenied ==> r == RemovalStep::AwaitOperator(
            PromptReason::PermissionDenied,
        ),
        outcome == RemoveOutcome::Other ==> r == RemovalStep::Failed,
{
    match outcome {
        RemoveOutcome::Removed => RemovalStep::Done,
        RemoveOutcome::NotFound => RemovalStep::Done,
        RemoveOutcome::ResourceBusy => RemovalStep::AwaitOperator(PromptReason::Busy),
        RemoveOutcome::PermissionDenied => RemovalStep::AwaitOperator(
            PromptReason::PermissionDenied,
        ),
        RemoveOutcome::Other => RemovalStep::Failed,
    }
}

} // verus!

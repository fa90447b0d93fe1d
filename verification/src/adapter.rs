//! The completion adapter: a single-use completion signal seen as a
//! poll-based future.
//!
//! A handle operation waits on a one-shot completion channel. Two
//! independent failures can end that wait: the actor reported an I/O
//! failure, or the channel was abandoned before any answer (the actor
//! died, or the enqueue never reached it). Callers should not need to
//! tell those apart; the adapter folds both into one terminal error.
use vstd::prelude::*;

use crate::combinators::Step;
use crate::errors::ViceError;

verus! {

/// What one poll of the completion channel observed: nothing yet, the
/// operation's own result, or `Ready(None)` when the sending side was
/// dropped without answering.
pub type CompletionSignal<T> = Step<Option<Result<T, ViceError>>>;

/// One poll of the adapter. A pending channel stays pending; a delivered
/// result passes through; an abandoned channel — the owner of the
/// connection is gone — surfaces as `ActorUnavailable`, the same shape as
/// any other terminal failure of the operation.
pub fn poll_completion<T>(signal: CompletionSignal<T>) -> (r: Step<Result<T, ViceError>>)
    ensures
        signal is Pending <==> r is Pending,
        signal matches Step::Ready(Some(outcome)) ==> r == Step::<Result<T, ViceError>>::Ready(
            outcome,
        ),
        signal matches Step::Ready(done) && done is None ==> r == Step::<Result<T,
            ViceError,
        >>::Ready(Err(ViceError::ActorUnavailable)),
{
    match signal {
        Step::Pending => Step::Pending,
        Step::Ready(Some(outcome)) => Step::Ready(outcome),
        Step::Ready(None) => Step::Ready(Err(ViceError::ActorUnavailable)),
    }
}

} // verus!

//! Non-allocating future combinators, as explicit state machines.
//!
//! Each combinator here is the decision core of a poll-based future: the
//! surrounding task plumbing polls the inner future and hands its
//! readiness in as a [`Step`]; the combinator says what comes out and
//! what the next phase is. No combinator boxes anything or dispatches
//! dynamically; each phase is an explicit value.
use vstd::prelude::*;

verus! {

/// One observation of a future: still pending, or ready with its output.
pub enum Step<T> {
    Pending,
    Ready(T),
}

/// Output-mapping combinator: transforms the eventual single output
/// through a one-shot mapper.
///
/// The mapper is consumed by the one completion; evaluating the
/// combinator again after completion is a contract violation, which the
/// precondition of [`MapFuture::poll_step`] states.
pub struct MapFuture<M> {
    /// the one-shot mapper, present until the inner future completes
    pub mapper: Option<M>,
}

impl<M> MapFuture<M> {
    /// The combinator has not yet delivered its output.
    pub open spec fn armed(&self) -> bool {
        self.mapper is Some
    }

    /// Wrap a one-shot mapper around a future's eventual output.
    pub fn new(mapper: M) -> (r: MapFuture<M>)
        ensures
            r.armed(),
            r.mapper == Some(mapper),
    {
        MapFuture { mapper: Some(mapper) }
    }

    /// One evaluation: while the inner future is pending nothing changes;
    /// once it is ready the mapper fires exactly once and the combinator
    /// is spent.
    pub fn poll_step<T, R>(self, inner: Step<T>) -> (r: (Step<R>, MapFuture<M>)) where
        M: FnOnce(T) -> R,
        requires
            self.armed(),
            inner matches Step::Ready(t) ==> call_requires(self.mapper->0, (t,)),
        ensures
            inner is Pending ==> r.0 is Pending && r.1 == self,
            inner matches Step::Ready(t) ==> !r.1.armed()
                && (r.0 matches Step::Ready(out) && call_ensures(self.mapper->0, (t,), out)),
    {
        match inner {
            Step::Pending => (Step::Pending, self),
            Step::Ready(t) => {
                let mapper = match self.mapper {
                    Some(m) => m,
                    None => { unreached() },
                };
                (Step::Ready(mapper(t)), MapFuture { mapper: None })
            },
        }
    }
}

/// Sequential chaining with early exit: evaluate a first future, apply a
/// one-shot continuation to its output, and either finish at once or go
/// on with the second future the continuation returned.
pub enum ChainState<M, L> {
    /// waiting on the first future; the continuation is still armed
    First { continuation: M },
    /// the continuation chose a second future to drive to completion
    Second { next: L },
    /// the chain has produced its final value
    Finished,
}

impl<M, L> ChainState<M, L> {
    /// The first future completed with `t`: the continuation fires exactly
    /// once and decides between an immediate final value (`Err` side, the
    /// early exit) and a second future to continue with (`Ok` side).
    pub fn on_first_output<T, R>(self, t: T) -> (r: (ChainState<M, L>, Option<R>)) where
        M: FnOnce(T) -> Result<L, R>,
        requires
            self matches ChainState::First { continuation } && call_requires(continuation, (t,)),
        ensures
            ({
                let continuation = self->First_continuation;
                match r {
                    (ChainState::Second { next }, None) => call_ensures(
                        continuation,
                        (t,),
                        Ok(next),
                    ),
                    (ChainState::Finished, Some(v)) => call_ensures(continuation, (t,), Err(v)),
                    _ => false,
                }
            }),
    {
        let continuation = match self {
            ChainState::First { continuation } => continuation,
            _ => { unreached() },
        };
        match continuation(t) {
            Ok(next) => (ChainState::Second { next }, None),
            Err(v) => (ChainState::Finished, Some(v)),
        }
    }

    /// The second future completed: its output is the chain's output, and
    /// the chain is spent.
    pub fn on_second_output<R>(self, v: R) -> (r: (ChainState<M, L>, R))
        requires
            self is Second,
        ensures
            r.0 is Finished,
            r.1 == v,
    {
        (ChainState::Finished, v)
    }
}

/// A value from one of two differently-typed branches.
pub enum Either<A, B> {
    Left(A),
    Right(B),
}

impl<A, B> Either<A, B> {
    /// Two-branch-output unification: whichever branch produced the value,
    /// convert it to the one common output type, so both branches can be
    /// awaited through a single future type.
    pub fn converge<O, FA, FB>(self, left_into: FA, right_into: FB) -> (r: O) where
        FA: FnOnce(A) -> O,
        FB: FnOnce(B) -> O,
        requires
            self matches Either::Left(a) ==> call_requires(left_into, (a,)),
            self matches Either::Right(b) ==> call_requires(right_into, (b,)),
        ensures
            self matches Either::Left(a) ==> call_ensures(left_into, (a,), r),
            self matches Either::Right(b) ==> call_ensures(right_into, (b,), r),
    {
        match self {
            Either::Left(a) => left_into(a),
            Either::Right(b) => right_into(b),
        }
    }

    /// The branch-tagging step of a two-branch future: a ready output of
    /// the polled branch surfaces under that branch's tag, untouched.
    pub fn tag_output<T>(self, out: T) -> (r: Either<T, T>)
        ensures
            self is Left ==> r == Either::<T, T>::Left(out),
            self is Right ==> r == Either::<T, T>::Right(out),
    {
        match self {
            Either::Left(_) => Either::Left(out),
            Either::Right(_) => Either::Right(out),
        }
    }
}

} // verus!

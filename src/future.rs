//! The future adapter that generated code is wrapped in: it turns what one
//! resumption of the coroutine gave into the result of one poll.
use vstd::prelude::*;

verus! {

/// The result of one poll: a value, or not yet.
#[derive(Clone, Copy, Debug, PartialEq, Eq)]
pub enum Poll<T> {
    Ready(T),
    Pending,
}

/// What resuming a coroutine gives: a yielded value, or its return value.
#[derive(Clone, Copy, Debug, PartialEq, Eq)]
pub enum CoroutineState<Y, R> {
    Yielded(Y),
    Complete(R),
}

/// Ties a lifetime to a value; it lets a bound on the resume argument name
/// the lifetime of the context it stands for.
pub struct Wrapper<'a, T>(pub core::marker::PhantomData<&'a ()>, pub T);

/// A coroutine that yields `()` at each suspension, driven as a future.
pub struct GenFuture<G> {
    pub gen: G,
}

/// Wraps a coroutine in a future.
pub fn from_generator<G>(gen: G) -> (r: GenFuture<G>)
    ensures
        r.gen == gen,
{
    GenFuture { gen }
}

pub open spec fn spec_future_poll<R>(state: CoroutineState<(), R>) -> Poll<R> {
    match state {
        CoroutineState::Yielded(_) => Poll::Pending,
        CoroutineState::Complete(x) => Poll::Ready(x),
    }
}

impl<G> GenFuture<G> {
    /// One poll, given what resuming the coroutine gave: a suspension is
    /// `Pending`, the return value is ready.
    pub fn poll<R>(&mut self, state: CoroutineState<(), R>) -> (r: Poll<R>)
        ensures
            r == spec_future_poll(state),
            final(self).gen == old(self).gen,
    {
        match state {
            CoroutineState::Yielded(_) => Poll::Pending,
            CoroutineState::Complete(x) => Poll::Ready(x),
        }
    }
}

} // verus!

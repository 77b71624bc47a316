//! The stream adapter: the coroutine yields `Poll<T>` at each suspension and
//! returns `()` at its end.
use vstd::prelude::*;

use crate::future::{CoroutineState, Poll};

verus! {

/// A coroutine driven as a stream.
pub struct GenStream<G> {
    pub gen: G,
}

/// Wraps a coroutine in a stream.
pub fn from_generator<G>(gen: G) -> (r: GenStream<G>)
    ensures
        r.gen == gen,
{
    GenStream { gen }
}

pub open spec fn spec_stream_poll<T>(state: CoroutineState<Poll<T>, ()>) -> Poll<Option<T>> {
    match state {
        CoroutineState::Yielded(Poll::Ready(x)) => Poll::Ready(Some(x)),
        CoroutineState::Yielded(Poll::Pending) => Poll::Pending,
        CoroutineState::Complete(_) => Poll::Ready(None),
    }
}

impl<G> GenStream<G> {
    /// One poll, given what resuming the coroutine gave: a yielded
    /// `Ready(x)` is the next item, a yielded `Pending` is `Pending`, and the
    /// end is the end of the stream.
    pub fn poll_next<T>(&mut self, state: CoroutineState<Poll<T>, ()>) -> (r: Poll<Option<T>>)
        ensures
            r == spec_stream_poll(state),
            final(self).gen == old(self).gen,
    {
        match state {
            CoroutineState::Yielded(Poll::Ready(x)) => Poll::Ready(Some(x)),
            CoroutineState::Yielded(Poll::Pending) => Poll::Pending,
            CoroutineState::Complete(_) => Poll::Ready(None),
        }
    }
}

} // verus!

//! The fallible stream adapter: the coroutine yields `Poll<T>` and returns
//! `Result<(), E>`. An error or the end terminates the stream for good: the
//! coroutine is never resumed again, and every later poll is the end.
use vstd::prelude::*;

use crate::future::{CoroutineState, Poll};

verus! {

/// A coroutine driven as a fused fallible stream.
pub struct GenTryStream<G> {
    pub gen: G,
    /// Set once the coroutine has failed or ended.
    pub done: bool,
}

/// Wraps a coroutine in a fallible stream.
pub fn from_generator<G>(gen: G) -> (r: GenTryStream<G>)
    ensures
        r.gen == gen,
        !r.done,
{
    GenTryStream { gen, done: false }
}

/// One poll from the latch `done`, given what resuming the coroutine gave
/// (which is not looked at once the stream has terminated): the result, and
/// the latch afterwards.
pub open spec fn spec_try_poll<T, E>(done: bool, state: CoroutineState<Poll<T>, Result<(), E>>) -> (
    Poll<Option<Result<T, E>>>,
    bool,
) {
    if done {
        (Poll::Ready(None), true)
    } else {
        match state {
            CoroutineState::Yielded(Poll::Ready(x)) => (Poll::Ready(Some(Ok(x))), false),
            CoroutineState::Yielded(Poll::Pending) => (Poll::Pending, false),
            CoroutineState::Complete(Err(e)) => (Poll::Ready(Some(Err(e))), true),
            CoroutineState::Complete(Ok(_)) => (Poll::Ready(None), true),
        }
    }
}

impl<G> GenTryStream<G> {
    /// `true` once the stream has failed or ended; the coroutine must then
    /// not be resumed.
    pub fn is_terminated(&self) -> (r: bool)
        ensures
            r == self.done,
    {
        self.done
    }

    /// One poll. The driver resumes the coroutine only while the stream has
    /// not terminated, and hands over what that gave.
    pub fn poll_next<T, E>(&mut self, state: CoroutineState<Poll<T>, Result<(), E>>) -> (r: Poll<
        Option<Result<T, E>>,
    >)
        ensures
            (r, final(self).done) == spec_try_poll(old(self).done, state),
            final(self).gen == old(self).gen,
    {
        if self.done {
            return Poll::Ready(None);
        }
        let r = match state {
            CoroutineState::Yielded(Poll::Ready(x)) => Poll::Ready(Some(Ok(x))),
            CoroutineState::Yielded(Poll::Pending) => Poll::Pending,
            CoroutineState::Complete(Err(e)) => Poll::Ready(Some(Err(e))),
            CoroutineState::Complete(Ok(_)) => Poll::Ready(None),
        };
        if matches!(r, Poll::Ready(Some(Err(_))) | Poll::Ready(None)) {
            self.done = true;
        }
        r
    }
}

/// The results of polling from latch `done` with the resumptions `states`,
/// one after another.
pub open spec fn spec_try_poll_all<T, E>(
    done: bool,
    states: Seq<CoroutineState<Poll<T>, Result<(), E>>>,
) -> Seq<Poll<Option<Result<T, E>>>>
    decreases states.len(),
{
    if states.len() == 0 {
        seq![]
    } else {
        let (r, d) = spec_try_poll(done, states[0]);
        seq![r] + spec_try_poll_all(d, states.drop_first())
    }
}

/// Once a fallible stream gives an error or its end, every later poll gives
/// the end, whatever the coroutine would have given.
pub proof fn lemma_try_stream_fused<T, E>(
    done: bool,
    states: Seq<CoroutineState<Poll<T>, Result<(), E>>>,
    i: int,
    j: int,
)
    requires
        0 <= i < j < states.len(),
        spec_try_poll_all(done, states)[i] matches Poll::Ready(r) && (r is None || r matches Some(
            Err(_),
        )),
    ensures
        spec_try_poll_all(done, states)[j] == Poll::<Option<Result<T, E>>>::Ready(None),
    decreases states.len(),
{
    let (r, d) = spec_try_poll(done, states[0]);
    let rest = states.drop_first();
    let all = spec_try_poll_all(done, states);
    lemma_try_poll_all_len(d, rest);
    assert(all == seq![r] + spec_try_poll_all(d, rest));
    assert(all[j] == spec_try_poll_all(d, rest)[j - 1]);
    assert(all[i] == (seq![r] + spec_try_poll_all(d, rest))[i]);
    if i == 0 {
        assert(d);
        lemma_terminated_stays(rest, j - 1);
    } else {
        lemma_try_stream_fused(d, rest, i - 1, j - 1);
    }
}

proof fn lemma_terminated_stays<T, E>(states: Seq<CoroutineState<Poll<T>, Result<(), E>>>, j: int)
    requires
        0 <= j < states.len(),
    ensures
        spec_try_poll_all(true, states)[j] == Poll::<Option<Result<T, E>>>::Ready(None),
    decreases states.len(),
{
    let rest = states.drop_first();
    lemma_try_poll_all_len(true, rest);
    let all = spec_try_poll_all(true, states);
    assert(all == seq![Poll::Ready(None)] + spec_try_poll_all(true, rest));
    if j > 0 {
        assert(all[j] == spec_try_poll_all(true, rest)[j - 1]);
        lemma_terminated_stays(rest, j - 1);
    }
}

proof fn lemma_try_poll_all_len<T, E>(done: bool, states: Seq<CoroutineState<Poll<T>, Result<(), E>>>)
    ensures
        spec_try_poll_all(done, states).len() == states.len(),
    decreases states.len(),
{
    if states.len() > 0 {
        let (r, d) = spec_try_poll(done, states[0]);
        lemma_try_poll_all_len(d, states.drop_first());
    }
}

} // verus!

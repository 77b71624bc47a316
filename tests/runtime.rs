use futures_async_stream::future::{self, CoroutineState, Poll};
use futures_async_stream::stream;
use futures_async_stream::try_stream;

#[test]
fn future_adapter() {
    let mut f = future::from_generator(7u8);
    assert_eq!(f.gen, 7);
    assert_eq!(f.poll::<u32>(CoroutineState::Yielded(())), Poll::Pending);
    assert_eq!(f.poll(CoroutineState::Complete(3u32)), Poll::Ready(3));
}

#[test]
fn stream_yields_then_ends() {
    // the coroutine of `yield 0; yield 1;`
    let mut s = stream::from_generator(());
    let steps = vec![
        CoroutineState::Yielded(Poll::Ready(0u64)),
        CoroutineState::Yielded(Poll::Ready(1u64)),
        CoroutineState::Complete(()),
    ];
    let out: Vec<Poll<Option<u64>>> = steps.into_iter().map(|st| s.poll_next(st)).collect();
    assert_eq!(out, vec![Poll::Ready(Some(0)), Poll::Ready(Some(1)), Poll::Ready(None)]);
}

#[test]
fn stream_of_squares() {
    // `for x in inner { yield x * x; }` over 1, 2, 3, 4, with the inner
    // stream pending once in between
    let mut s = stream::from_generator(());
    let mut out = vec![];
    for x in [1i32, 2, 3, 4] {
        if x == 3 {
            assert_eq!(s.poll_next(CoroutineState::Yielded(Poll::<i32>::Pending)), Poll::Pending);
        }
        if let Poll::Ready(Some(v)) = s.poll_next(CoroutineState::Yielded(Poll::Ready(x * x))) {
            out.push(v);
        }
    }
    assert_eq!(out, vec![1, 4, 9, 16]);
    assert_eq!(s.poll_next::<i32>(CoroutineState::Complete(())), Poll::Ready(None));
}

#[test]
fn fallible_stream_stops_after_an_error() {
    let mut s = try_stream::from_generator(());
    assert!(!s.is_terminated());
    assert_eq!(s.poll_next::<i32, i32>(CoroutineState::Yielded(Poll::Ready(0))), Poll::Ready(Some(Ok(0))));
    assert_eq!(s.poll_next::<i32, i32>(CoroutineState::Yielded(Poll::Pending)), Poll::Pending);
    assert_eq!(s.poll_next::<i32, i32>(CoroutineState::Complete(Err(1))), Poll::Ready(Some(Err(1))));
    assert!(s.is_terminated());
    // whatever a resumption would give, the stream has ended
    assert_eq!(s.poll_next::<i32, i32>(CoroutineState::Yielded(Poll::Ready(5))), Poll::Ready(None));
    assert_eq!(s.poll_next::<i32, i32>(CoroutineState::Complete(Err(2))), Poll::Ready(None));
    assert!(s.is_terminated());
}

#[test]
fn fallible_stream_stops_at_its_end() {
    let mut s = try_stream::from_generator(());
    assert_eq!(s.poll_next::<i32, i32>(CoroutineState::Complete(Ok(()))), Poll::Ready(None));
    assert!(s.is_terminated());
    assert_eq!(s.poll_next::<i32, i32>(CoroutineState::Yielded(Poll::Ready(1))), Poll::Ready(None));
}

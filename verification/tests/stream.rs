use cotask::poll::Poll;
use cotask::stream::from_iter;

#[test]
fn stream_yields_elements_in_order() {
    let mut s = from_iter(vec![0u32, 1, 2, 3]);
    assert_eq!(s.poll_next(), Poll::Ready(Some(0)));
    assert_eq!(s.poll_next(), Poll::Ready(Some(1)));
    assert_eq!(s.poll_next(), Poll::Ready(Some(2)));
    assert_eq!(s.poll_next(), Poll::Ready(Some(3)));
    assert_eq!(s.poll_next(), Poll::Ready(None));
}

#[test]
fn stream_from_empty_source_ends_immediately() {
    let mut s = from_iter(Vec::<u64>::new());
    assert_eq!(s.poll_next(), Poll::Ready(None));
    assert_eq!(s.poll_next(), Poll::Ready(None));
}

#[test]
fn stream_never_suspends() {
    let mut s = from_iter(vec![7u64]);
    for _ in 0..3 {
        assert!(s.poll_next().is_ready());
    }
}

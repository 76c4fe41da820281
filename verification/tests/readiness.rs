use core::task::Poll;
use maybe_borrow::poll_windows::{poll_next_filtered, PollWindows};
use maybe_borrow::ptr_impls::Handle;

#[test]
fn test_pending_keeps_accumulated_state() {
    // the source goes not-ready in the middle of filling the first window;
    // the call reports not-ready and a later call resumes where it left off
    let events = vec![
        Poll::Ready(Some(1)),
        Poll::Ready(Some(2)),
        Poll::Pending,
        Poll::Ready(Some(3)),
        Poll::Ready(Some(4)),
        Poll::Ready(None),
    ];
    let mut w = PollWindows::new(events, 3);
    assert_eq!(w.poll_next_window(), Poll::Pending);
    // the two items seen before the not-ready answer are still accumulated
    assert_eq!(w.buf, vec![1, 2]);
    assert_eq!(w.poll_next_window(), Poll::Ready(Some(vec![1, 2, 3])));
    assert_eq!(w.poll_next_window(), Poll::Ready(Some(vec![2, 3, 4])));
    assert_eq!(w.poll_next_window(), Poll::Ready(None));
}

#[test]
fn test_filtered_scan_propagates_pending() {
    let events = vec![
        Poll::Ready(Some(2)),
        Poll::Pending,
        Poll::Ready(Some(3)),
        Poll::Ready(Some(5)),
        Poll::Ready(None),
    ];
    let h = Handle(PollWindows::new(events, 2));
    // the source goes not-ready while the first window is still filling:
    // the marker comes out without the scan losing its place
    let (r1, h1) = poll_next_filtered(h, |x: &Vec<i32>| x[0] % 2 != 0);
    assert!(matches!(r1, Poll::Pending));
    // the resumed scan completes [2, 3], rejects it, and accepts [3, 5]
    let (r2, h2) = poll_next_filtered(h1, |x: &Vec<i32>| x[0] % 2 != 0);
    assert_eq!(r2, Poll::Ready(Some(vec![3, 5])));
    let (r3, _h3) = poll_next_filtered(h2, |x: &Vec<i32>| x[0] % 2 != 0);
    assert_eq!(r3, Poll::Ready(None));
}

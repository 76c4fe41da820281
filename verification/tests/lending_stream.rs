use core::task::Poll;
use maybe_borrow::poll_windows::{poll_next_filtered, PollWindows};
use maybe_borrow::ptr_impls::Handle;

fn ready_source(items: &[i32]) -> Vec<Poll<Option<i32>>> {
    let mut events: Vec<Poll<Option<i32>>> = Vec::new();
    for &x in items {
        events.push(Poll::Ready(Some(x)));
    }
    events.push(Poll::Ready(None));
    events
}

#[test]
fn lending_stream_test_next_filtered() {
    let events = ready_source(&[1, 2, 3, 4, 5, 6, 7, 8, 9, 10]);
    let mut h = Handle(PollWindows::new(events, 3));
    let mut items: Vec<Vec<i32>> = Vec::new();
    loop {
        let (r, h2) = poll_next_filtered(h, |x: &Vec<i32>| x[0] % 2 != 0);
        h = h2;
        match r {
            Poll::Ready(Some(w)) => items.push(w),
            Poll::Ready(None) => break,
            Poll::Pending => {}
        }
    }
    assert_eq!(items, [[1, 2, 3], [3, 4, 5], [5, 6, 7], [7, 8, 9]]);
}

#[test]
fn lending_stream_test_next_filtered_with_try() {
    let events = ready_source(&[1, 2, 3, 4, 5, 6, 7, 8, 9, 10]);
    let mut h = Handle(PollWindows::new(events, 3));
    let mut items: Vec<Vec<i32>> = Vec::new();
    loop {
        let (r, h2) = poll_next_filtered(h, |x: &Vec<i32>| x[0] % 2 != 0);
        h = h2;
        match r {
            Poll::Ready(Some(w)) => items.push(w),
            Poll::Ready(None) => break,
            Poll::Pending => {}
        }
    }
    assert_eq!(items, [[1, 2, 3], [3, 4, 5], [5, 6, 7], [7, 8, 9]]);
}

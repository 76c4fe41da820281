use maybe_borrow::ptr_impls::Handle;
use maybe_borrow::windows::{next_filtered, next_filtered_with_try, Windows};

#[test]
fn test_next_filtered() {
    let mut h = Handle(Windows::new(vec![1, 2, 3, 4, 5, 6, 7, 8, 9, 10], 3));
    let mut items: Vec<Vec<i32>> = Vec::new();
    loop {
        let (r, h2) = next_filtered(h, |x: &Vec<i32>| x[0] % 2 != 0);
        h = h2;
        match r {
            Some(w) => items.push(w),
            None => break,
        }
    }
    assert_eq!(items, [[1, 2, 3], [3, 4, 5], [5, 6, 7], [7, 8, 9],]);
}

#[test]
fn test_next_filtered_with_try() {
    let mut h = Handle(Windows::new(vec![1, 2, 3, 4, 5, 6, 7, 8, 9, 10], 3));
    let mut items: Vec<Vec<i32>> = Vec::new();
    loop {
        let (r, h2) = next_filtered_with_try(h, |x: &Vec<i32>| x[0] % 2 != 0);
        h = h2;
        match r {
            Some(w) => items.push(w),
            None => break,
        }
    }
    assert_eq!(items, [[1, 2, 3], [3, 4, 5], [5, 6, 7], [7, 8, 9],]);
}

#[test]
fn test_windows_base_sequence() {
    let mut w = Windows::new(vec![1, 2, 3, 4], 3);
    assert_eq!(w.next_window(), Some(vec![1, 2, 3]));
    assert_eq!(w.next_window(), Some(vec![2, 3, 4]));
    assert_eq!(w.next_window(), None);
    assert_eq!(w.next_window(), None);
}

#[test]
fn test_windows_degenerate_sizes() {
    let mut empty = Windows::new(Vec::<i32>::new(), 3);
    assert_eq!(empty.next_window(), None);
    let mut zero = Windows::new(vec![1, 2], 0);
    assert_eq!(zero.next_window(), None);
    let mut wide = Windows::new(vec![1, 2], 5);
    assert_eq!(wide.next_window(), None);
}

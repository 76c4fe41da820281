use core::ops::ControlFlow;
use core::task::Poll;
use maybe_borrow::custom_try::{map_continue, CustomTry};
use maybe_borrow::maybe_borrow_impl::ready_or_break;
use maybe_borrow::try_maybe_borrow_helper;

#[test]
fn test_option_round_trip() {
    let vals: Vec<Option<i32>> = vec![Some(7), None];
    for v in vals {
        assert_eq!(Option::from_ctrl(v.into_ctrl()), v);
    }
    assert_eq!(Some(7i32).into_ctrl(), ControlFlow::Continue(Ok(7)));
    assert_eq!(None::<i32>.into_ctrl(), ControlFlow::Break(()));
}

#[test]
fn test_result_round_trip() {
    let vals: Vec<Result<i32, String>> = vec![Ok(7), Err("e".to_string())];
    for v in vals {
        assert_eq!(Result::from_ctrl(v.clone().into_ctrl()), v);
    }
    assert_eq!(Ok::<i32, String>(7).into_ctrl(), ControlFlow::Continue(Ok(7)));
    assert_eq!(
        Err::<i32, String>("e".to_string()).into_ctrl(),
        ControlFlow::Break("e".to_string())
    );
}

#[test]
fn test_control_flow_round_trip() {
    let vals: Vec<ControlFlow<u8, i32>> = vec![ControlFlow::Continue(7), ControlFlow::Break(3)];
    for v in vals {
        assert_eq!(ControlFlow::from_ctrl(v.into_ctrl()), v);
    }
}

#[test]
fn test_poll_result_round_trip() {
    let vals: Vec<Poll<Result<i32, String>>> =
        vec![Poll::Ready(Ok(7)), Poll::Ready(Err("e".to_string())), Poll::Pending];
    for v in vals {
        assert_eq!(Poll::from_ctrl(v.clone().into_ctrl()), v);
    }
    assert_eq!(
        Poll::Pending::<Result<i32, String>>.into_ctrl(),
        ControlFlow::Continue(Err(()))
    );
}

#[test]
fn test_poll_option_result_round_trip() {
    let vals: Vec<Poll<Option<Result<i32, String>>>> = vec![
        Poll::Ready(Some(Ok(7))),
        Poll::Ready(Some(Err("e".to_string()))),
        Poll::Ready(None),
        Poll::Pending,
    ];
    for v in vals {
        assert_eq!(Poll::from_ctrl(v.clone().into_ctrl()), v);
    }
    assert_eq!(
        Poll::Ready(Some(Err::<i32, String>("e".to_string()))).into_ctrl(),
        ControlFlow::Break(Some("e".to_string()))
    );
    assert_eq!(
        Poll::Ready(None::<Result<i32, String>>).into_ctrl(),
        ControlFlow::Break(None)
    );
}

#[test]
fn test_map_continue() {
    let some: Option<String> = map_continue(Some(3i32), |x: i32| format!("{}", x * 2));
    assert_eq!(some, Some("6".to_string()));
    let none: Option<String> = map_continue(None::<i32>, |x: i32| format!("{}", x));
    assert_eq!(none, None);
    let err: Result<String, u8> = map_continue(Err::<i32, u8>(9), |x: i32| format!("{}", x));
    assert_eq!(err, Err(9));
}

#[test]
fn test_from_cases() {
    assert_eq!(Option::<i32>::from_continue(5), Some(5));
    assert_eq!(Result::<i32, String>::from_residual("e".to_string()), Err("e".to_string()));
    assert_eq!(Poll::<Result<i32, String>>::from_empty(()), Poll::Pending);
}

#[test]
fn test_try_helper_residual() {
    // an outer failure raised inside the block is threaded outward unchanged
    let r: ControlFlow<Result<i32, String>, u8> =
        try_maybe_borrow_helper(|_w| Err::<ControlFlow<i32, u8>, String>("boom".to_string()));
    assert_eq!(r, ControlFlow::Break(Err("boom".to_string())));
}

#[test]
fn test_try_helper_break() {
    // the protocol's own break becomes the continue case of the final value
    let r: ControlFlow<Result<i32, String>, u8> =
        try_maybe_borrow_helper(|_w| Ok::<ControlFlow<i32, u8>, String>(ControlFlow::Break(5)));
    assert_eq!(r, ControlFlow::Break(Ok(5)));
}

#[test]
fn test_try_helper_exit() {
    // a normal completion wraps the exit value and continues
    let r: ControlFlow<Result<i32, String>, u8> = try_maybe_borrow_helper(
        |w: maybe_borrow::WrapTryMaybeBorrowExit<Result<ControlFlow<i32, u8>, String>>| {
            w.wrap(9u8)
        },
    );
    assert_eq!(r, ControlFlow::Continue(9));
}

#[test]
fn test_ready_or_break() {
    let ready: ControlFlow<Poll<Option<i32>>, i32> = ready_or_break(Poll::Ready(5));
    assert_eq!(ready, ControlFlow::Continue(5));
    let pending: ControlFlow<Poll<Option<i32>>, i32> = ready_or_break(Poll::Pending::<i32>);
    assert_eq!(pending, ControlFlow::Break(Poll::Pending));
}

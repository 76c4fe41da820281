use core::ops::ControlFlow;
use maybe_borrow::maybe_borrow_impl::{maybe_borrow, maybe_borrow_pair, try_maybe_borrow};
use maybe_borrow::noop_use_mut;
use maybe_borrow::ptr_impls::{Alias, Handle, Pinned};
use maybe_borrow::traits::Reborrow;
use maybe_borrow::{ForceMove, WrapTryMaybeBorrowExit};

type TryBody = Result<ControlFlow<i32, (u8, Alias<u32>)>, String>;

#[test]
fn test_break_on_nth_call() {
    // the block declines four times, mutating the resource, then breaks with
    // a derived value on the fifth call
    let mut h = Handle(0u64);
    let mut calls = 0u64;
    let result = loop {
        calls += 1;
        let out = maybe_borrow(h, |a: Alias<u64>| {
            if a.0 == 4 {
                ControlFlow::Break(a.0 * 10)
            } else {
                ControlFlow::Continue(((), Alias(a.0 + 1)))
            }
        });
        match out {
            ControlFlow::Break(v) => break v,
            ControlFlow::Continue(((), h2)) => {
                h = h2;
                // after each declined call the handle shows exactly the
                // mutation the block applied
                assert_eq!(h.0, calls);
            }
        }
    };
    assert_eq!(calls, 5);
    assert_eq!(result, 40);
}

#[test]
fn test_continue_restores_handle() {
    // a block that reads and continues hands back an indistinguishable handle
    let h = Handle(vec![1u8, 2, 3]);
    let out = maybe_borrow(h, |a: Alias<Vec<u8>>| {
        let first = a.0[0];
        ControlFlow::Continue::<u8, _>((first, a))
    });
    match out {
        ControlFlow::Continue((first, h2)) => {
            assert_eq!(first, 1);
            assert_eq!(h2.0, vec![1u8, 2, 3]);
        }
        ControlFlow::Break(_) => panic!("the block never breaks"),
    }
}

#[test]
fn test_pair_order_preserved() {
    // two handles invoked together come back in original positional order
    let out = maybe_borrow_pair(Handle(1u32), Handle(2u32), |(a, b): (Alias<u32>, Alias<u32>)| {
        let sum = a.0 + b.0;
        ControlFlow::Continue::<u32, _>((sum, (a, b)))
    });
    match out {
        ControlFlow::Continue((sum, first, second)) => {
            assert_eq!(sum, 3);
            assert_eq!(first.0, 1);
            assert_eq!(second.0, 2);
        }
        ControlFlow::Break(_) => panic!("the block never breaks"),
    }
}

#[test]
fn test_pair_break_short_circuits() {
    let out = maybe_borrow_pair(Handle(5u32), Handle(7u32), |(a, b): (Alias<u32>, Alias<u32>)| {
        ControlFlow::Break::<u32, ((), _)>(a.0 * b.0)
    });
    match out {
        ControlFlow::Break(v) => assert_eq!(v, 35),
        ControlFlow::Continue(_) => panic!("the block always breaks"),
    }
}

#[test]
fn test_reborrow_round_trip() {
    // reborrowing and restoring, through the pinned and pair kinds too,
    // yields a handle indistinguishable from the original
    let h = (Pinned(Handle(3u8)), Handle(4u8));
    let alias = Reborrow::reborrow(h);
    let back = <(Pinned<Handle<u8>>, Handle<u8>) as Reborrow>::restore(alias);
    assert_eq!(back.0 .0 .0, 3);
    assert_eq!(back.1 .0, 4);
}

#[test]
fn test_try_engine_forwards_residual() {
    // an outer failure raised inside the block travels out unchanged
    let r: ControlFlow<Result<i32, String>, (u8, Handle<u32>)> = try_maybe_borrow(
        Handle(1u32),
        |_a: Alias<u32>, _w: WrapTryMaybeBorrowExit<TryBody>| {
            Err::<ControlFlow<i32, (u8, Alias<u32>)>, String>("down".to_string())
        },
    );
    assert!(matches!(r, ControlFlow::Break(Err(ref e)) if e == "down"));
}

#[test]
fn test_try_engine_breaks() {
    let r: ControlFlow<Result<i32, String>, (u8, Handle<u32>)> = try_maybe_borrow(
        Handle(2u32),
        |a: Alias<u32>, _w: WrapTryMaybeBorrowExit<TryBody>| {
            Ok::<ControlFlow<i32, (u8, Alias<u32>)>, String>(ControlFlow::Break((a.0 as i32) * 10))
        },
    );
    assert!(matches!(r, ControlFlow::Break(Ok(20))));
}

#[test]
fn test_try_engine_continues_and_restores() {
    let r: ControlFlow<Result<i32, String>, (u8, Handle<u32>)> = try_maybe_borrow(
        Handle(3u32),
        |a: Alias<u32>, w: WrapTryMaybeBorrowExit<TryBody>| w.wrap((9u8, a)),
    );
    match r {
        ControlFlow::Continue((exit, h)) => {
            assert_eq!(exit, 9);
            assert_eq!(h.0, 3);
        }
        ControlFlow::Break(_) => panic!("the block exits normally"),
    }
}

#[test]
fn test_shared_reference_kind() {
    // a shared reference is itself a reborrowable handle
    let value = 11u64;
    let out = maybe_borrow(&value, |a: &u64| {
        if *a > 10 {
            ControlFlow::Break(*a + 1)
        } else {
            ControlFlow::Continue(((), a))
        }
    });
    assert!(matches!(out, ControlFlow::Break(12)));
}

#[test]
fn test_force_move_and_noop() {
    let m = ForceMove(9u8);
    assert_eq!(m.0, 9);
    let mut x = 5u8;
    noop_use_mut(&mut x);
    assert_eq!(x, 5);
}

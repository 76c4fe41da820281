//! The invocation engine: run a block over the alias of a resource handle and
//! interpret the block's outcome, either breaking with a value that keeps the
//! alias or continuing with a plain value and the handle restored intact.

use crate::custom_try::CustomTry;
use crate::traits::Reborrow;
use crate::WrapTryMaybeBorrowExit;
use core::ops::ControlFlow;
use core::task::Poll;
use vstd::prelude::*;

verus! {

/// What `maybe_borrow` returns, as a function of one possible outcome `o` of
/// the block: a break outcome is handed through; a continue outcome pairs the
/// plain value with the handle restored from the alias the block gave back.
pub open spec fn maybe_borrow_result<Ptr: Reborrow, B, C>(
    o: ControlFlow<B, (C, Ptr::Borrowed)>,
) -> ControlFlow<B, (C, Ptr)> {
    match o {
        ControlFlow::Break(b) => ControlFlow::Break(b),
        ControlFlow::Continue((c, ab)) => ControlFlow::Continue((c, Ptr::alias_of(ab))),
    }
}

/// The contract of one invocation: some outcome `o` the block allows on the
/// alias of `this` produced `r`.
pub open spec fn maybe_borrow_post<
    Ptr: Reborrow,
    B,
    C,
    F: FnOnce(Ptr::Borrowed) -> ControlFlow<B, (C, Ptr::Borrowed)>,
>(block: F, this: Ptr, r: ControlFlow<B, (C, Ptr)>) -> bool {
    exists|o: ControlFlow<B, (C, Ptr::Borrowed)>|
        #[trigger] call_ensures(block, (Ptr::borrowed_of(this),), o) && r
            == maybe_borrow_result::<Ptr, B, C>(o)
}

/// Runs `block` over the alias of `this`. On break, the block's value is the
/// final result and the handle is never surfaced again; on continue, the
/// block's plain value is paired with the handle rebuilt from the alias.
pub fn maybe_borrow<Ptr: Reborrow, B, C, F: FnOnce(Ptr::Borrowed) -> ControlFlow<
    B,
    (C, Ptr::Borrowed),
>>(this: Ptr, block: F) -> (r: ControlFlow<B, (C, Ptr)>)
    requires
        call_requires(block, (Ptr::borrowed_of(this),)),
    ensures
        maybe_borrow_post(block, this, r),
{
    let borrowed = Ptr::extend(Ptr::reborrow(this));
    let ctrl = block(borrowed);
    match ctrl {
        ControlFlow::Break(out) => ControlFlow::Break(out),
        ControlFlow::Continue((out, ab)) => ControlFlow::Continue((out, Ptr::restore(ab))),
    }
}

/// If every outcome the block allows on the alias of `this` is a break with
/// value `v`, the invocation returns exactly `v`.
pub proof fn lemma_maybe_borrow_breaks<
    Ptr: Reborrow,
    B,
    C,
    F: FnOnce(Ptr::Borrowed) -> ControlFlow<B, (C, Ptr::Borrowed)>,
>(block: F, this: Ptr, r: ControlFlow<B, (C, Ptr)>, v: B)
    requires
        maybe_borrow_post(block, this, r),
        forall|o: ControlFlow<B, (C, Ptr::Borrowed)>|
            #[trigger] call_ensures(block, (Ptr::borrowed_of(this),), o) ==> o
                == ControlFlow::<B, (C, Ptr::Borrowed)>::Break(v),
    ensures
        r == ControlFlow::<B, (C, Ptr)>::Break(v),
{
}

/// If every outcome the block allows is a continue that hands the alias back
/// unchanged, the invocation continues with a handle indistinguishable from
/// the original.
pub proof fn lemma_maybe_borrow_restores<
    Ptr: Reborrow,
    B,
    C,
    F: FnOnce(Ptr::Borrowed) -> ControlFlow<B, (C, Ptr::Borrowed)>,
>(block: F, this: Ptr, r: ControlFlow<B, (C, Ptr)>)
    requires
        maybe_borrow_post(block, this, r),
        forall|o: ControlFlow<B, (C, Ptr::Borrowed)>|
            #[trigger] call_ensures(block, (Ptr::borrowed_of(this),), o) ==> (o matches
            ControlFlow::Continue(p) && p.1 == Ptr::borrowed_of(this)),
    ensures
        r matches ControlFlow::Continue(p) && p.1 == this,
{
    Ptr::lemma_restore_inverts_reborrow(this);
}

/// What `maybe_borrow_pair` returns for one block outcome: on continue, each
/// half of the pair alias is restored in its original position.
pub open spec fn maybe_borrow_pair_result<P1: Reborrow, P2: Reborrow, B, C>(
    o: ControlFlow<B, (C, (P1::Borrowed, P2::Borrowed))>,
) -> ControlFlow<B, (C, P1, P2)> {
    match o {
        ControlFlow::Break(b) => ControlFlow::Break(b),
        ControlFlow::Continue((c, (b1, b2))) => ControlFlow::Continue(
            (c, P1::alias_of(b1), P2::alias_of(b2)),
        ),
    }
}

/// The contract of a two-resource invocation.
pub open spec fn maybe_borrow_pair_post<
    P1: Reborrow,
    P2: Reborrow,
    B,
    C,
    F: FnOnce((P1::Borrowed, P2::Borrowed)) -> ControlFlow<B, (C, (P1::Borrowed, P2::Borrowed))>,
>(block: F, p1: P1, p2: P2, r: ControlFlow<B, (C, P1, P2)>) -> bool {
    exists|o: ControlFlow<B, (C, (P1::Borrowed, P2::Borrowed))>|
        #[trigger] call_ensures(block, ((P1::borrowed_of(p1), P2::borrowed_of(p2)),), o) && r
            == maybe_borrow_pair_result::<P1, P2, B, C>(o)
}

/// Runs `block` over the aliases of an ordered pair of handles. A break
/// anywhere short-circuits the whole composition; on continue the restored
/// handles come back in their original positional order. A longer list of
/// resources is a right-nested pair of pairs, through the pair handle kind.
pub fn maybe_borrow_pair<P1: Reborrow, P2: Reborrow, B, C, F: FnOnce(
    (P1::Borrowed, P2::Borrowed),
) -> ControlFlow<B, (C, (P1::Borrowed, P2::Borrowed))>>(p1: P1, p2: P2, block: F) -> (r:
    ControlFlow<B, (C, P1, P2)>)
    requires
        call_requires(block, ((P1::borrowed_of(p1), P2::borrowed_of(p2)),)),
    ensures
        maybe_borrow_pair_post(block, p1, p2, r),
{
    let inner = maybe_borrow::<(P1, P2), B, C, F>((p1, p2), block);
    let r = match inner {
        ControlFlow::Break(b) => ControlFlow::Break(b),
        ControlFlow::Continue((c, (q1, q2))) => ControlFlow::Continue((c, q1, q2)),
    };
    proof {
        let o = choose|o: ControlFlow<B, (C, (P1::Borrowed, P2::Borrowed))>|
            #[trigger] call_ensures(block, (<(P1, P2) as Reborrow>::borrowed_of((p1, p2)),), o)
                && inner == maybe_borrow_result::<(P1, P2), B, C>(o);
        assert(call_ensures(block, ((P1::borrowed_of(p1), P2::borrowed_of(p2)),), o) && r
            == maybe_borrow_pair_result::<P1, P2, B, C>(o));
    }
    r
}

/// If every outcome the block allows is a continue that hands both aliases
/// back unchanged, the invocation returns both handles to the caller in
/// original positional order.
pub proof fn lemma_maybe_borrow_pair_restores<P1: Reborrow, P2: Reborrow, B, C, F: FnOnce(
    (P1::Borrowed, P2::Borrowed),
) -> ControlFlow<B, (C, (P1::Borrowed, P2::Borrowed))>>(
    block: F,
    p1: P1,
    p2: P2,
    r: ControlFlow<B, (C, P1, P2)>,
)
    requires
        maybe_borrow_pair_post(block, p1, p2, r),
        forall|o: ControlFlow<B, (C, (P1::Borrowed, P2::Borrowed))>|
            #[trigger] call_ensures(block, ((P1::borrowed_of(p1), P2::borrowed_of(p2)),), o)
                ==> (o matches ControlFlow::Continue(p) && p.1 == (
            P1::borrowed_of(p1),
            P2::borrowed_of(p2),
            )),
    ensures
        r matches ControlFlow::Continue(p) && p.1 == p1 && p.2 == p2,
{
    P1::lemma_restore_inverts_reborrow(p1);
    P2::lemma_restore_inverts_reborrow(p2);
}

/// What the try-variant makes of one block outcome `o`: an outer residual or
/// empty case is threaded outward through the break channel, a break of the
/// borrow protocol becomes the final short-circuit value's continue case, and
/// a normal exit continues with the restored handle.
pub open spec fn try_maybe_borrow_result<Ptr, Ret, T, Exit, BodyOut>(o: BodyOut) -> ControlFlow<
    Ret,
    (Exit, Ptr),
> where
    Ptr: Reborrow,
    Ret: CustomTry<Continue = T>,
    BodyOut: CustomTry<
        Kind = <Ret as CustomTry>::Kind,
        Continue = ControlFlow<T, (Exit, <Ptr as Reborrow>::Borrowed)>,
    >,
 {
    match o.as_ctrl() {
        ControlFlow::Break(rr) => ControlFlow::Break(
            Ret::from_ctrl_spec(ControlFlow::Break(rr)),
        ),
        ControlFlow::Continue(Ok(ControlFlow::Break(t))) => ControlFlow::Break(
            Ret::from_ctrl_spec(ControlFlow::Continue(Ok(t))),
        ),
        ControlFlow::Continue(Ok(ControlFlow::Continue((exit, ab)))) => ControlFlow::Continue(
            (exit, Ptr::alias_of(ab)),
        ),
        ControlFlow::Continue(Err(e)) => ControlFlow::Break(
            Ret::from_ctrl_spec(ControlFlow::Continue(Err(e))),
        ),
    }
}

/// The contract of one try-variant invocation.
pub open spec fn try_maybe_borrow_post<Ptr, Ret, T, Exit, BodyOut, F>(
    body: F,
    this: Ptr,
    r: ControlFlow<Ret, (Exit, Ptr)>,
) -> bool where
    Ptr: Reborrow,
    Ret: CustomTry<Continue = T>,
    BodyOut: CustomTry<
        Kind = <Ret as CustomTry>::Kind,
        Continue = ControlFlow<T, (Exit, <Ptr as Reborrow>::Borrowed)>,
    >,
    F: FnOnce(<Ptr as Reborrow>::Borrowed, WrapTryMaybeBorrowExit<BodyOut>) -> BodyOut,
 {
    exists|o: BodyOut, w: WrapTryMaybeBorrowExit<BodyOut>|
        #[trigger] call_ensures(body, (Ptr::borrowed_of(this), w), o) && r
            == try_maybe_borrow_result::<Ptr, Ret, T, Exit, BodyOut>(o)
}

/// The try-variant of the engine: the block's outcome is itself a
/// short-circuit value, so a propagation construct used inside the block can
/// forward an unrelated outer failure while the engine still decides continue
/// against break for its own borrow protocol.
pub fn try_maybe_borrow<Ptr, Ret, T, Exit, BodyOut, F>(this: Ptr, body: F) -> (r: ControlFlow<
    Ret,
    (Exit, Ptr),
>) where
    Ptr: Reborrow,
    Ret: CustomTry<Continue = T>,
    BodyOut: CustomTry<
        Kind = <Ret as CustomTry>::Kind,
        Continue = ControlFlow<T, (Exit, <Ptr as Reborrow>::Borrowed)>,
    >,
    F: FnOnce(<Ptr as Reborrow>::Borrowed, WrapTryMaybeBorrowExit<BodyOut>) -> BodyOut,

    requires
        forall|w: WrapTryMaybeBorrowExit<BodyOut>|
            call_requires(body, (Ptr::borrowed_of(this), w)),
    ensures
        try_maybe_borrow_post::<Ptr, Ret, T, Exit, BodyOut, F>(body, this, r),
{
    let borrowed = Ptr::extend(Ptr::reborrow(this));
    let body_out = body(borrowed, WrapTryMaybeBorrowExit(core::marker::PhantomData));
    match body_out.into_ctrl() {
        ControlFlow::Break(rr) => ControlFlow::Break(Ret::from_residual(rr)),
        ControlFlow::Continue(Ok(ControlFlow::Break(t))) => ControlFlow::Break(
            Ret::from_continue(t),
        ),
        ControlFlow::Continue(Ok(ControlFlow::Continue((exit, ab)))) => ControlFlow::Continue(
            (exit, Ptr::restore(ab)),
        ),
        ControlFlow::Continue(Err(e)) => ControlFlow::Break(Ret::from_empty(e)),
    }
}

/// The readiness-unwrap primitive: yields the ready payload, or breaks with
/// the not-ready marker so a cooperative-polling caller propagates it upward
/// by ordinary early return.
pub fn ready_or_break<T, U>(p: Poll<T>) -> (r: ControlFlow<Poll<U>, T>)
    ensures
        r == (match p {
            Poll::Ready(v) => ControlFlow::<Poll<U>, T>::Continue(v),
            Poll::Pending => ControlFlow::<Poll<U>, T>::Break(Poll::Pending),
        }),
{
    match p {
        Poll::Ready(v) => ControlFlow::Continue(v),
        Poll::Pending => ControlFlow::Break(Poll::Pending),
    }
}

} // verus!

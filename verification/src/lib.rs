//! A "conditional lend" protocol: a routine hands a resource handle to a
//! scoped block, and the block decides, after inspecting the resource, whether
//! to break out with a value derived from it (consuming the handle) or to
//! decline, yield a plain value, and give the handle back intact for reuse.
//!
//! Without unsafe lifetime widening, the protocol is expressed as a move-only
//! ownership-token design: the block receives full, non-aliased ownership of
//! an alias token and returns a tagged outcome, either "keep it forever, here
//! is the derived value" or "return it, here is a plain value".

use core::ops::ControlFlow;
use vstd::prelude::*;

pub mod custom_try;
pub mod lookup;
pub mod maybe_borrow_impl;
pub mod poll_windows;
pub mod ptr_impls;
pub mod traits;
pub mod utils;
pub mod windows;

use crate::custom_try::CustomTry;

verus! {

/// Container that is never `Copy`, so a value wrapped in it is always moved
/// into a closure rather than referenced.
pub struct ForceMove<T>(pub T);

/// Does nothing with a mutable borrow of `T`.
pub fn noop_use_mut<T>(x: &mut T)
    ensures
        *final(x) == *old(x),
{
}

/// Marks the place where a try-variant block completes normally: `wrap` turns
/// the block's exit value into the continue case of the block's own
/// short-circuit result.
pub struct WrapTryMaybeBorrowExit<Out>(pub core::marker::PhantomData<Out>);

impl<Out, Exit, T> WrapTryMaybeBorrowExit<Out> where
    Out: CustomTry<Continue = ControlFlow<T, Exit>>,
 {
    pub fn wrap(self, exit: Exit) -> (r: Out)
        ensures
            r == Out::from_ctrl_spec(
                ControlFlow::Continue(Ok(ControlFlow::Continue(exit))),
            ),
    {
        Out::from_continue(ControlFlow::Continue(exit))
    }
}

/// What `try_maybe_borrow_helper` makes of one block outcome `o`: an outer
/// residual or empty case is threaded outward through the break channel, a
/// break of the borrow protocol becomes the continue case of the final
/// result, and a normal exit continues.
pub open spec fn try_helper_result<BodyOut, Ret, T, Exit>(o: BodyOut) -> ControlFlow<
    Ret,
    Exit,
> where
    Ret: CustomTry<Continue = T>,
    BodyOut: CustomTry<Kind = <Ret as CustomTry>::Kind, Continue = ControlFlow<T, Exit>>,
 {
    match o.as_ctrl() {
        ControlFlow::Break(rr) => ControlFlow::Break(
            Ret::from_ctrl_spec(ControlFlow::Break(rr)),
        ),
        ControlFlow::Continue(Ok(ControlFlow::Break(t))) => ControlFlow::Break(
            Ret::from_ctrl_spec(ControlFlow::Continue(Ok(t))),
        ),
        ControlFlow::Continue(Ok(ControlFlow::Continue(exit))) => ControlFlow::Continue(exit),
        ControlFlow::Continue(Err(e)) => ControlFlow::Break(
            Ret::from_ctrl_spec(ControlFlow::Continue(Err(e))),
        ),
    }
}

/// Interprets a try-variant block: the block's own outcome is itself a
/// short-circuit value, and an outer break originating inside the block is
/// threaded outward unchanged, composed with the protocol's own break case.
pub fn try_maybe_borrow_helper<BodyOut, Ret, T, Exit, F>(body: F) -> (r: ControlFlow<
    Ret,
    Exit,
>) where
    Ret: CustomTry<Continue = T>,
    BodyOut: CustomTry<Kind = <Ret as CustomTry>::Kind, Continue = ControlFlow<T, Exit>>,
    F: FnOnce(WrapTryMaybeBorrowExit<BodyOut>) -> BodyOut,

    requires
        forall|w: WrapTryMaybeBorrowExit<BodyOut>| call_requires(body, (w,)),
    ensures
        exists|o: BodyOut, w: WrapTryMaybeBorrowExit<BodyOut>|
            #[trigger] call_ensures(body, (w,), o) && r == try_helper_result::<
                BodyOut,
                Ret,
                T,
                Exit,
            >(o),
{
    let body_out = body(WrapTryMaybeBorrowExit(core::marker::PhantomData));
    match body_out.into_ctrl() {
        ControlFlow::Break(rr) => ControlFlow::Break(Ret::from_residual(rr)),
        ControlFlow::Continue(Ok(ControlFlow::Break(t))) => ControlFlow::Break(
            Ret::from_continue(t),
        ),
        ControlFlow::Continue(Ok(ControlFlow::Continue(exit))) => ControlFlow::Continue(exit),
        ControlFlow::Continue(Err(e)) => ControlFlow::Break(Ret::from_empty(e)),
    }
}

} // verus!

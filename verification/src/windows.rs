//! A windowed scan over a sequence, driven through the invocation engine: a
//! retry loop reborrows the scanner handle once per candidate window and
//! either breaks with the first accepted window or continues with the handle
//! restored for the next probe.

use crate::maybe_borrow_impl::{
    maybe_borrow, maybe_borrow_result, try_maybe_borrow, try_maybe_borrow_result,
};
use crate::ptr_impls::{Alias, Handle};
use crate::traits::Reborrow;
use crate::WrapTryMaybeBorrowExit;
use core::ops::ControlFlow;
use vstd::prelude::*;

verus! {

/// The window of `size` consecutive items of `data` starting at `k`.
pub open spec fn window_of<T>(data: Seq<T>, size: nat, k: int) -> Seq<T> {
    data.subrange(k, k + size)
}

/// Some possible run of `pred` rejects the window at `k`.
pub open spec fn rejects_at<T, F: Fn(&Vec<T>) -> bool>(
    pred: F,
    data: Seq<T>,
    size: nat,
    k: int,
) -> bool {
    exists|v: Vec<T>| v@ == window_of(data, size, k) && #[trigger] call_ensures(pred, (&v,), false)
}

/// Some possible run of `pred` rejects every window from `from` up to `to`.
pub open spec fn rejects_range<T, F: Fn(&Vec<T>) -> bool>(
    pred: F,
    data: Seq<T>,
    size: nat,
    from: int,
    to: int,
) -> bool {
    forall|k: int| from <= k < to ==> #[trigger] rejects_at(pred, data, size, k)
}

/// A sliding-window scanner: a cursor over `data` whose windows are the runs
/// of `size` consecutive items, advancing one item at a time. A window holds
/// at least one item, so a scanner of window size zero is exhausted.
pub struct Windows<T> {
    pub data: Vec<T>,
    pub pos: usize,
    pub size: usize,
}

impl<T: Copy> Windows<T> {
    /// A window starts at `i` when `size` items fit there.
    pub open spec fn has_window(self, i: int) -> bool {
        1 <= self.size && i + self.size <= self.data.len()
    }

    /// The scanner with its cursor moved past one window start.
    pub open spec fn advanced(self) -> Self {
        Windows { pos: (self.pos + 1) as usize, ..self }
    }

    pub fn new(data: Vec<T>, size: usize) -> (r: Self)
        ensures
            r == (Windows { data, pos: 0usize, size }),
    {
        Windows { data, pos: 0, size }
    }

    /// Advances to the next window: the `size` consecutive items at the
    /// cursor, or exhaustion when no full window starts there.
    pub fn next_window(&mut self) -> (r: Option<Vec<T>>)
        ensures
            final(self).data == old(self).data,
            final(self).size == old(self).size,
            old(self).has_window(old(self).pos as int) ==> (*final(self) == old(self).advanced()
                && (r matches Some(w) && w@ == window_of(
                old(self).data@,
                old(self).size as nat,
                old(self).pos as int,
            ))),
            !old(self).has_window(old(self).pos as int) ==> (r is None && *final(self) == *old(
                self,
            )),
    {
        if 1 <= self.size && self.pos <= self.data.len() && self.size <= self.data.len()
            - self.pos {
            let mut w: Vec<T> = Vec::new();
            let mut i: usize = 0;
            while i < self.size
                invariant
                    i <= self.size,
                    self.pos + self.size <= self.data.len(),
                    w@.len() == i as int,
                    forall|k: int| 0 <= k < i ==> w@[k] == self.data@[self.pos + k],
                decreases self.size - i,
            {
                w.push(self.data[self.pos + i]);
                i += 1;
            }
            proof {
                assert(w@ =~= window_of(self.data@, self.size as nat, self.pos as int));
            }
            self.pos = self.pos + 1;
            Some(w)
        } else {
            None
        }
    }
}

/// What one probe of the scanner may leave behind: a break with the accepted
/// window (cursor advanced past it), a break with exhaustion (cursor
/// untouched), or a continue with the cursor advanced past a rejected window.
pub open spec fn probe_outcome<T: Copy, F: Fn(&Vec<T>) -> bool>(
    pred: F,
    cur: Windows<T>,
    out: ControlFlow<(Option<Vec<T>>, Alias<Windows<T>>), ((), Alias<Windows<T>>)>,
) -> bool {
    match out {
        ControlFlow::Break((res, a2)) => match res {
            Some(w) => cur.has_window(cur.pos as int) && w@ == window_of(
                cur.data@,
                cur.size as nat,
                cur.pos as int,
            ) && call_ensures(pred, (&w,), true) && a2.0 == cur.advanced(),
            None => !cur.has_window(cur.pos as int) && a2.0 == cur,
        },
        ControlFlow::Continue((u, a2)) => cur.has_window(cur.pos as int) && a2.0 == cur.advanced()
            && rejects_at(pred, cur.data@, cur.size as nat, cur.pos as int),
    }
}

/// Advances the scanner to the first window `pred` accepts, probing one
/// window per invocation of the engine: the handle is restored after every
/// rejected window and the accepted window (or exhaustion) breaks the loop.
pub fn next_filtered<T: Copy, F: Fn(&Vec<T>) -> bool>(h: Handle<Windows<T>>, pred: F) -> (r: (
    Option<Vec<T>>,
    Handle<Windows<T>>,
))
    requires
        forall|v: &Vec<T>| call_requires(pred, (v,)),
    ensures
        r.1.0.data == h.0.data,
        r.1.0.size == h.0.size,
        h.0.pos <= r.1.0.pos,
        r.0 matches Some(w) ==> (h.0.pos < r.1.0.pos && h.0.has_window(r.1.0.pos - 1) && w@
            == window_of(h.0.data@, h.0.size as nat, r.1.0.pos - 1) && call_ensures(
            pred,
            (&w,),
            true,
        ) && rejects_range(pred, h.0.data@, h.0.size as nat, h.0.pos as int, r.1.0.pos - 1)),
        (r.0 is None) ==> (!h.0.has_window(r.1.0.pos as int) && rejects_range(
            pred,
            h.0.data@,
            h.0.size as nat,
            h.0.pos as int,
            r.1.0.pos as int,
        )),
{
    let mut hh = h;
    loop
        invariant
            forall|v: &Vec<T>| call_requires(pred, (v,)),
            hh.0.data == h.0.data,
            hh.0.size == h.0.size,
            h.0.pos <= hh.0.pos,
            rejects_range(pred, h.0.data@, h.0.size as nat, h.0.pos as int, hh.0.pos as int),
        decreases h.0.data@.len() - hh.0.pos,
    {
        let ghost cur = hh.0;
        let block = |alias: Alias<Windows<T>>| -> (out: ControlFlow<
            (Option<Vec<T>>, Alias<Windows<T>>),
            ((), Alias<Windows<T>>),
        >)
            ensures
                probe_outcome(pred, alias.0, out),
            {
                let mut a = alias;
                let ow = a.0.next_window();
                match ow {
                    Some(w) => {
                        if pred(&w) {
                            ControlFlow::Break((Some(w), a))
                        } else {
                            ControlFlow::Continue(((), a))
                        }
                    },
                    None => ControlFlow::Break((None, a)),
                }
            };
        let out = maybe_borrow::<Handle<Windows<T>>, _, _, _>(hh, block);
        proof {
            let o = choose|o: ControlFlow<
                (Option<Vec<T>>, Alias<Windows<T>>),
                ((), Alias<Windows<T>>),
            >|
                #[trigger] call_ensures(
                    block,
                    (<Handle<Windows<T>> as Reborrow>::borrowed_of(hh),),
                    o,
                ) && out == maybe_borrow_result::<Handle<Windows<T>>, _, _>(o);
            assert(probe_outcome(pred, cur, o));
        }
        match out {
            ControlFlow::Break((res, a2)) => {
                return (res, Handle(a2.0));
            },
            ControlFlow::Continue((u, h2)) => {
                hh = h2;
            },
        }
    }
}

/// What one try-variant probe may leave behind: exhaustion is forwarded as an
/// outer residual carrying the alias, an accepted window breaks with the
/// window and the alias, and a rejected window exits normally to retry.
pub open spec fn probe_try_outcome<T: Copy, F: Fn(&Vec<T>) -> bool>(
    pred: F,
    cur: Windows<T>,
    o: Result<
        ControlFlow<(Vec<T>, Alias<Windows<T>>), ((), Alias<Windows<T>>)>,
        Alias<Windows<T>>,
    >,
) -> bool {
    match o {
        Err(a2) => !cur.has_window(cur.pos as int) && a2.0 == cur,
        Ok(ControlFlow::Break((w, a2))) => cur.has_window(cur.pos as int) && w@ == window_of(
            cur.data@,
            cur.size as nat,
            cur.pos as int,
        ) && call_ensures(pred, (&w,), true) && a2.0 == cur.advanced(),
        Ok(ControlFlow::Continue((u, a2))) => cur.has_window(cur.pos as int) && a2.0
            == cur.advanced() && rejects_at(pred, cur.data@, cur.size as nat, cur.pos as int),
    }
}

/// The try-variant of the filtered scan: the block's outcome is itself a
/// fallible value, and exhaustion travels outward through the residual
/// channel rather than through the protocol's own break case.
pub fn next_filtered_with_try<T: Copy, F: Fn(&Vec<T>) -> bool>(
    h: Handle<Windows<T>>,
    pred: F,
) -> (r: (Option<Vec<T>>, Handle<Windows<T>>))
    requires
        forall|v: &Vec<T>| call_requires(pred, (v,)),
    ensures
        r.1.0.data == h.0.data,
        r.1.0.size == h.0.size,
        h.0.pos <= r.1.0.pos,
        r.0 matches Some(w) ==> (h.0.pos < r.1.0.pos && h.0.has_window(r.1.0.pos - 1) && w@
            == window_of(h.0.data@, h.0.size as nat, r.1.0.pos - 1) && call_ensures(
            pred,
            (&w,),
            true,
        ) && rejects_range(pred, h.0.data@, h.0.size as nat, h.0.pos as int, r.1.0.pos - 1)),
        (r.0 is None) ==> (!h.0.has_window(r.1.0.pos as int) && rejects_range(
            pred,
            h.0.data@,
            h.0.size as nat,
            h.0.pos as int,
            r.1.0.pos as int,
        )),
{
    let mut hh = h;
    loop
        invariant
            forall|v: &Vec<T>| call_requires(pred, (v,)),
            hh.0.data == h.0.data,
            hh.0.size == h.0.size,
            h.0.pos <= hh.0.pos,
            rejects_range(pred, h.0.data@, h.0.size as nat, h.0.pos as int, hh.0.pos as int),
        decreases h.0.data@.len() - hh.0.pos,
    {
        let ghost cur = hh.0;
        let body = |alias: Alias<Windows<T>>, w: WrapTryMaybeBorrowExit<
            Result<
                ControlFlow<(Vec<T>, Alias<Windows<T>>), ((), Alias<Windows<T>>)>,
                Alias<Windows<T>>,
            >,
        >| -> (o: Result<
            ControlFlow<(Vec<T>, Alias<Windows<T>>), ((), Alias<Windows<T>>)>,
            Alias<Windows<T>>,
        >)
            ensures
                probe_try_outcome(pred, alias.0, o),
            {
                let mut a = alias;
                match a.0.next_window() {
                    None => Err(a),
                    Some(win) => {
                        if pred(&win) {
                            Ok(ControlFlow::Break((win, a)))
                        } else {
                            w.wrap(((), a))
                        }
                    },
                }
            };
        let out = try_maybe_borrow::<
            Handle<Windows<T>>,
            Result<(Vec<T>, Alias<Windows<T>>), Alias<Windows<T>>>,
            (Vec<T>, Alias<Windows<T>>),
            (),
            Result<
                ControlFlow<(Vec<T>, Alias<Windows<T>>), ((), Alias<Windows<T>>)>,
                Alias<Windows<T>>,
            >,
            _,
        >(hh, body);
        proof {
            let (o, wt) = choose|o: Result<
                ControlFlow<(Vec<T>, Alias<Windows<T>>), ((), Alias<Windows<T>>)>,
                Alias<Windows<T>>,
            >, wt: WrapTryMaybeBorrowExit<
                Result<
                    ControlFlow<(Vec<T>, Alias<Windows<T>>), ((), Alias<Windows<T>>)>,
                    Alias<Windows<T>>,
                >,
            >|
                #[trigger] call_ensures(
                    body,
                    (<Handle<Windows<T>> as Reborrow>::borrowed_of(hh), wt),
                    o,
                ) && out == try_maybe_borrow_result::<
                    Handle<Windows<T>>,
                    Result<(Vec<T>, Alias<Windows<T>>), Alias<Windows<T>>>,
                    (Vec<T>, Alias<Windows<T>>),
                    (),
                    _,
                >(o);
            assert(probe_try_outcome(pred, cur, o));
        }
        match out {
            ControlFlow::Break(ret) => match ret {
                Ok((win, a2)) => {
                    return (Some(win), Handle(a2.0));
                },
                Err(a2) => {
                    return (None, Handle(a2.0));
                },
            },
            ControlFlow::Continue((u, h2)) => {
                hh = h2;
            },
        }
    }
}

} // verus!

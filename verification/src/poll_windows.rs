//! A windowed scan over a cooperatively polled source, driven through the
//! invocation engine. The source's answers are a script of readiness events;
//! a not-ready answer travels out of the scan through the readiness-unwrap
//! primitive without discarding the window accumulated so far, and a later
//! call resumes where the scan left off.

use crate::maybe_borrow_impl::{maybe_borrow, maybe_borrow_result, ready_or_break};
use crate::ptr_impls::{Alias, Handle};
use crate::traits::Reborrow;
use crate::utils::copy_items;
use core::ops::ControlFlow;
use core::task::Poll;
use vstd::prelude::*;

verus! {

/// One call of the scanner, from event cursor `epos` and partial window
/// `buf`: the poll result, the new cursor, and the new window contents.
/// Running past the script's end counts as the source's end.
pub open spec fn scan_next<T>(
    events: Seq<Poll<Option<T>>>,
    epos: int,
    buf: Seq<T>,
    size: nat,
) -> (Poll<Option<Seq<T>>>, int, Seq<T>)
    decreases events.len() - epos,
{
    if epos < 0 || epos >= events.len() {
        (Poll::Ready(None), epos, Seq::empty())
    } else {
        match events[epos] {
            Poll::Pending => (Poll::Pending, epos + 1, buf),
            Poll::Ready(None) => (Poll::Ready(None), epos + 1, Seq::empty()),
            Poll::Ready(Some(x)) => {
                let buf2 = if buf.len() < size || buf.len() == 0 {
                    buf.push(x)
                } else {
                    buf.skip(1).push(x)
                };
                if buf2.len() < size {
                    scan_next(events, epos + 1, buf2, size)
                } else {
                    (Poll::Ready(Some(buf2)), epos + 1, buf2)
                }
            },
        }
    }
}

/// One scanner call keeps the cursor within the script, and a produced
/// window advances it.
pub proof fn lemma_scan_next_range<T>(
    events: Seq<Poll<Option<T>>>,
    epos: int,
    buf: Seq<T>,
    size: nat,
)
    requires
        0 <= epos <= events.len(),
    ensures
        ({
            let (res, e2, b2) = scan_next(events, epos, buf, size);
            epos <= e2 <= events.len() && (res matches Poll::Ready(Some(s)) ==> epos < e2)
        }),
    decreases events.len() - epos,
{
    if 0 <= epos < events.len() {
        match events[epos] {
            Poll::Ready(Some(x)) => {
                let buf2 = if buf.len() < size || buf.len() == 0 {
                    buf.push(x)
                } else {
                    buf.skip(1).push(x)
                };
                if buf2.len() < size {
                    lemma_scan_next_range(events, epos + 1, buf2, size);
                }
            },
            _ => {},
        }
    }
}

/// A windowed scanner over a scripted polling source: `events` holds the
/// source's successive answers, `epos` the next answer to consume, and `buf`
/// the window accumulated so far.
#[verifier::reject_recursive_types(T)]
pub struct PollWindows<T> {
    pub events: Vec<Poll<Option<T>>>,
    pub epos: usize,
    pub buf: Vec<T>,
    pub size: usize,
}

impl<T: Copy> PollWindows<T> {
    /// The cursor never runs past the script; the constructor establishes
    /// this and every scanner call preserves it.
    pub open spec fn wf(self) -> bool {
        self.epos <= self.events.len()
    }

    pub fn new(events: Vec<Poll<Option<T>>>, size: usize) -> (r: Self)
        ensures
            r.events == events,
            r.epos == 0usize,
            r.buf@ == Seq::<T>::empty(),
            r.size == size,
            r.wf(),
    {
        PollWindows { events, epos: 0, buf: Vec::new(), size }
    }

    /// Polls for the next full window: not-ready is handed through with the
    /// accumulated window kept, so the next call resumes where this one left
    /// off; the source's end empties the window and ends the scan.
    pub fn poll_next_window(&mut self) -> (r: Poll<Option<Vec<T>>>)
        requires
            old(self).wf(),
        ensures
            final(self).events == old(self).events,
            final(self).size == old(self).size,
            final(self).wf(),
            ({
                let (res, e2, b2) = scan_next(
                    old(self).events@,
                    old(self).epos as int,
                    old(self).buf@,
                    old(self).size as nat,
                );
                final(self).epos == e2 && final(self).buf@ == b2 && (match (r, res) {
                    (Poll::Ready(Some(w)), Poll::Ready(Some(s))) => w@ == s,
                    (Poll::Ready(None), Poll::Ready(None)) => true,
                    (Poll::Pending, Poll::Pending) => true,
                    _ => false,
                })
            }),
    {
        loop
            invariant
                self.events == old(self).events,
                self.size == old(self).size,
                scan_next(self.events@, self.epos as int, self.buf@, self.size as nat)
                    == scan_next(
                    old(self).events@,
                    old(self).epos as int,
                    old(self).buf@,
                    old(self).size as nat,
                ),
                old(self).epos <= self.epos,
                self.wf(),
            decreases self.events@.len() - self.epos,
        {
            if self.epos >= self.events.len() {
                self.buf = Vec::new();
                return Poll::Ready(None);
            }
            let ev = self.events[self.epos];
            self.epos = self.epos + 1;
            match ev {
                Poll::Pending => {
                    return Poll::Pending;
                },
                Poll::Ready(None) => {
                    self.buf = Vec::new();
                    return Poll::Ready(None);
                },
                Poll::Ready(Some(x)) => {
                    let ghost oldbuf = self.buf@;
                    if self.buf.len() < self.size || self.buf.len() == 0 {
                        self.buf.push(x);
                    } else {
                        self.buf.remove(0);
                        self.buf.push(x);
                        proof {
                            assert(self.buf@ =~= oldbuf.skip(1).push(x));
                        }
                    }
                    if self.buf.len() >= self.size {
                        let w = copy_items(&self.buf);
                        return Poll::Ready(Some(w));
                    }
                },
            }
        }
    }
}

/// From cursor `e0` with window `b0`, `n` scanner calls each produced a
/// window that some run of `pred` rejects, ending at cursor `e1` with
/// window `b1`.
pub open spec fn filtered_reaches<T, F: Fn(&Vec<T>) -> bool>(
    pred: F,
    events: Seq<Poll<Option<T>>>,
    size: nat,
    e0: int,
    b0: Seq<T>,
    e1: int,
    b1: Seq<T>,
    n: nat,
) -> bool
    decreases n,
{
    if n == 0 {
        e0 == e1 && b0 == b1
    } else {
        let (res, em, bm) = scan_next(events, e0, b0, size);
        match res {
            Poll::Ready(Some(s)) => (exists|v: Vec<T>|
                v@ == s && #[trigger] call_ensures(pred, (&v,), false)) && filtered_reaches(
                pred,
                events,
                size,
                em,
                bm,
                e1,
                b1,
                (n - 1) as nat,
            ),
            _ => false,
        }
    }
}

/// A rejection chain grows at its end: one more rejected window extends it
/// by one call.
pub proof fn lemma_filtered_reaches_extend<T, F: Fn(&Vec<T>) -> bool>(
    pred: F,
    events: Seq<Poll<Option<T>>>,
    size: nat,
    e0: int,
    b0: Seq<T>,
    e1: int,
    b1: Seq<T>,
    n: nat,
)
    requires
        filtered_reaches(pred, events, size, e0, b0, e1, b1, n),
        ({
            let (res, e2, b2) = scan_next(events, e1, b1, size);
            res matches Poll::Ready(Some(s)) && (exists|v: Vec<T>|
                v@ == s && #[trigger] call_ensures(pred, (&v,), false))
        }),
    ensures
        ({
            let (res, e2, b2) = scan_next(events, e1, b1, size);
            filtered_reaches(pred, events, size, e0, b0, e2, b2, (n + 1) as nat)
        }),
    decreases n,
{
    if n == 0 {
        let (res, e2, b2) = scan_next(events, e1, b1, size);
        assert(filtered_reaches(pred, events, size, e2, b2, e2, b2, 0nat));
        assert(filtered_reaches(pred, events, size, e0, b0, e2, b2, 1nat));
    } else {
        let (res0, em, bm) = scan_next(events, e0, b0, size);
        lemma_filtered_reaches_extend(pred, events, size, em, bm, e1, b1, (n - 1) as nat);
        let (res, e2, b2) = scan_next(events, e1, b1, size);
        assert(filtered_reaches(pred, events, size, em, bm, e2, b2, n));
        assert(filtered_reaches(pred, events, size, e0, b0, e2, b2, (n + 1) as nat));
    }
}

/// What one engine probe of the polling scanner may leave behind.
pub open spec fn poll_probe_outcome<T: Copy, F: Fn(&Vec<T>) -> bool>(
    pred: F,
    cur: PollWindows<T>,
    out: ControlFlow<(Poll<Option<Vec<T>>>, Alias<PollWindows<T>>), ((), Alias<PollWindows<T>>)>,
) -> bool {
    let (res, e2, b2) = scan_next(cur.events@, cur.epos as int, cur.buf@, cur.size as nat);
    match out {
        ControlFlow::Break((p, a2)) => a2.0.events == cur.events && a2.0.size == cur.size
            && a2.0.epos == e2 && a2.0.buf@ == b2 && a2.0.wf() && (match (p, res) {
            (Poll::Ready(Some(w)), Poll::Ready(Some(s))) => w@ == s && call_ensures(
                pred,
                (&w,),
                true,
            ),
            (Poll::Ready(None), Poll::Ready(None)) => true,
            (Poll::Pending, Poll::Pending) => true,
            _ => false,
        }),
        ControlFlow::Continue((u, a2)) => a2.0.events == cur.events && a2.0.size == cur.size
            && a2.0.epos == e2 && a2.0.buf@ == b2 && a2.0.wf() && (res matches Poll::Ready(
            Some(s),
        ) && (exists|v: Vec<T>| v@ == s && #[trigger] call_ensures(pred, (&v,), false))),
    }
}

/// Polls the scanner for the first window `pred` accepts, one engine probe
/// per scanner call. A not-ready answer breaks out with the marker and the
/// handle's accumulated state intact; rejected windows restore the handle
/// and retry.
pub fn poll_next_filtered<T: Copy, F: Fn(&Vec<T>) -> bool>(
    h: Handle<PollWindows<T>>,
    pred: F,
) -> (r: (Poll<Option<Vec<T>>>, Handle<PollWindows<T>>))
    requires
        forall|v: &Vec<T>| call_requires(pred, (v,)),
        h.0.wf(),
    ensures
        r.1.0.events == h.0.events,
        r.1.0.size == h.0.size,
        r.1.0.wf(),
        exists|n: nat, e1: int, b1: Seq<T>|
            #[trigger] filtered_reaches(
                pred,
                h.0.events@,
                h.0.size as nat,
                h.0.epos as int,
                h.0.buf@,
                e1,
                b1,
                n,
            ) && ({
                let (res, e2, b2) = scan_next(h.0.events@, e1, b1, h.0.size as nat);
                r.1.0.epos == e2 && r.1.0.buf@ == b2 && (match (r.0, res) {
                    (Poll::Ready(Some(w)), Poll::Ready(Some(s))) => w@ == s && call_ensures(
                        pred,
                        (&w,),
                        true,
                    ),
                    (Poll::Ready(None), Poll::Ready(None)) => true,
                    (Poll::Pending, Poll::Pending) => true,
                    _ => false,
                })
            }),
{
    let mut hh = h;
    proof {
        assert(filtered_reaches(
            pred,
            h.0.events@,
            h.0.size as nat,
            h.0.epos as int,
            h.0.buf@,
            h.0.epos as int,
            h.0.buf@,
            0nat,
        ));
    }
    loop
        invariant
            forall|v: &Vec<T>| call_requires(pred, (v,)),
            hh.0.events == h.0.events,
            hh.0.size == h.0.size,
            hh.0.wf(),
            exists|n: nat|
                #[trigger] filtered_reaches(
                    pred,
                    h.0.events@,
                    h.0.size as nat,
                    h.0.epos as int,
                    h.0.buf@,
                    hh.0.epos as int,
                    hh.0.buf@,
                    n,
                ),
        decreases h.0.events@.len() - hh.0.epos,
    {
        let ghost cur = hh.0;
        let block = |alias: Alias<PollWindows<T>>| -> (out: ControlFlow<
            (Poll<Option<Vec<T>>>, Alias<PollWindows<T>>),
            ((), Alias<PollWindows<T>>),
        >)
            requires
                alias.0.wf(),
            ensures
                poll_probe_outcome(pred, alias.0, out),
            {
                let mut a = alias;
                let p = a.0.poll_next_window();
                match ready_or_break::<Option<Vec<T>>, Option<Vec<T>>>(p) {
                    ControlFlow::Break(pending) => ControlFlow::Break((pending, a)),
                    ControlFlow::Continue(opt) => match opt {
                        None => ControlFlow::Break((Poll::Ready(None), a)),
                        Some(w) => {
                            if pred(&w) {
                                ControlFlow::Break((Poll::Ready(Some(w)), a))
                            } else {
                                ControlFlow::Continue(((), a))
                            }
                        },
                    },
                }
            };
        let out = maybe_borrow::<Handle<PollWindows<T>>, _, _, _>(hh, block);
        proof {
            let o = choose|o: ControlFlow<
                (Poll<Option<Vec<T>>>, Alias<PollWindows<T>>),
                ((), Alias<PollWindows<T>>),
            >|
                #[trigger] call_ensures(
                    block,
                    (<Handle<PollWindows<T>> as Reborrow>::borrowed_of(hh),),
                    o,
                ) && out == maybe_borrow_result::<Handle<PollWindows<T>>, _, _>(o);
            assert(poll_probe_outcome(pred, cur, o));
            lemma_scan_next_range(cur.events@, cur.epos as int, cur.buf@, cur.size as nat);
        }
        match out {
            ControlFlow::Break((p, a2)) => {
                return (p, Handle(a2.0));
            },
            ControlFlow::Continue((u, h2)) => {
                proof {
                    let n = choose|n: nat|
                        #[trigger] filtered_reaches(
                            pred,
                            h.0.events@,
                            h.0.size as nat,
                            h.0.epos as int,
                            h.0.buf@,
                            cur.epos as int,
                            cur.buf@,
                            n,
                        );
                    lemma_filtered_reaches_extend(
                        pred,
                        h.0.events@,
                        h.0.size as nat,
                        h.0.epos as int,
                        h.0.buf@,
                        cur.epos as int,
                        cur.buf@,
                        n,
                    );
                }
                hh = h2;
            },
        }
    }
}

} // verus!

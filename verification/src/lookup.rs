//! First-available lookup: candidate keys are probed in order against a map
//! through the invocation engine, one probe per key, breaking with the first
//! key that is present and restoring the map handle after each miss.

use crate::maybe_borrow_impl::{maybe_borrow, maybe_borrow_result};
use crate::ptr_impls::{Alias, Handle};
use crate::traits::Reborrow;
use crate::utils::copy_items;
use core::ops::ControlFlow;
use vstd::prelude::*;

verus! {

/// Whether two byte strings hold the same bytes.
pub fn bytes_eq(a: &Vec<u8>, b: &Vec<u8>) -> (r: bool)
    ensures
        r == (a@ == b@),
{
    if a.len() != b.len() {
        proof {
            assert(a@.len() != b@.len());
        }
        return false;
    }
    let mut i: usize = 0;
    while i < a.len()
        invariant
            i <= a.len(),
            a@.len() == b@.len(),
            forall|k: int| 0 <= k < i ==> a@[k] == b@[k],
        decreases a.len() - i,
    {
        if a[i] != b[i] {
            return false;
        }
        i += 1;
    }
    proof {
        assert(a@ =~= b@);
    }
    true
}

/// The value bound to `k` in parallel key and value rows, scanning from row
/// `i`, the first match winning.
pub open spec fn assoc_get_from<T>(
    keys: Seq<Vec<u8>>,
    vals: Seq<T>,
    k: Seq<u8>,
    i: int,
) -> Option<T>
    decreases keys.len() - i,
{
    if i < 0 || i >= keys.len() || i >= vals.len() {
        None
    } else if keys[i]@ == k {
        Some(vals[i])
    } else {
        assoc_get_from(keys, vals, k, i + 1)
    }
}

/// A map from byte-string keys to values, kept as parallel rows, the
/// earliest binding of a key winning.
pub struct AssocMap<T> {
    pub keys: Vec<Vec<u8>>,
    pub vals: Vec<T>,
}

impl<T: Copy> AssocMap<T> {
    /// Keys and values stay in step.
    pub open spec fn wf(self) -> bool {
        self.keys.len() == self.vals.len()
    }

    /// The value bound to `k`, if any.
    pub open spec fn spec_get(self, k: Seq<u8>) -> Option<T> {
        assoc_get_from(self.keys@, self.vals@, k, 0)
    }

    pub fn new() -> (r: Self)
        ensures
            r.keys@.len() == 0,
            r.vals@.len() == 0,
            r.wf(),
    {
        AssocMap { keys: Vec::new(), vals: Vec::new() }
    }

    pub fn insert(&mut self, k: Vec<u8>, v: T)
        requires
            old(self).wf(),
        ensures
            final(self).wf(),
            final(self).keys@ == old(self).keys@.push(k),
            final(self).vals@ == old(self).vals@.push(v),
    {
        self.keys.push(k);
        self.vals.push(v);
    }

    pub fn get(&self, k: &Vec<u8>) -> (r: Option<T>)
        requires
            self.wf(),
        ensures
            r == self.spec_get(k@),
    {
        let mut i: usize = 0;
        while i < self.keys.len()
            invariant
                self.wf(),
                i <= self.keys.len(),
                self.spec_get(k@) == assoc_get_from(self.keys@, self.vals@, k@, i as int),
            decreases self.keys.len() - i,
        {
            if bytes_eq(&self.keys[i], k) {
                return Some(self.vals[i]);
            }
            i += 1;
        }
        None
    }
}

/// What one probe of one candidate key may leave behind: a break with the
/// key's value when it is present, or a continue when it is absent; the map
/// itself never changes.
pub open spec fn lookup_outcome<T: Copy>(
    cur: AssocMap<T>,
    key: Vec<u8>,
    out: ControlFlow<(T, Alias<AssocMap<T>>), ((), Alias<AssocMap<T>>)>,
) -> bool {
    match out {
        ControlFlow::Break((v, a2)) => a2.0 == cur && cur.spec_get(key@) == Some(v),
        ControlFlow::Continue((u, a2)) => a2.0 == cur && cur.spec_get(key@) is None,
    }
}

/// Probes `keys` in order against the map, one engine invocation per key,
/// and returns the row index and value of the first key that is present,
/// together with the map handle; keys after the first hit are never probed.
pub fn get_first_available<T: Copy>(h: Handle<AssocMap<T>>, keys: &Vec<Vec<u8>>) -> (r: (
    Option<(usize, T)>,
    Handle<AssocMap<T>>,
))
    requires
        h.0.wf(),
    ensures
        r.1 == h,
        r.0 matches Some(p) ==> (p.0 < keys@.len() && h.0.spec_get(keys@[p.0 as int]@) == Some(
            p.1,
        ) && (forall|j: int| 0 <= j < p.0 ==> h.0.spec_get(#[trigger] keys@[j]@) is None)),
        r.0 is None ==> (forall|j: int|
            0 <= j < keys@.len() ==> h.0.spec_get(#[trigger] keys@[j]@) is None),
{
    let mut hh = h;
    let mut i: usize = 0;
    while i < keys.len()
        invariant
            hh == h,
            h.0.wf(),
            i <= keys.len(),
            forall|j: int| 0 <= j < i ==> h.0.spec_get(#[trigger] keys@[j]@) is None,
        decreases keys.len() - i,
    {
        let ghost cur = hh.0;
        let key = copy_items(&keys[i]);
        let ghost keyg = key;
        let block = |alias: Alias<AssocMap<T>>| -> (out: ControlFlow<
            (T, Alias<AssocMap<T>>),
            ((), Alias<AssocMap<T>>),
        >)
            requires
                alias.0.wf(),
            ensures
                lookup_outcome(alias.0, keyg, out),
            {
                match alias.0.get(&key) {
                    Some(v) => ControlFlow::Break((v, alias)),
                    None => ControlFlow::Continue(((), alias)),
                }
            };
        let out = maybe_borrow::<Handle<AssocMap<T>>, _, _, _>(hh, block);
        proof {
            let o = choose|o: ControlFlow<(T, Alias<AssocMap<T>>), ((), Alias<AssocMap<T>>)>|
                #[trigger] call_ensures(
                    block,
                    (<Handle<AssocMap<T>> as Reborrow>::borrowed_of(hh),),
                    o,
                ) && out == maybe_borrow_result::<Handle<AssocMap<T>>, _, _>(o);
            assert(lookup_outcome(cur, keyg, o));
        }
        match out {
            ControlFlow::Break((v, a2)) => {
                return (Some((i, v)), Handle(a2.0));
            },
            ControlFlow::Continue((u, h2)) => {
                proof {
                    assert(keyg@ == keys@[i as int]@);
                }
                hh = h2;
                i += 1;
            },
        }
    }
    (None, hh)
}

} // verus!

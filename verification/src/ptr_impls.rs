//! The supported resource handle kinds: a shared view, an exclusively owned
//! handle, a pinned wrapper, and pairs of two reborrowable handles, the last
//! defining the alias of a pair in terms of the alias of each half.

use crate::traits::Reborrow;
use vstd::prelude::*;

verus! {

/// An exclusively owned resource handle: the move-only stand-in for a
/// mutable reference to the resource's data.
pub struct Handle<T>(pub T);

/// The alias a `Handle` produces: it owns the resource for the duration of
/// one invocation and is either consumed by the break value or turned back
/// into the handle.
pub struct Alias<T>(pub T);

/// A pinned wrapper around another reborrowable handle: its alias is the
/// pinned wrapper around the inner handle's alias.
pub struct Pinned<P>(pub P);

impl<'a, T> Reborrow for &'a T {
    type Borrowed = &'a T;

    open spec fn borrowed_of(this: Self) -> Self::Borrowed {
        this
    }

    open spec fn alias_of(b: Self::Borrowed) -> Self {
        b
    }

    proof fn lemma_restore_inverts_reborrow(this: Self) {
    }

    proof fn lemma_reborrow_inverts_restore(b: Self::Borrowed) {
    }

    fn reborrow(this: Self) -> (b: Self::Borrowed) {
        this
    }

    fn extend(this: Self::Borrowed) -> (r: Self::Borrowed) {
        this
    }

    fn restore(b: Self::Borrowed) -> (r: Self) {
        b
    }
}

impl<T> Reborrow for Handle<T> {
    type Borrowed = Alias<T>;

    open spec fn borrowed_of(this: Self) -> Alias<T> {
        Alias(this.0)
    }

    open spec fn alias_of(b: Alias<T>) -> Self {
        Handle(b.0)
    }

    proof fn lemma_restore_inverts_reborrow(this: Self) {
    }

    proof fn lemma_reborrow_inverts_restore(b: Alias<T>) {
    }

    fn reborrow(this: Self) -> (b: Alias<T>) {
        Alias(this.0)
    }

    fn extend(this: Alias<T>) -> (r: Alias<T>) {
        this
    }

    fn restore(b: Alias<T>) -> (r: Self) {
        Handle(b.0)
    }
}

impl<P: Reborrow> Reborrow for Pinned<P> {
    type Borrowed = Pinned<P::Borrowed>;

    open spec fn borrowed_of(this: Self) -> Pinned<P::Borrowed> {
        Pinned(P::borrowed_of(this.0))
    }

    open spec fn alias_of(b: Pinned<P::Borrowed>) -> Self {
        Pinned(P::alias_of(b.0))
    }

    proof fn lemma_restore_inverts_reborrow(this: Self) {
        P::lemma_restore_inverts_reborrow(this.0);
    }

    proof fn lemma_reborrow_inverts_restore(b: Pinned<P::Borrowed>) {
        P::lemma_reborrow_inverts_restore(b.0);
    }

    fn reborrow(this: Self) -> (b: Pinned<P::Borrowed>) {
        Pinned(P::reborrow(this.0))
    }

    fn extend(this: Pinned<P::Borrowed>) -> (r: Pinned<P::Borrowed>) {
        Pinned(P::extend(this.0))
    }

    fn restore(b: Pinned<P::Borrowed>) -> (r: Self) {
        Pinned(P::restore(b.0))
    }
}

impl<P1: Reborrow, P2: Reborrow> Reborrow for (P1, P2) {
    type Borrowed = (P1::Borrowed, P2::Borrowed);

    open spec fn borrowed_of(this: Self) -> (P1::Borrowed, P2::Borrowed) {
        (P1::borrowed_of(this.0), P2::borrowed_of(this.1))
    }

    open spec fn alias_of(b: (P1::Borrowed, P2::Borrowed)) -> Self {
        (P1::alias_of(b.0), P2::alias_of(b.1))
    }

    proof fn lemma_restore_inverts_reborrow(this: Self) {
        P1::lemma_restore_inverts_reborrow(this.0);
        P2::lemma_restore_inverts_reborrow(this.1);
    }

    proof fn lemma_reborrow_inverts_restore(b: (P1::Borrowed, P2::Borrowed)) {
        P1::lemma_reborrow_inverts_restore(b.0);
        P2::lemma_reborrow_inverts_restore(b.1);
    }

    fn reborrow(this: Self) -> (b: (P1::Borrowed, P2::Borrowed)) {
        let (p1, p2) = this;
        (P1::reborrow(p1), P2::reborrow(p2))
    }

    fn extend(this: (P1::Borrowed, P2::Borrowed)) -> (r: (P1::Borrowed, P2::Borrowed)) {
        let (b1, b2) = this;
        (P1::extend(b1), P2::extend(b2))
    }

    fn restore(b: (P1::Borrowed, P2::Borrowed)) -> (r: Self) {
        let (b1, b2) = b;
        (P1::restore(b1), P2::restore(b2))
    }
}

} // verus!

//! The reborrow capability: per resource kind, how to produce an alias of a
//! handle and how to turn an alias back into the handle it stands for.
//!
//! Under the move-only ownership-token design the alias owns the resource for
//! the duration of the block, so producing it consumes the handle and
//! restoring inverts that; widening the alias to the caller-chosen scope is
//! the identity, since an owned token is not tied to any scope.

use vstd::prelude::*;

verus! {

/// A resource handle kind: an exclusively owned value that can produce an
/// alias of itself and be rebuilt, unchanged, from that alias.
pub trait Reborrow: Sized {
    /// The alias family for this handle kind, at the one scope an owned token
    /// needs.
    type Borrowed;

    /// The alias a handle turns into.
    spec fn borrowed_of(this: Self) -> Self::Borrowed;

    /// The handle an alias stands for.
    spec fn alias_of(b: Self::Borrowed) -> Self;

    /// Restoring the alias of a handle gives that handle back.
    proof fn lemma_restore_inverts_reborrow(this: Self)
        ensures
            Self::alias_of(Self::borrowed_of(this)) == this,
    ;

    /// Every alias is the alias of the handle it stands for.
    proof fn lemma_reborrow_inverts_restore(b: Self::Borrowed)
        ensures
            Self::borrowed_of(Self::alias_of(b)) == b,
    ;

    fn reborrow(this: Self) -> (b: Self::Borrowed)
        ensures
            b == Self::borrowed_of(this),
    ;

    /// Widens an alias to an arbitrary output scope. An owned alias token is
    /// valid for any scope, so this changes nothing.
    fn extend(this: Self::Borrowed) -> (r: Self::Borrowed)
        ensures
            r == this,
    ;

    fn restore(b: Self::Borrowed) -> (r: Self)
        ensures
            r == Self::alias_of(b),
    ;
}

} // verus!

//! The short-circuit result algebra: several early-exit container shapes are
//! unified into one control representation with three cases, so that the
//! try-variant of the invocation engine can be written once.
//!
//! The common shape is `ControlFlow<Residual, Result<Continue, Empty>>`:
//! continue with a value, continue with nothing (`Empty`, for shapes with a
//! "not ready" case), or break with a residual to be threaded outward.
//! A shape without an empty case reuses its residual payload type for `Empty`
//! and excludes the empty case through `ctrl_wf`.

use core::ops::ControlFlow;
use core::task::Poll;
use vstd::prelude::*;

verus! {

/// Declares core's `Poll` for the verifier. Relies only on `core::task::Poll`
/// being the plain two-variant enum `Ready(T)` | `Pending`; no method of it is
/// called, values are built and matched directly.
#[verifier::external_type_specification]
#[verifier::reject_recursive_types(T)]
pub struct ExPoll<T>(Poll<T>);

/// A family of short-circuit container shapes sharing one residual type and
/// one empty-case payload type. Implemented by each shape instantiated at a
/// unit continue type, which serves as the family's marker.
pub trait TryKind {
    type Residual;

    type Empty;
}

pub type KindOf<T> = <T as CustomTry>::Kind;

pub type ContinueOf<T> = <T as CustomTry>::Continue;

pub type ResidualOf<T> = <KindOf<T> as TryKind>::Residual;

pub type EmptyOf<T> = <KindOf<T> as TryKind>::Empty;

pub type ControlFlowOf<T> = ControlFlow<ResidualOf<T>, Result<ContinueOf<T>, EmptyOf<T>>>;

/// A container shape that decomposes into the common control representation
/// and recomposes from it. Decomposition and recomposition are inverse to
/// each other on the control values the shape inhabits (`ctrl_wf`).
pub trait CustomTry: Sized {
    type Continue;

    type Kind: TryKind;

    /// The decomposition of this value into the common control shape.
    spec fn as_ctrl(self) -> ControlFlowOf<Self>;

    /// Which control values this shape inhabits: decomposition only produces
    /// such values, and on them recomposition inverts decomposition.
    spec fn ctrl_wf(c: ControlFlowOf<Self>) -> bool;

    /// What `from_ctrl` recomposes from a control value.
    spec fn from_ctrl_spec(c: ControlFlowOf<Self>) -> Self;

    fn into_ctrl(self) -> (r: ControlFlowOf<Self>)
        ensures
            r == self.as_ctrl(),
            Self::ctrl_wf(r),
    ;

    fn from_ctrl(ctrl: ControlFlowOf<Self>) -> (r: Self)
        ensures
            r == Self::from_ctrl_spec(ctrl),
    ;

    /// Decomposing and recomposing gives the original value back.
    proof fn lemma_ctrl_round_trip(x: Self)
        ensures
            Self::ctrl_wf(x.as_ctrl()),
            Self::from_ctrl_spec(x.as_ctrl()) == x,
    ;

    /// On inhabited control values, recomposing and decomposing gives the
    /// original control value back.
    proof fn lemma_ctrl_round_trip_rev(c: ControlFlowOf<Self>)
        requires
            Self::ctrl_wf(c),
        ensures
            Self::from_ctrl_spec(c).as_ctrl() == c,
    ;

    fn from_continue(c: Self::Continue) -> (r: Self)
        ensures
            r == Self::from_ctrl_spec(ControlFlow::Continue(Ok(c))),
    {
        Self::from_ctrl(ControlFlow::Continue(Ok(c)))
    }

    fn from_empty(e: EmptyOf<Self>) -> (r: Self)
        ensures
            r == Self::from_ctrl_spec(ControlFlow::Continue(Err(e))),
    {
        Self::from_ctrl(ControlFlow::Continue(Err(e)))
    }

    fn from_residual(b: ResidualOf<Self>) -> (r: Self)
        ensures
            r == Self::from_ctrl_spec(ControlFlow::Break(b)),
    {
        Self::from_ctrl(ControlFlow::Break(b))
    }
}

/// Maps the continue-with-value case of a short-circuit value through `f`,
/// carrying the empty and break cases over unchanged. This is the operation
/// the try-variant engine uses to thread an outer residual through its own
/// break channel.
pub fn map_continue<A, B, F>(x: A, f: F) -> (r: B) where
    A: CustomTry,
    B: CustomTry<Kind = <A as CustomTry>::Kind>,
    F: FnOnce(<A as CustomTry>::Continue) -> <B as CustomTry>::Continue,

    requires
        x.as_ctrl() matches ControlFlow::Continue(Ok(c)) ==> call_requires(f, (c,)),
    ensures
        x.as_ctrl() matches ControlFlow::Break(b) ==> r == B::from_ctrl_spec(
            ControlFlow::Break(b),
        ),
        x.as_ctrl() matches ControlFlow::Continue(Err(e)) ==> r == B::from_ctrl_spec(
            ControlFlow::Continue(Err(e)),
        ),
        x.as_ctrl() matches ControlFlow::Continue(Ok(c)) ==> exists|u: B::Continue|
            call_ensures(f, (c,), u) && r == B::from_ctrl_spec(ControlFlow::Continue(Ok(u))),
{
    match x.into_ctrl() {
        ControlFlow::Continue(Ok(c)) => B::from_ctrl(ControlFlow::Continue(Ok(f(c)))),
        ControlFlow::Continue(Err(e)) => B::from_ctrl(ControlFlow::Continue(Err(e))),
        ControlFlow::Break(b) => B::from_ctrl(ControlFlow::Break(b)),
    }
}

impl TryKind for Option<()> {
    type Residual = ();

    type Empty = ();
}

impl<T> CustomTry for Option<T> {
    type Continue = T;

    type Kind = Option<()>;

    open spec fn as_ctrl(self) -> ControlFlowOf<Self> {
        match self {
            Some(c) => ControlFlow::Continue(Ok(c)),
            None => ControlFlow::Break(()),
        }
    }

    open spec fn ctrl_wf(c: ControlFlowOf<Self>) -> bool {
        !(c matches ControlFlow::Continue(Err(_)))
    }

    open spec fn from_ctrl_spec(c: ControlFlowOf<Self>) -> Self {
        match c {
            ControlFlow::Continue(Ok(x)) => Some(x),
            _ => None,
        }
    }

    fn into_ctrl(self) -> (r: ControlFlowOf<Self>) {
        match self {
            Some(c) => ControlFlow::Continue(Ok(c)),
            None => ControlFlow::Break(()),
        }
    }

    fn from_ctrl(ctrl: ControlFlowOf<Self>) -> (r: Self) {
        match ctrl {
            ControlFlow::Continue(Ok(c)) => Some(c),
            _ => None,
        }
    }

    proof fn lemma_ctrl_round_trip(x: Self) {
    }

    proof fn lemma_ctrl_round_trip_rev(c: ControlFlowOf<Self>) {
        match c {
            ControlFlow::Break(u) => {
                assert(u =~= ());
            },
            _ => {},
        }
    }
}

impl<E> TryKind for Result<(), E> {
    type Residual = E;

    type Empty = E;
}

impl<T, E> CustomTry for Result<T, E> {
    type Continue = T;

    type Kind = Result<(), E>;

    open spec fn as_ctrl(self) -> ControlFlowOf<Self> {
        match self {
            Ok(c) => ControlFlow::Continue(Ok(c)),
            Err(e) => ControlFlow::Break(e),
        }
    }

    open spec fn ctrl_wf(c: ControlFlowOf<Self>) -> bool {
        !(c matches ControlFlow::Continue(Err(_)))
    }

    open spec fn from_ctrl_spec(c: ControlFlowOf<Self>) -> Self {
        match c {
            ControlFlow::Continue(Ok(x)) => Ok(x),
            ControlFlow::Continue(Err(e)) => Err(e),
            ControlFlow::Break(e) => Err(e),
        }
    }

    fn into_ctrl(self) -> (r: ControlFlowOf<Self>) {
        match self {
            Ok(c) => ControlFlow::Continue(Ok(c)),
            Err(e) => ControlFlow::Break(e),
        }
    }

    fn from_ctrl(ctrl: ControlFlowOf<Self>) -> (r: Self) {
        match ctrl {
            ControlFlow::Continue(Ok(c)) => Ok(c),
            ControlFlow::Continue(Err(e)) => Err(e),
            ControlFlow::Break(e) => Err(e),
        }
    }

    proof fn lemma_ctrl_round_trip(x: Self) {
    }

    proof fn lemma_ctrl_round_trip_rev(c: ControlFlowOf<Self>) {
    }
}

impl<B> TryKind for ControlFlow<B> {
    type Residual = B;

    type Empty = B;
}

impl<C, B> CustomTry for ControlFlow<B, C> {
    type Continue = C;

    type Kind = ControlFlow<B>;

    open spec fn as_ctrl(self) -> ControlFlowOf<Self> {
        match self {
            ControlFlow::Continue(c) => ControlFlow::Continue(Ok(c)),
            ControlFlow::Break(b) => ControlFlow::Break(b),
        }
    }

    open spec fn ctrl_wf(c: ControlFlowOf<Self>) -> bool {
        !(c matches ControlFlow::Continue(Err(_)))
    }

    open spec fn from_ctrl_spec(c: ControlFlowOf<Self>) -> Self {
        match c {
            ControlFlow::Continue(Ok(x)) => ControlFlow::Continue(x),
            ControlFlow::Continue(Err(b)) => ControlFlow::Break(b),
            ControlFlow::Break(b) => ControlFlow::Break(b),
        }
    }

    fn into_ctrl(self) -> (r: ControlFlowOf<Self>) {
        match self {
            ControlFlow::Continue(c) => ControlFlow::Continue(Ok(c)),
            ControlFlow::Break(b) => ControlFlow::Break(b),
        }
    }

    fn from_ctrl(ctrl: ControlFlowOf<Self>) -> (r: Self) {
        match ctrl {
            ControlFlow::Continue(Ok(c)) => ControlFlow::Continue(c),
            ControlFlow::Continue(Err(b)) => ControlFlow::Break(b),
            ControlFlow::Break(b) => ControlFlow::Break(b),
        }
    }

    proof fn lemma_ctrl_round_trip(x: Self) {
    }

    proof fn lemma_ctrl_round_trip_rev(c: ControlFlowOf<Self>) {
    }
}

impl<E> TryKind for Poll<Result<(), E>> {
    type Residual = E;

    type Empty = ();
}

impl<T, E> CustomTry for Poll<Result<T, E>> {
    type Continue = T;

    type Kind = Poll<Result<(), E>>;

    open spec fn as_ctrl(self) -> ControlFlowOf<Self> {
        match self {
            Poll::Ready(Ok(x)) => ControlFlow::Continue(Ok(x)),
            Poll::Ready(Err(e)) => ControlFlow::Break(e),
            Poll::Pending => ControlFlow::Continue(Err(())),
        }
    }

    open spec fn ctrl_wf(c: ControlFlowOf<Self>) -> bool {
        true
    }

    open spec fn from_ctrl_spec(c: ControlFlowOf<Self>) -> Self {
        match c {
            ControlFlow::Continue(Ok(x)) => Poll::Ready(Ok(x)),
            ControlFlow::Continue(Err(_)) => Poll::Pending,
            ControlFlow::Break(e) => Poll::Ready(Err(e)),
        }
    }

    fn into_ctrl(self) -> (r: ControlFlowOf<Self>) {
        match self {
            Poll::Ready(Ok(x)) => ControlFlow::Continue(Ok(x)),
            Poll::Ready(Err(e)) => ControlFlow::Break(e),
            Poll::Pending => ControlFlow::Continue(Err(())),
        }
    }

    fn from_ctrl(ctrl: ControlFlowOf<Self>) -> (r: Self) {
        match ctrl {
            ControlFlow::Continue(Ok(x)) => Poll::Ready(Ok(x)),
            ControlFlow::Continue(Err(_)) => Poll::Pending,
            ControlFlow::Break(e) => Poll::Ready(Err(e)),
        }
    }

    proof fn lemma_ctrl_round_trip(x: Self) {
    }

    proof fn lemma_ctrl_round_trip_rev(c: ControlFlowOf<Self>) {
        match c {
            ControlFlow::Continue(Err(u)) => {
                assert(u =~= ());
            },
            _ => {},
        }
    }
}

impl<E> TryKind for Poll<Option<Result<(), E>>> {
    type Residual = Option<E>;

    type Empty = ();
}

impl<T, E> CustomTry for Poll<Option<Result<T, E>>> {
    type Continue = T;

    type Kind = Poll<Option<Result<(), E>>>;

    open spec fn as_ctrl(self) -> ControlFlowOf<Self> {
        match self {
            Poll::Ready(Some(Ok(x))) => ControlFlow::Continue(Ok(x)),
            Poll::Ready(None) => ControlFlow::Break(None),
            Poll::Ready(Some(Err(e))) => ControlFlow::Break(Some(e)),
            Poll::Pending => ControlFlow::Continue(Err(())),
        }
    }

    open spec fn ctrl_wf(c: ControlFlowOf<Self>) -> bool {
        true
    }

    open spec fn from_ctrl_spec(c: ControlFlowOf<Self>) -> Self {
        match c {
            ControlFlow::Continue(Ok(x)) => Poll::Ready(Some(Ok(x))),
            ControlFlow::Continue(Err(_)) => Poll::Pending,
            ControlFlow::Break(None) => Poll::Ready(None),
            ControlFlow::Break(Some(e)) => Poll::Ready(Some(Err(e))),
        }
    }

    fn into_ctrl(self) -> (r: ControlFlowOf<Self>) {
        match self {
            Poll::Ready(Some(Ok(x))) => ControlFlow::Continue(Ok(x)),
            Poll::Ready(None) => ControlFlow::Break(None),
            Poll::Ready(Some(Err(e))) => ControlFlow::Break(Some(e)),
            Poll::Pending => ControlFlow::Continue(Err(())),
        }
    }

    fn from_ctrl(ctrl: ControlFlowOf<Self>) -> (r: Self) {
        match ctrl {
            ControlFlow::Continue(Ok(x)) => Poll::Ready(Some(Ok(x))),
            ControlFlow::Continue(Err(_)) => Poll::Pending,
            ControlFlow::Break(None) => Poll::Ready(None),
            ControlFlow::Break(Some(e)) => Poll::Ready(Some(Err(e))),
        }
    }

    proof fn lemma_ctrl_round_trip(x: Self) {
    }

    proof fn lemma_ctrl_round_trip_rev(c: ControlFlowOf<Self>) {
        match c {
            ControlFlow::Continue(Err(u)) => {
                assert(u =~= ());
            },
            _ => {},
        }
    }
}

} // verus!

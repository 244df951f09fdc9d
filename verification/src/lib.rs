//! Extensible pattern matching over integer-tagged values.
//!
//! A value whose shape is described by an implementation of [`Match`] can be
//! decomposed by *tag*: a small non-negative integer naming which case the
//! value currently represents.  For each tag `N` an implementation of
//! [`Case<N>`] gives the statically-typed payload carried by that case,
//! together with the three primitive operations: extraction under an
//! established tag, checked extraction, and reconstruction.
//!
//! On top of these traits the crate provides the compiler for case
//! expressions: parsing tag-labelled arms, grouping them, deciding
//! exhaustiveness, and planning the two-level dispatch that the generated
//! code performs (see [`CaseInput::compile`](case_expr::CaseInput::compile)
//! and [`CaseOutput::dispatch_plan`](case_expr::CaseOutput::dispatch_plan)),
//! as well as the derivation engine that assigns tags and payload shapes to
//! the variants of a declared type (see [`derive`]).

use vstd::prelude::*;

pub mod case_expr;
pub mod derive;
pub mod dispatch;
pub mod impls;
pub mod path;
pub mod syntax;
pub mod text;

verus! {

/// The range of tags a [`Match`] type can report: either bounded by a known
/// constant ([`Exhaustive`]) or unbounded ([`Nonexhaustive`]).
pub trait Range {
    /// The exclusive upper bound on reported tags, if one is known.
    spec fn bound() -> Option<usize>;
}

/// A marker type indicating that the tag for some type is always *strictly
/// less than* `N`.  Use this as the [`Match::Range`] of closed types.
#[derive(Clone, Copy, Debug, PartialEq, Eq, PartialOrd, Ord, Hash)]
pub struct Exhaustive<const N: usize>;

/// A marker type indicating that the tag for some type has no known upper
/// bound.  Use this as the [`Match::Range`] of open types.
#[derive(Clone, Copy, Debug, PartialEq, Eq, PartialOrd, Ord, Hash)]
pub struct Nonexhaustive;

impl<const N: usize> Range for Exhaustive<N> {
    open spec fn bound() -> Option<usize> {
        Some(N)
    }
}

impl Range for Nonexhaustive {
    open spec fn bound() -> Option<usize> {
        None
    }
}

/// A type which is `Match` can be decomposed by tag using the methods of
/// [`CaseExt`] and [`Case`].
///
/// The central safety invariant of the whole system is stated here as a
/// verified obligation rather than an informal contract: whenever `tag`
/// returns `Some(n)`, extraction at tag `n` is permitted, and when the
/// [`Range`](Match::Range) is [`Exhaustive<N>`](Exhaustive) the tag is never
/// `None` and always lies below `N`.
pub trait Match: Sized {
    /// The range of [`tag`](Match::tag) for this type: either
    /// [`Nonexhaustive`], or [`Exhaustive<N>`](Exhaustive) for some `N`.
    type Range: Range;

    /// The tag of this value, as a specification-level function.
    ///
    /// The executable [`tag`](Match::tag) must agree with this function, so
    /// the tag of a value is fixed: it cannot change between a check and a
    /// subsequent extraction.
    spec fn tag_spec(&self) -> Option<usize>;

    /// The tag of this value.
    ///
    /// Returning `None` causes every case expression over this value to take
    /// the default case; only types whose [`Range`](Match::Range) is
    /// [`Nonexhaustive`] may do so.
    fn tag(&self) -> (t: Option<usize>)
        ensures
            t == self.tag_spec(),
            <Self::Range as Range>::bound() matches Some(b) ==> t matches Some(m) && m < b,
    ;
}

/// An implementation of `Case` defines one case of a pattern match for a
/// type: the payload carried under tag `N` and the primitive operations on
/// it.
pub trait Case<const N: usize>: Match {
    /// The type of the data contained in the `N`th case of the matched type.
    type Case;

    /// The payload carried by `this`, meaningful when `this` carries tag `N`.
    spec fn payload(this: Self) -> Self::Case;

    /// The value of the matched type that carries tag `N` with payload `c`.
    spec fn inject(c: Self::Case) -> Self;

    /// Reconstruction after extraction yields the original value: every
    /// value carrying tag `N` is exactly the injection of its payload.
    proof fn payload_inject(this: Self)
        requires
            this.tag_spec() == Some(N),
        ensures
            Self::inject(Self::payload(this)) == this,
    ;

    /// Extract the payload of a value already known to carry tag `N`.
    ///
    /// The precondition replaces the unchecked primitive of an ordinary
    /// implementation: the caller must have established the tag, and no
    /// run-time check is made.
    fn case(this: Self) -> (c: Self::Case)
        requires
            this.tag_spec() == Some(N),
        ensures
            c == Self::payload(this),
    ;

    /// Rebuild a value of the matched type carrying tag `N` from its
    /// payload.  This operation cannot fail.
    fn uncase(c: Self::Case) -> (this: Self)
        ensures
            this == Self::inject(c),
            this.tag_spec() == Some(N),
    ;

    /// If the value carries tag `N`, return its payload; otherwise return
    /// the original value unchanged.
    fn try_case(this: Self) -> (r: Result<Self::Case, Self>)
        ensures
            this.tag_spec() == Some(N) ==> (r matches Ok(c) && c == Self::payload(this)),
            this.tag_spec() != Some(N) ==> (r matches Err(e) && e == this),
    {
        let t = this.tag();
        match t {
            Some(n) if n == N => Ok(Self::case(this)),
            _ => Err(this),
        }
    }
}

/// An extension trait providing methods analogous to those in [`Case`], but
/// which take `self` and type parameters.
pub trait CaseExt: Sized {
    /// If the value's tag is `N`, return that case's payload.  The caller
    /// must have established the tag.
    fn case<const N: usize>(self) -> (c: <Self as Case<N>>::Case) where Self: Case<N>
        requires
            self.tag_spec() == Some(N),
        ensures
            c == <Self as Case<N>>::payload(self),
    {
        Case::case(self)
    }

    /// If the value's tag is `N`, return that case's payload; otherwise
    /// return `self` unchanged.
    fn try_case<const N: usize>(self) -> (r: Result<<Self as Case<N>>::Case, Self>) where
        Self: Case<N>

        ensures
            self.tag_spec() == Some(N) ==> (r matches Ok(c) && c == <Self as Case<N>>::payload(
                self,
            )),
            self.tag_spec() != Some(N) ==> (r matches Err(e) && e == self),
    {
        Case::try_case(self)
    }

    /// The inverse of [`case`](CaseExt::case): inject this payload back into
    /// the matched type under tag `N`.
    fn uncase<T, const N: usize>(self) -> (this: T) where T: Case<N, Case = Self>
        ensures
            this == <T as Case<N>>::inject(self),
            this.tag_spec() == Some(N),
    {
        Case::uncase(self)
    }
}

impl<T: Sized> CaseExt for T {

}

/// Statically assert that the type of the given value is exhaustive for `N`.
///
/// This function can only be called if `T: Match<Range = Exhaustive<N>>`.
/// It does nothing when called.
pub fn assert_exhaustive<T, const N: usize>(_value: &T) where T: Match<Range = Exhaustive<N>>
    ensures
        <<T as Match>::Range as Range>::bound() == Some(N),
{
}

} // verus!

//! Plain-value stand-ins for the host language's syntax.
//!
//! The case-expression compiler and the derivation engine decide everything
//! from tags, spans and the order of arms; the host expressions and patterns
//! themselves are only carried through and embedded, unmodified, into the
//! generated code.  They are therefore represented here by opaque handles:
//! the embedding layer that talks to the host syntax keeps the real syntax
//! trees and hands this crate a handle for each one.

use vstd::prelude::*;

verus! {

/// A source location in the host syntax, carried for diagnostics.
#[derive(Clone, Copy, Debug, PartialEq, Eq, Structural)]
pub struct Span {
    /// Opaque identifier of the host span this stands for.
    pub id: u64,
}

/// A host expression, opaque except for its source span.
#[derive(Clone, Copy, Debug, PartialEq, Eq, Structural)]
pub struct Expr {
    /// Opaque identifier of the host expression this stands for.
    pub id: u64,
    /// The source span of the expression.
    pub span: Span,
}

/// One match arm of the host language: a pattern, an optional guard and a
/// body.  Opaque to this crate except for its ability to be embedded,
/// unmodified, into generated code.
#[derive(Clone, Copy, Debug, PartialEq, Eq, Structural)]
pub struct Arm {
    /// Opaque identifier of the host arm this stands for.
    pub id: u64,
}

} // verus!

//! The elementary functions that the host computes.
//!
//! Sines, bearings and lengths depend on the host's mathematical library, so
//! they reach the library as one callable. A contract that involves them
//! speaks of every mathematical function that describes the callable.
use crate::binary64::Binary64;
use vstd::prelude::*;

verus! {

/// A question to the host.
#[derive(Clone, Copy, Debug, PartialEq, Eq, Structural)]
pub enum Elementary {
    Sine(Binary64),
    Cosine(Binary64),
    ArcSine(Binary64),
    SquareRoot(Binary64),
    /// The direction of the vector `(x, y)`.
    Bearing { y: Binary64, x: Binary64 },
    /// The length of the vector `(x, y)`.
    Length { x: Binary64, y: Binary64 },
    /// The turn from one heading to another, within half a turn.
    Turn { to: Binary64, from: Binary64 },
}

/// Whether the host can be asked anything.
pub open spec fn total<F: Fn(Elementary) -> Binary64>(host: F) -> bool {
    forall|q: Elementary| #[trigger] call_requires(host, (q,))
}

/// Whether a mathematical function gives every answer of the host.
pub open spec fn models<F: Fn(Elementary) -> Binary64>(
    host: F,
    m: spec_fn(Elementary) -> Binary64,
) -> bool {
    forall|q: Elementary, r: Binary64| #[trigger] call_ensures(host, (q,), r) ==> r == m(q)
}

} // verus!

use vstd::prelude::*;

verus! {

/// Everything this crate can report as a failure.
///
/// Construction fails only with `IncompleteContext`; the two lookup misses
/// arise during resolution of a fully built context. Nothing here is ever
/// silently defaulted: a miss is returned, never mapped to shard 0.
#[derive(Clone, Copy, Debug, PartialEq, Eq, Structural)]
pub enum Error {
    /// `build` was called without both an operator and a value, or
    /// schema-less inference could not match any known type.
    IncompleteContext,
    /// A range-routed key lies below every configured lower bound.
    NoRangeMatch,
    /// A list-routed key matches no configured entry.
    NoListMatch,
}

} // verus!

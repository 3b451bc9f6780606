//! The merge policy contract: every replicated entity type resolves two
//! divergent versions of one key into a single value, deterministically.

use vstd::prelude::*;

verus! {

/// An entity type with a deterministic conflict-resolution rule.
///
/// `merged` is the mathematical merge policy; `merge` applies it in place,
/// combining the local version with a version received from another replica.
pub trait Mergeable: View + Sized {
    /// The resolved value for a local and a remote version of one key.
    spec fn merged(local: Self::V, remote: Self::V) -> Self::V;

    /// Resolves a remote version into the local one.
    fn merge(&mut self, other: &Self)
        ensures
            final(self)@ == Self::merged(old(self)@, other@),
    ;

    /// A copy of the value, with the same abstract contents.
    fn duplicate(&self) -> (r: Self)
        ensures
            r@ == self@,
    ;
}

} // verus!

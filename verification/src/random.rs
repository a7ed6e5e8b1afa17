//! A seed that differs from one scratch file to the next.

use std::collections::hash_map::{DefaultHasher, RandomState};
use std::hash::{BuildHasher, Hasher};
use vstd::prelude::*;

verus! {

/// `RandomState::new` makes a state with keys that the standard library picks
/// at random. Nothing is claimed of it.
pub assume_specification[ RandomState::new ]() -> (state: RandomState)
;

/// `RandomState::build_hasher` makes a hasher with the keys of the state.
/// Nothing is claimed of it.
pub assume_specification[ <RandomState as BuildHasher>::build_hasher ](
    state: &RandomState,
) -> (hasher: DefaultHasher)
;

/// A number that differs from call to call: what a hasher with fresh random
/// keys gives before anything was written to it.
pub fn random_seed() -> u64 {
    let state = RandomState::new();
    let hasher = state.build_hasher();
    hasher.finish()
}

} // verus!

//! Small helpers shared across the crate.

use vstd::prelude::*;

verus! {

/// Whether a value equals its type's default; the canonical record schema
/// omits exactly the fields for which this holds.
pub fn is_default<T: Default + PartialEq>(t: &T) -> bool {
    *t == T::default()
}

} // verus!

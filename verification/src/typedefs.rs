//! Names for the integer types of sizes.

use vstd::prelude::*;

verus! {

/// The size of an array in bytes.
pub type ArraySize = u32;

/// The size of an object in bytes.
pub type ObjectSize = u32;

} // verus!

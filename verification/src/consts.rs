//! Constants of the language.

use vstd::prelude::*;

verus! {

/// The number that stands in for everything that has no number of its own.
pub const ANSWER: i32 = 42;

} // verus!

use vstd::prelude::*;

verus! {

/// How many units fit into a building.
pub type Capacity = i32;

/// Fighting power, counted in tenths of a power point, so that the
/// per-unit coefficients (1.9 and 1.2 points) are exact integers.
pub type FighterPower = i128;

/// A number of units, buildings or resource pieces.
pub type Quantity = i32;

/// A price as a pair (wood, gold).
pub type ResourceValue = (i32, i32);

} // verus!

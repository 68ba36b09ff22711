use vstd::prelude::*;

use crate::value_types::{Capacity, FighterPower, ResourceValue};

verus! {

/// Something that can be bought, for a price in wood and gold.
pub trait HasValue {
    /// The price, as a mathematical value.
    spec fn spec_value(&self) -> ResourceValue;

    /// Returns the price; prices are never negative.
    fn value(&self) -> (r: ResourceValue)
        ensures
            r == self.spec_value(),
            0 <= r.0,
            0 <= r.1,
    ;
}

/// Something that fights, with a power per unit.
pub trait HasPower {
    /// The power of one unit, as a mathematical value.
    spec fn spec_power(&self) -> FighterPower;

    /// Returns the power of one unit; it is never negative.
    fn power(&self) -> (r: FighterPower)
        ensures
            r == self.spec_power(),
            0 <= r,
    ;
}

/// Something that houses fighters.
pub trait HasCapacity {
    /// The capacity, as a mathematical value.
    spec fn spec_capacity(&self) -> Capacity;

    /// Returns how many fighters fit; it is never negative.
    fn capacity(&self) -> (r: Capacity)
        ensures
            r == self.spec_capacity(),
            0 <= r,
    ;
}

} // verus!

use vstd::prelude::*;

use crate::limits::{BASE_CAPACITY, BASE_COST};
use crate::properties::{HasCapacity, HasValue};
use crate::value_types::{Capacity, ResourceValue};

verus! {

/// Kinds of buildings.
#[derive(Clone, Copy, PartialEq, Eq, Structural, Debug)]
pub enum Building {
    Base,
}

impl HasCapacity for Building {
    open spec fn spec_capacity(&self) -> Capacity {
        match self {
            Building::Base => BASE_CAPACITY,
        }
    }

    fn capacity(&self) -> (r: Capacity) {
        match self {
            Building::Base => BASE_CAPACITY,
        }
    }
}

impl HasValue for Building {
    open spec fn spec_value(&self) -> ResourceValue {
        match self {
            Building::Base => BASE_COST,
        }
    }

    fn value(&self) -> (r: ResourceValue) {
        match self {
            Building::Base => BASE_COST,
        }
    }
}

} // verus!

use vstd::prelude::*;

use crate::resources::ResourceType;
use crate::troops::UnitType;
use crate::value_types::Quantity;

verus! {

/// Why an operation was refused. A refused operation changes nothing.
#[derive(Clone, PartialEq, Eq, Debug)]
pub enum ActionError {
    /// Not enough of a resource to pay a price.
    InsufficientResource { resource: ResourceType, available: i64, required: i64 },
    /// Not enough wood and not enough gold to pay a price.
    InsufficientResources {
        wood_available: i64,
        wood_required: i64,
        gold_available: i64,
        gold_required: i64,
    },
    /// Fewer units held than were asked for.
    InsufficientUnits { unit: UnitType, available: Quantity, requested: Quantity },
    /// Training would house more fighters than the bases hold.
    CapacityExceeded { requested: Quantity, available: Quantity },
    /// A unit count or a debit that is not allowed (not positive, or negative).
    InvalidQuantity { value: Quantity },
    /// The coordinates lie outside the battlefield.
    FieldNotFound { x: usize, y: usize },
    /// A credit of zero or less.
    ZeroOrNegativeAmount { resource: ResourceType, amount: Quantity },
    /// Another player already has this name.
    DuplicateActorName { name: String },
}

} // verus!

use vstd::prelude::*;

use crate::buildings::Building;
use crate::troops::UnitType;
use crate::value_types::Quantity;

verus! {

/// What a player can do in one round.
#[derive(Clone, Copy, PartialEq, Eq, Structural, Debug)]
pub enum Actions {
    /// Build one building of the given kind.
    Build(Building),
    /// Gather the fixed harvest yield.
    Harvest,
    /// Train this many units of the given kind.
    Train(UnitType, Quantity),
    /// Send this many units of the given kind to the field at (x, y).
    Conquer(usize, usize, UnitType, Quantity),
    /// Stop playing.
    Quit,
}

/// What a successful action did, with the quantities that resulted.
#[derive(Clone, Copy, PartialEq, Eq, Structural, Debug)]
pub enum Outcome {
    /// A building went up; `count` buildings of that kind are now owned.
    Built { building: Building, count: Quantity },
    /// The yield was gathered; `wood` and `gold` are the new stocks.
    Harvested { wood_gained: Quantity, gold_gained: Quantity, wood: Quantity, gold: Quantity },
    /// Units were trained; `held` of that kind are now in the pool.
    Trained { unit: UnitType, quantity: Quantity, held: Quantity },
    /// Units were sent to the field at (x, y).
    Occupied { x: usize, y: usize, unit: UnitType, quantity: Quantity },
    /// The player quit; nothing changed.
    Quit,
}

} // verus!

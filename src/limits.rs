use vstd::prelude::*;

use crate::value_types::{Capacity, FighterPower, ResourceValue};

verus! {

/// How many fighters one base can house.
pub const BASE_CAPACITY: Capacity = 200;

/// Price of one base.
pub const BASE_COST: ResourceValue = (220, 100);

/// Price of one archer.
pub const ARCHER_COST: ResourceValue = (0, 10);

/// Price of one warrior.
pub const WARRIOR_COST: ResourceValue = (10, 5);

/// What one harvest yields.
pub const HARVEST_GAIN: ResourceValue = (200, 120);

/// Fighting power of one archer (1.9 points).
pub const ARCHER_POWER: FighterPower = 19;

/// Fighting power of one warrior (1.2 points).
pub const WARRIOR_POWER: FighterPower = 12;

/// Two contenders whose powers differ by no more than this (0.1 points)
/// are tied.
pub const POWER_TOLERANCE: FighterPower = 1;

/// Width of the battlefield in the standard game.
pub const DEFAULT_PLAN_WIDTH: usize = 1;

/// Height of the battlefield in the standard game.
pub const DEFAULT_PLAN_HEIGHT: usize = 1;

/// Fewest rounds a match may be played for.
pub const MINIMUM_ROUNDS: usize = 10;

} // verus!

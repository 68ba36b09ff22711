use vstd::prelude::*;

use crate::errors::ActionError;
use crate::limits;
use crate::properties::{HasPower, HasValue};
use crate::value_types::{FighterPower, Quantity, ResourceValue};

verus! {

/// Kinds of fighters.
#[derive(Clone, Copy, PartialEq, Eq, Structural, Debug)]
pub enum UnitType {
    Warrior,
    Archer,
}

/// A number of fighters of one kind: a player's pool of that kind, or a
/// group sent to a field.
#[derive(Clone, Copy, PartialEq, Eq, Structural, Debug)]
pub struct Unit {
    pub unit_type: UnitType,
    pub quantity: Quantity,
}

impl Unit {
    /// A pool never holds a negative number of fighters.
    pub open spec fn wf(&self) -> bool {
        self.quantity >= 0
    }

    /// Fighting power of the whole group, in tenths.
    pub open spec fn spec_fighting_power(&self) -> int {
        self.unit_type.spec_power() * self.quantity
    }

    /// An empty pool of the given kind.
    pub fn new(unit_type: UnitType) -> (r: Self)
        ensures
            r.unit_type == unit_type,
            r.quantity == 0,
    {
        Self { unit_type, quantity: 0 }
    }

    /// A group of `quantity` fighters of the given kind.
    pub fn unit_to_send(unit_type: UnitType, quantity: Quantity) -> (r: Unit)
        ensures
            r.unit_type == unit_type,
            r.quantity == quantity,
    {
        Self { unit_type, quantity }
    }

    /// Adds `quantity` newly trained fighters.
    pub fn train(&mut self, quantity: Quantity)
        requires
            quantity > 0,
            old(self).quantity + quantity <= i32::MAX,
        ensures
            final(self).unit_type == old(self).unit_type,
            final(self).quantity == old(self).quantity + quantity,
    {
        self.quantity = self.quantity + quantity;
    }

    /// Takes `quantity` fighters out of the pool and hands them back as a
    /// group to place on a field; refuses, changing nothing, when the count
    /// is not positive or exceeds what is held.
    pub fn send_occupy(&mut self, quantity: Quantity) -> (r: Result<Unit, ActionError>)
        requires
            old(self).wf(),
        ensures
            final(self).unit_type == old(self).unit_type,
            final(self).wf(),
            quantity <= 0 ==> r == Err::<Unit, ActionError>(
                ActionError::InvalidQuantity { value: quantity },
            ) && *final(self) == *old(self),
            0 < quantity <= old(self).quantity ==> r == Ok::<Unit, ActionError>(
                (Unit { unit_type: old(self).unit_type, quantity }),
            ) && final(self).quantity == old(self).quantity - quantity,
            quantity > old(self).quantity ==> r == Err::<Unit, ActionError>(
                ActionError::InsufficientUnits {
                    unit: old(self).unit_type,
                    available: old(self).quantity,
                    requested: quantity,
                },
            ) && *final(self) == *old(self),
    {
        if quantity <= 0 {
            return Err(ActionError::InvalidQuantity { value: quantity });
        }
        if self.quantity < quantity {
            return Err(
                ActionError::InsufficientUnits {
                    unit: self.unit_type,
                    available: self.quantity,
                    requested: quantity,
                },
            );
        }
        self.quantity = self.quantity - quantity;
        Ok(Unit::unit_to_send(self.unit_type, quantity))
    }

    /// Fighting power of the whole group, in tenths.
    pub fn fighting_power(&self) -> (r: FighterPower)
        ensures
            r == self.spec_fighting_power(),
    {
        let p = self.unit_type.power();
        assert(-19 * 0x8000_0000 <= p * self.quantity <= 19 * 0x8000_0000) by (nonlinear_arith)
            requires
                0 <= p <= 19,
                -0x8000_0000 <= self.quantity < 0x8000_0000,
        ;
        p * self.quantity as i128
    }
}

impl HasValue for Unit {
    open spec fn spec_value(&self) -> ResourceValue {
        self.unit_type.spec_value()
    }

    fn value(&self) -> (r: ResourceValue) {
        self.unit_type.value()
    }
}

impl HasPower for UnitType {
    open spec fn spec_power(&self) -> FighterPower {
        match self {
            UnitType::Archer => limits::ARCHER_POWER,
            UnitType::Warrior => limits::WARRIOR_POWER,
        }
    }

    fn power(&self) -> (r: FighterPower) {
        match self {
            UnitType::Archer => limits::ARCHER_POWER,
            UnitType::Warrior => limits::WARRIOR_POWER,
        }
    }
}

impl HasValue for UnitType {
    open spec fn spec_value(&self) -> ResourceValue {
        match self {
            UnitType::Archer => limits::ARCHER_COST,
            UnitType::Warrior => limits::WARRIOR_COST,
        }
    }

    fn value(&self) -> (r: ResourceValue) {
        match self {
            UnitType::Archer => limits::ARCHER_COST,
            UnitType::Warrior => limits::WARRIOR_COST,
        }
    }
}

} // verus!

use vstd::prelude::*;

use crate::errors::ActionError;
use crate::value_types::Quantity;

verus! {

/// Kinds of resources a player stores.
#[derive(Clone, Copy, PartialEq, Eq, Structural, Debug)]
pub enum ResourceType {
    Wood,
    Gold,
}

/// A stock of one kind of resource.
#[derive(Clone, Copy, PartialEq, Eq, Structural, Debug)]
pub struct Resource {
    pub resource_type: ResourceType,
    pub quantity: Quantity,
}

impl Resource {
    /// A stock is never negative.
    pub open spec fn wf(&self) -> bool {
        self.quantity >= 0
    }

    /// The error that reports this stock as short of `required`.
    pub open spec fn cannot_pay_spec(&self, required: i64) -> ActionError {
        ActionError::InsufficientResource {
            resource: self.resource_type,
            available: self.quantity as i64,
            required,
        }
    }

    /// An empty stock of the given kind.
    pub fn new(resource_type: ResourceType) -> (r: Self)
        ensures
            r.resource_type == resource_type,
            r.quantity == 0,
    {
        Resource { resource_type, quantity: 0 }
    }

    /// Whether the stock covers `quantity`.
    pub fn can_pay(&self, quantity: i64) -> (r: bool)
        ensures
            r == (self.quantity >= quantity),
    {
        self.quantity as i64 >= quantity
    }

    /// The error that reports this stock as short of `required`.
    pub fn cannot_pay(&self, required: i64) -> (r: ActionError)
        ensures
            r == self.cannot_pay_spec(required),
    {
        ActionError::InsufficientResource {
            resource: self.resource_type,
            available: self.quantity as i64,
            required,
        }
    }

    /// Credits `quantity`, which must be positive.
    pub fn add(&mut self, quantity: Quantity) -> (r: Result<(), ActionError>)
        requires
            quantity > 0 ==> old(self).quantity + quantity <= i32::MAX,
        ensures
            final(self).resource_type == old(self).resource_type,
            quantity > 0 ==> r is Ok && final(self).quantity == old(self).quantity + quantity,
            quantity <= 0 ==> r == Err::<(), ActionError>(
                ActionError::ZeroOrNegativeAmount {
                    resource: old(self).resource_type,
                    amount: quantity,
                },
            ) && *final(self) == *old(self),
    {
        if quantity <= 0 {
            return Err(
                ActionError::ZeroOrNegativeAmount { resource: self.resource_type, amount: quantity },
            );
        }
        self.quantity = self.quantity + quantity;
        Ok(())
    }

    /// Debits `quantity` when the stock covers it; otherwise changes nothing.
    pub fn subtract(&mut self, quantity: Quantity) -> (r: Result<(), ActionError>)
        requires
            old(self).wf(),
        ensures
            final(self).resource_type == old(self).resource_type,
            final(self).wf(),
            quantity < 0 ==> r == Err::<(), ActionError>(
                ActionError::InvalidQuantity { value: quantity },
            ) && *final(self) == *old(self),
            0 <= quantity <= old(self).quantity ==> r is Ok && final(self).quantity == old(
                self,
            ).quantity - quantity,
            quantity > old(self).quantity ==> r == Err::<(), ActionError>(
                old(self).cannot_pay_spec(quantity as i64),
            ) && *final(self) == *old(self),
    {
        if quantity < 0 {
            return Err(ActionError::InvalidQuantity { value: quantity });
        }
        if !self.can_pay(quantity as i64) {
            return Err(self.cannot_pay(quantity as i64));
        }
        self.quantity = self.quantity - quantity;
        Ok(())
    }
}

} // verus!

use vstd::prelude::*;
use crate::error::{follows, StoreError};
use crate::identity::{Authority, Identity};

verus! {

/// Where a shipment stands in its lifecycle.
#[derive(Clone, Copy, Debug, PartialEq, Eq, Structural)]
pub enum Stage {
    Created,
    Validated,
    Approved,
}

/// The mathematical content of a shipment record.
pub ghost struct ShipmentState {
    pub creator: Identity,
    pub validated: bool,
    pub approved: bool,
}

impl ShipmentState {
    /// A record as creation leaves it.
    pub open spec fn fresh(creator: Identity) -> ShipmentState {
        ShipmentState { creator, validated: false, approved: false }
    }

    /// Approval never comes without validation.
    pub open spec fn well_formed(self) -> bool {
        self.approved ==> self.validated
    }

    /// The stage that the two flags stand for.
    pub open spec fn stage(self) -> Stage {
        if self.approved {
            Stage::Approved
        } else if self.validated {
            Stage::Validated
        } else {
            Stage::Created
        }
    }

    /// The outcome of a validation request: the next state, or the refusal.
    /// The record's own state is judged before the validator's credential.
    pub open spec fn validate(self, validator: Authority) -> Result<ShipmentState, StoreError> {
        if self.validated {
            Err(StoreError::AlreadyValidated)
        } else if !validator.signer {
            Err(StoreError::Unauthorized)
        } else {
            Ok(ShipmentState { validated: true, ..self })
        }
    }

    /// The outcome of an approval request: the next state, or the refusal.
    /// A record that is not validated is refused whoever asks.
    pub open spec fn approve(self, approver: Authority) -> Result<ShipmentState, StoreError> {
        if !self.validated {
            Err(StoreError::NotValidated)
        } else if self.approved {
            Err(StoreError::AlreadyApproved)
        } else if !approver.signer {
            Err(StoreError::Unauthorized)
        } else {
            Ok(ShipmentState { approved: true, ..self })
        }
    }
}

/// The singleton sequence counter: how many shipments were ever minted.
#[derive(Clone, Copy, Debug, PartialEq, Eq)]
pub struct CounterRecord {
    pub count: u64,
}

/// A shipment: who created it and how far it has come.
#[derive(Clone, Copy, Debug, PartialEq, Eq)]
pub struct ShipmentRecord {
    creator: Identity,
    validated: bool,
    approved: bool,
}

impl CounterRecord {
    /// The bytes of storage that a counter takes: its count.
    pub const SIZE: usize = 8;
}

impl View for ShipmentRecord {
    type V = ShipmentState;

    closed spec fn view(&self) -> ShipmentState {
        ShipmentState { creator: self.creator, validated: self.validated, approved: self.approved }
    }
}

impl ShipmentRecord {
    /// The bytes of storage that a shipment takes: the creator's key and one
    /// byte for each of the two flags.
    pub const SIZE: usize = 32 + 1 + 1;

    /// A shipment in its first stage.
    pub fn new(creator: Identity) -> (record: ShipmentRecord)
        ensures
            record@ == ShipmentState::fresh(creator),
    {
        ShipmentRecord { creator, validated: false, approved: false }
    }

    /// The identity that created the shipment.
    pub fn creator(&self) -> (creator: Identity)
        ensures
            creator == self@.creator,
    {
        self.creator
    }

    /// Whether the shipment has been validated.
    pub fn validated(&self) -> (validated: bool)
        ensures
            validated == self@.validated,
    {
        self.validated
    }

    /// Whether the shipment has been approved.
    pub fn approved(&self) -> (approved: bool)
        ensures
            approved == self@.approved,
    {
        self.approved
    }

    /// The stage that the shipment has reached.
    pub fn stage(&self) -> (stage: Stage)
        ensures
            stage == self@.stage(),
    {
        if self.approved {
            Stage::Approved
        } else if self.validated {
            Stage::Validated
        } else {
            Stage::Created
        }
    }

    /// Moves the shipment from `Created` to `Validated` for a genuine signer.
    pub fn validate(&mut self, validator: &Authority) -> (r: Result<(), StoreError>)
        ensures
            follows(old(self)@.validate(*validator), r, old(self)@, final(self)@),
            old(self)@.validated ==> r == Err::<(), StoreError>(StoreError::AlreadyValidated),
            r.is_err() ==> final(self)@ == old(self)@,
    {
        if self.validated {
            return Err(StoreError::AlreadyValidated);
        }
        if !validator.signer {
            return Err(StoreError::Unauthorized);
        }
        self.validated = true;
        Ok(())
    }

    /// Moves the shipment from `Validated` to `Approved` for a genuine signer.
    pub fn approve(&mut self, approver: &Authority) -> (r: Result<(), StoreError>)
        ensures
            follows(old(self)@.approve(*approver), r, old(self)@, final(self)@),
            !old(self)@.validated ==> r == Err::<(), StoreError>(StoreError::NotValidated),
            r.is_err() ==> final(self)@ == old(self)@,
    {
        if !self.validated {
            return Err(StoreError::NotValidated);
        }
        if self.approved {
            return Err(StoreError::AlreadyApproved);
        }
        if !approver.signer {
            return Err(StoreError::Unauthorized);
        }
        self.approved = true;
        Ok(())
    }
}

} // verus!

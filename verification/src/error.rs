use vstd::prelude::*;

verus! {

/// Why the store refused an operation. Every refusal leaves the store and
/// its records exactly as they were.
#[derive(Clone, Copy, Debug, PartialEq, Eq, Structural)]
pub enum StoreError {
    /// The singleton counter was initialised before.
    AlreadyExists,
    /// The derived address is occupied, or no further address can be minted.
    AllocationFailed,
    /// The payer cannot cover the storage that the operation allocates.
    FundingInsufficient,
    /// Approval was asked of a shipment that is not validated.
    NotValidated,
    /// Validation was asked of a shipment that is validated already.
    AlreadyValidated,
    /// Approval was asked of a shipment that is approved already.
    AlreadyApproved,
    /// The caller is not a genuine authorised signer for the operation.
    Unauthorized,
    /// Nothing is stored where the operation looked for its record.
    NotFound,
}

/// Whether a call did what the outcome of its request prescribes: where the
/// request is granted the call succeeds and leaves the state that the outcome
/// names, and where it is refused the call returns that refusal and leaves
/// the state as it was.
pub open spec fn follows<S, T>(
    outcome: Result<S, StoreError>,
    result: Result<T, StoreError>,
    before: S,
    after: S,
) -> bool {
    match outcome {
        Ok(next) => result.is_ok() && after == next,
        Err(refusal) => result == Err::<T, StoreError>(refusal) && after == before,
    }
}

impl StoreError {
    /// The sentence that `message` gives for each refusal.
    pub open spec fn message_text(self) -> Seq<char> {
        match self {
            StoreError::AlreadyExists => "The counter is already initialized."@,
            StoreError::AllocationFailed => "No free address could be allocated for the shipment."@,
            StoreError::FundingInsufficient => "The payer cannot cover the cost of allocation."@,
            StoreError::NotValidated => "Shipment must be validated before approval."@,
            StoreError::AlreadyValidated => "Shipment is already validated."@,
            StoreError::AlreadyApproved => "Shipment is already approved."@,
            StoreError::Unauthorized => "The caller is not an authorized signer."@,
            StoreError::NotFound => "No record is stored at the address."@,
        }
    }

    /// A sentence for the refusal, fit for a log line.
    pub fn message(&self) -> (text: &'static str)
        ensures
            text@ == self.message_text(),
    {
        match self {
            StoreError::AlreadyExists => "The counter is already initialized.",
            StoreError::AllocationFailed => "No free address could be allocated for the shipment.",
            StoreError::FundingInsufficient => "The payer cannot cover the cost of allocation.",
            StoreError::NotValidated => "Shipment must be validated before approval.",
            StoreError::AlreadyValidated => "Shipment is already validated.",
            StoreError::AlreadyApproved => "Shipment is already approved.",
            StoreError::Unauthorized => "The caller is not an authorized signer.",
            StoreError::NotFound => "No record is stored at the address.",
        }
    }
}

} // verus!

use vstd::prelude::*;

verus! {

/// A party known to the store by its public key.
#[derive(Clone, Copy, Debug, PartialEq, Eq, Hash)]
pub struct Identity {
    pub bytes: [u8; 32],
}

/// What the outside collaborators reported about the party behind a call:
/// the identity verifier answers `signer`, the funding provider `funded`.
/// The store asks only yes or no; it holds no key material and no balances.
/// A policy by role belongs with the verifier that fills in `signer`.
#[derive(Clone, Copy, Debug, PartialEq, Eq)]
pub struct Authority {
    /// The claimed identity.
    pub identity: Identity,
    /// Whether the verifier found it a genuine authorised signer for this call.
    pub signer: bool,
    /// Whether the provider reserved the storage that this call may allocate.
    pub funded: bool,
}

impl Identity {
    /// The identity with the given key bytes.
    pub fn new(bytes: [u8; 32]) -> (id: Identity)
        ensures
            id.bytes == bytes,
    {
        Identity { bytes }
    }
}

impl Authority {
    /// A party that signed and whose allocations are funded.
    pub fn payer(identity: Identity) -> (a: Authority)
        ensures
            a == (Authority { identity, signer: true, funded: true }),
    {
        Authority { identity, signer: true, funded: true }
    }

    /// A party that signed but funds nothing.
    pub fn signed(identity: Identity) -> (a: Authority)
        ensures
            a == (Authority { identity, signer: true, funded: false }),
    {
        Authority { identity, signer: true, funded: false }
    }

    /// A party that is merely named: it neither signed nor funds anything.
    pub fn unsigned(identity: Identity) -> (a: Authority)
        ensures
            a == (Authority { identity, signer: false, funded: false }),
    {
        Authority { identity, signer: false, funded: false }
    }
}

} // verus!

use vstd::prelude::*;
use vstd::bytes::{spec_u64_from_le_bytes, spec_u64_to_le_bytes, u64_from_le_bytes, u64_to_le_bytes};
use vstd::slice::slice_to_vec;

verus! {

/// The mathematical content of an address: the namespace tag and the seed it
/// was derived from, kept apart. Two addresses are the same address exactly
/// when both parts agree.
pub ghost struct AddressView {
    pub namespace: Seq<u8>,
    pub seed: Seq<u8>,
}

/// The address that `derive` gives for a namespace tag and a seed.
pub open spec fn derived(namespace: Seq<u8>, seed: Seq<u8>) -> AddressView {
    AddressView { namespace, seed }
}

/// The namespace tag of the singleton counter: the ASCII bytes of `counter`.
pub open spec fn counter_tag() -> Seq<u8> {
    seq![99u8, 111u8, 117u8, 110u8, 116u8, 101u8, 114u8]
}

/// The namespace tag of the shipments: the ASCII bytes of `shipment`.
pub open spec fn shipment_tag() -> Seq<u8> {
    seq![115u8, 104u8, 105u8, 112u8, 109u8, 101u8, 110u8, 116u8]
}

/// Where the singleton counter lives: its tag with no seed.
pub open spec fn counter_address() -> AddressView {
    derived(counter_tag(), Seq::empty())
}

/// Where the shipment minted at counter value `sequence` lives: the shipment
/// tag with the value's eight little-endian bytes as seed.
pub open spec fn shipment_address(sequence: u64) -> AddressView {
    derived(shipment_tag(), spec_u64_to_le_bytes(sequence))
}

/// The counter value that an address was minted from, if it is a shipment's.
pub open spec fn sequence_of(address: AddressView) -> Option<u64> {
    if address.namespace == shipment_tag() && address.seed.len() == 8 {
        Some(spec_u64_from_le_bytes(address.seed))
    } else {
        None
    }
}

/// The order of the shipments' addresses: by the counter value that each was
/// minted from. Other addresses stand in no order.
pub open spec fn precedes(earlier: AddressView, later: AddressView) -> bool {
    &&& sequence_of(earlier).is_some()
    &&& sequence_of(later).is_some()
    &&& sequence_of(earlier).unwrap() < sequence_of(later).unwrap()
}

/// A storage location, computed from a namespace tag and a seed and never
/// chosen freely.
#[derive(Debug, PartialEq, Eq, Hash)]
pub struct Address {
    namespace: Vec<u8>,
    seed: Vec<u8>,
}

impl View for Address {
    type V = AddressView;

    closed spec fn view(&self) -> AddressView {
        AddressView { namespace: self.namespace@, seed: self.seed@ }
    }
}

impl Clone for Address {
    fn clone(&self) -> (copy: Address)
        ensures
            copy@ == self@,
    {
        Address { namespace: self.namespace.clone(), seed: self.seed.clone() }
    }
}

/// Computes the address for a namespace tag and a seed.
pub fn derive(namespace_tag: &[u8], seed: &[u8]) -> (address: Address)
    ensures
        address@ == derived(namespace_tag@, seed@),
{
    Address { namespace: slice_to_vec(namespace_tag), seed: slice_to_vec(seed) }
}

impl Address {
    /// The address of the singleton counter.
    pub fn counter() -> (address: Address)
        ensures
            address@ == counter_address(),
    {
        let namespace: Vec<u8> = vec![99u8, 111u8, 117u8, 110u8, 116u8, 101u8, 114u8];
        let address = Address { namespace, seed: Vec::new() };
        assert(address@.namespace =~= counter_tag());
        assert(address@.seed =~= Seq::<u8>::empty());
        address
    }

    /// The address of the shipment minted at counter value `sequence`.
    pub fn shipment(sequence: u64) -> (address: Address)
        ensures
            address@ == shipment_address(sequence),
    {
        let namespace: Vec<u8> = vec![115u8, 104u8, 105u8, 112u8, 109u8, 101u8, 110u8, 116u8];
        let address = Address { namespace, seed: u64_to_le_bytes(sequence) };
        assert(address@.namespace =~= shipment_tag());
        address
    }

    /// The counter value that this address was minted from, if it is a
    /// shipment's address.
    pub fn sequence(&self) -> (sequence: Option<u64>)
        ensures
            sequence == sequence_of(self@),
    {
        if self.seed.len() == 8 && is_shipment_tag(self.namespace.as_slice()) {
            Some(u64_from_le_bytes(self.seed.as_slice()))
        } else {
            None
        }
    }

    /// The namespace tag that the address was derived from.
    pub fn namespace_tag(&self) -> (tag: &[u8])
        ensures
            tag@ == self@.namespace,
    {
        self.namespace.as_slice()
    }

    /// The seed that the address was derived from.
    pub fn seed(&self) -> (seed: &[u8])
        ensures
            seed@ == self@.seed,
    {
        self.seed.as_slice()
    }

    /// Whether this is a shipment's address minted before the other one.
    pub fn precedes(&self, other: &Address) -> (before: bool)
        ensures
            before == precedes(self@, other@),
    {
        match (self.sequence(), other.sequence()) {
            (Some(earlier), Some(later)) => earlier < later,
            _ => false,
        }
    }

    /// Whether two addresses name the same location.
    pub fn same(&self, other: &Address) -> (same: bool)
        ensures
            same == (self@ == other@),
    {
        let same = bytes_equal(self.namespace.as_slice(), other.namespace.as_slice())
            && bytes_equal(self.seed.as_slice(), other.seed.as_slice());
        same
    }
}

/// Whether two byte strings are equal.
fn bytes_equal(left: &[u8], right: &[u8]) -> (equal: bool)
    ensures
        equal == (left@ == right@),
{
    if left.len() != right.len() {
        return false;
    }
    let mut i: usize = 0;
    while i < left.len()
        invariant
            left@.len() == right@.len(),
            i <= left@.len(),
            forall|j: int| 0 <= j < i ==> left@[j] == right@[j],
        decreases left@.len() - i,
    {
        if left[i] != right[i] {
            return false;
        }
        i += 1;
    }
    assert(left@ =~= right@);
    true
}

/// Whether a byte string is the namespace tag of the shipments.
fn is_shipment_tag(tag: &[u8]) -> (is: bool)
    ensures
        is == (tag@ == shipment_tag()),
{
    let expected: [u8; 8] = [115u8, 104u8, 105u8, 112u8, 109u8, 101u8, 110u8, 116u8];
    assert(expected@ =~= shipment_tag());
    bytes_equal(tag, expected.as_slice())
}

/// Distinct pairs of tag and seed never share an address.
pub proof fn lemma_derive_injective(
    namespace_a: Seq<u8>,
    seed_a: Seq<u8>,
    namespace_b: Seq<u8>,
    seed_b: Seq<u8>,
)
    ensures
        derived(namespace_a, seed_a) == derived(namespace_b, seed_b) <==> (namespace_a
            == namespace_b && seed_a == seed_b),
{
}

/// A shipment's address yields the counter value it was minted from, so
/// shipments minted from different counter values live at different addresses.
pub proof fn lemma_sequence_of_shipment(sequence: u64)
    ensures
        sequence_of(shipment_address(sequence)) == Some(sequence),
        forall|other: u64|
            shipment_address(other) == shipment_address(sequence) ==> other == sequence,
{
    vstd::bytes::lemma_auto_spec_u64_to_from_le_bytes();
    assert forall|other: u64|
        shipment_address(other) == shipment_address(sequence) implies other == sequence by {
        assert(spec_u64_from_le_bytes(spec_u64_to_le_bytes(other)) == other);
        assert(spec_u64_from_le_bytes(spec_u64_to_le_bytes(sequence)) == sequence);
    }
}

/// Shipment addresses stand in the order of the counter values they were
/// minted from, and an address that precedes another is a different address.
pub proof fn lemma_shipment_order(earlier: u64, later: u64)
    ensures
        precedes(shipment_address(earlier), shipment_address(later)) <==> earlier < later,
        earlier != later ==> shipment_address(earlier) != shipment_address(later),
        forall|a: AddressView, b: AddressView| precedes(a, b) ==> a != b,
{
    lemma_sequence_of_shipment(earlier);
    lemma_sequence_of_shipment(later);
}

/// An address with a sequence number is the shipment address of that number:
/// the location can be recomputed from the number alone.
pub proof fn lemma_shipment_of_sequence(address: AddressView)
    requires
        sequence_of(address).is_some(),
    ensures
        address == shipment_address(sequence_of(address).unwrap()),
{
    vstd::bytes::lemma_auto_spec_u64_to_from_le_bytes();
    assert(spec_u64_to_le_bytes(spec_u64_from_le_bytes(address.seed)) == address.seed);
}

/// The counter's address is no shipment's address.
pub proof fn lemma_counter_apart(sequence: u64)
    ensures
        counter_address() != shipment_address(sequence),
        sequence_of(counter_address()).is_none(),
{
    assert(counter_tag().len() == 7);
    assert(shipment_tag().len() == 8);
}

} // verus!

use vstd::prelude::*;
use crate::address::{
    counter_address, lemma_sequence_of_shipment, lemma_shipment_of_sequence, sequence_of,
    shipment_address, Address, AddressView,
};
use crate::error::{follows, StoreError};
use crate::identity::Authority;
use crate::laws::lemma_create_granted;
use crate::record::{CounterRecord, ShipmentRecord, ShipmentState};

verus! {

/// The mathematical content of a store: the count of its singleton counter,
/// if that was initialised, and the shipment stored at each occupied address.
pub ghost struct StoreView {
    pub counter: Option<u64>,
    pub shipments: Map<AddressView, ShipmentState>,
}

impl StoreView {
    /// A store that holds nothing.
    pub open spec fn empty() -> StoreView {
        StoreView { counter: None, shipments: Map::empty() }
    }

    /// Correct sequencing: every shipment sits at an address minted from a
    /// counter value that the counter has since passed, and no shipment is
    /// approved without being validated.
    pub open spec fn valid(self) -> bool {
        forall|address: AddressView| #[trigger]
            self.shipments.dom().contains(address) ==> {
                &&& self.counter.is_some()
                &&& sequence_of(address).is_some()
                &&& sequence_of(address).unwrap() < self.counter.unwrap()
                &&& self.shipments[address].well_formed()
            }
    }

    /// Whether a record, the counter or a shipment, is stored at an address.
    pub open spec fn occupied(self, address: AddressView) -> bool {
        (address == counter_address() && self.counter.is_some())
            || self.shipments.dom().contains(address)
    }

    /// The outcome of a request to initialise the counter: the next store, or
    /// the refusal. An existing counter is refused whoever asks.
    pub open spec fn init_counter(self, initial_count: u64, authority: Authority) -> Result<
        StoreView,
        StoreError,
    > {
        if self.counter.is_some() {
            Err(StoreError::AlreadyExists)
        } else if !authority.signer {
            Err(StoreError::Unauthorized)
        } else if !authority.funded {
            Err(StoreError::FundingInsufficient)
        } else {
            Ok(StoreView { counter: Some(initial_count), ..self })
        }
    }

    /// The outcome of a request to create a shipment: the next store, or the
    /// refusal. On success the shipment lives at the address minted from the
    /// count before the call, and the count has advanced by one.
    pub open spec fn create_shipment(self, creator: Authority) -> Result<StoreView, StoreError> {
        match self.counter {
            None => Err(StoreError::NotFound),
            Some(count) => {
                if self.occupied(shipment_address(count)) || count == u64::MAX {
                    Err(StoreError::AllocationFailed)
                } else if !creator.signer {
                    Err(StoreError::Unauthorized)
                } else if !creator.funded {
                    Err(StoreError::FundingInsufficient)
                } else {
                    Ok(
                        StoreView {
                            counter: Some((count + 1) as u64),
                            shipments: self.shipments.insert(
                                shipment_address(count),
                                ShipmentState::fresh(creator.identity),
                            ),
                        },
                    )
                }
            },
        }
    }

    /// The outcome of a request to validate the shipment at an address.
    pub open spec fn validate(self, address: AddressView, validator: Authority) -> Result<
        StoreView,
        StoreError,
    > {
        if !self.shipments.dom().contains(address) {
            Err(StoreError::NotFound)
        } else {
            match self.shipments[address].validate(validator) {
                Ok(next) => Ok(StoreView { shipments: self.shipments.insert(address, next), ..self }),
                Err(e) => Err(e),
            }
        }
    }

    /// The outcome of a request to approve the shipment at an address.
    pub open spec fn approve(self, address: AddressView, approver: Authority) -> Result<
        StoreView,
        StoreError,
    > {
        if !self.shipments.dom().contains(address) {
            Err(StoreError::NotFound)
        } else {
            match self.shipments[address].approve(approver) {
                Ok(next) => Ok(StoreView { shipments: self.shipments.insert(address, next), ..self }),
                Err(e) => Err(e),
            }
        }
    }
}

/// The location of the singleton counter, handed out when it is initialised.
#[derive(Clone, Copy, Debug, PartialEq, Eq)]
pub struct CounterHandle {}

/// The location of one shipment, handed out when it is created.
#[derive(Clone, Copy, Debug, PartialEq, Eq)]
pub struct ShipmentHandle {
    sequence: u64,
}

impl CounterHandle {
    /// The address that the handle stands for.
    pub fn address(&self) -> (address: Address)
        ensures
            address@ == counter_address(),
    {
        Address::counter()
    }
}

impl View for ShipmentHandle {
    type V = AddressView;

    /// The address that the handle stands for.
    closed spec fn view(&self) -> AddressView {
        shipment_address(self.sequence)
    }
}

impl ShipmentHandle {
    /// The counter value that the shipment was minted from.
    pub closed spec fn spec_sequence(&self) -> u64 {
        self.sequence
    }

    /// A handle stands for the address minted from its counter value.
    pub proof fn lemma_address(self)
        ensures
            self@ == shipment_address(self.sequence()),
            sequence_of(self@) == Some(self.sequence()),
    {
        lemma_sequence_of_shipment(self.sequence);
    }

    /// The counter value that the shipment was minted from.
    #[verifier::when_used_as_spec(spec_sequence)]
    pub fn sequence(&self) -> (sequence: u64)
        ensures
            sequence == self.sequence(),
            self@ == shipment_address(sequence),
    {
        self.sequence
    }

    /// The address that the handle stands for.
    pub fn address(&self) -> (address: Address)
        ensures
            address@ == self@,
            address@ == shipment_address(self.sequence()),
    {
        Address::shipment(self.sequence)
    }
}

/// The record store: one counter at most, and the shipments minted from it.
/// Whoever holds the store exclusively is the only writer, so each operation
/// is one atomic step: it either takes full effect or changes nothing.
#[derive(Debug)]
pub struct Store {
    counter: Option<CounterRecord>,
    first: u64,
    shipments: Vec<ShipmentRecord>,
}

impl View for Store {
    type V = StoreView;

    closed spec fn view(&self) -> StoreView {
        StoreView {
            counter: match self.counter {
                Some(record) => Some(record.count),
                None => None,
            },
            shipments: Map::new(
                |address: AddressView| self.holds(address),
                |address: AddressView| self.shipments@[sequence_of(address).unwrap() - self.first]@,
            ),
        }
    }
}

impl Store {
    /// Whether one of the stored shipments lives at an address.
    spec fn holds(&self, address: AddressView) -> bool {
        &&& sequence_of(address).is_some()
        &&& self.first <= sequence_of(address).unwrap()
        &&& sequence_of(address).unwrap() < self.first + self.shipments@.len()
    }

    /// The representation is sound: the shipments are those minted since the
    /// counter was initialised, in order, and each is well formed.
    pub closed spec fn wf(&self) -> bool {
        &&& match self.counter {
            Some(record) => self.first + self.shipments@.len() == record.count,
            None => self.shipments@.len() == 0,
        }
        &&& forall|i: int|
            0 <= i < self.shipments@.len() ==> (#[trigger] self.shipments@[i])@.well_formed()
    }

    /// A sound store is correctly sequenced.
    pub proof fn lemma_valid(self)
        requires
            self.wf(),
        ensures
            self@.valid(),
    {
    }

    /// A store that holds nothing.
    pub fn new() -> (store: Store)
        ensures
            store.wf(),
            store@ == StoreView::empty(),
    {
        let store = Store { counter: None, first: 0, shipments: Vec::new() };
        assert(store@.shipments =~= Map::empty());
        store
    }

    /// Creates the singleton counter with the given count. A second call is
    /// refused whoever asks, and the count is not reset.
    pub fn init_counter(&mut self, initial_count: u64, authority: &Authority) -> (r: Result<
        CounterHandle,
        StoreError,
    >)
        requires
            old(self).wf(),
        ensures
            final(self).wf(),
            follows(
                old(self)@.init_counter(initial_count, *authority),
                r,
                old(self)@,
                final(self)@,
            ),
            old(self)@.counter.is_some() ==> r == Err::<CounterHandle, StoreError>(
                StoreError::AlreadyExists,
            ),
            r.is_err() ==> final(self)@ == old(self)@,
    {
        if self.counter.is_some() {
            return Err(StoreError::AlreadyExists);
        }
        if !authority.signer {
            return Err(StoreError::Unauthorized);
        }
        if !authority.funded {
            return Err(StoreError::FundingInsufficient);
        }
        self.counter = Some(CounterRecord { count: initial_count });
        self.first = initial_count;
        assert(self@.shipments =~= old(self)@.shipments);
        Ok(CounterHandle {  })
    }

    /// Creates a shipment for `creator` at the address minted from the current
    /// count, then advances the count by one. The two happen together or not
    /// at all: a refusal leaves counter and shipments untouched.
    pub fn create_shipment(&mut self, creator: &Authority) -> (r: Result<
        ShipmentHandle,
        StoreError,
    >)
        requires
            old(self).wf(),
        ensures
            final(self).wf(),
            follows(old(self)@.create_shipment(*creator), r, old(self)@, final(self)@),
            r.is_ok() ==> r.unwrap().sequence() == old(self)@.counter.unwrap(),
            r.is_ok() ==> r.unwrap()@ == shipment_address(old(self)@.counter.unwrap()),
            r.is_ok() <==> (old(self)@.counter.is_some() && old(self)@.counter.unwrap() < u64::MAX
                && creator.signer && creator.funded),
            r.is_err() ==> final(self)@ == old(self)@,
    {
        proof {
            self.lemma_valid();
            lemma_create_granted(self@, *creator);
        }
        let count = match self.counter {
            Some(record) => record.count,
            None => {
                return Err(StoreError::NotFound);
            },
        };
        let address = Address::shipment(count);
        if self.occupied(&address) || count == u64::MAX {
            return Err(StoreError::AllocationFailed);
        }
        if !creator.signer {
            return Err(StoreError::Unauthorized);
        }
        if !creator.funded {
            return Err(StoreError::FundingInsufficient);
        }
        self.shipments.push(ShipmentRecord::new(creator.identity));
        self.counter = Some(CounterRecord { count: count + 1 });
        proof {
            let minted = shipment_address(count);
            let expected = old(self)@.shipments.insert(
                minted,
                ShipmentState::fresh(creator.identity),
            );
            lemma_sequence_of_shipment(count);
            assert forall|address: AddressView|
                self@.shipments.dom().contains(address) == expected.dom().contains(address) by {
                if sequence_of(address).is_some() {
                    lemma_shipment_of_sequence(address);
                }
            }
            assert forall|address: AddressView| #[trigger]
                expected.dom().contains(address) implies self@.shipments[address]
                == expected[address] by {
                let index = sequence_of(address).unwrap() - self.first;
                if address != minted {
                    assert(self.shipments@[index] == old(self).shipments@[index]);
                }
            }
            assert(self@.shipments.dom() =~= expected.dom());
            assert(self@.shipments =~= expected);
        }
        Ok(ShipmentHandle { sequence: count })
    }

    /// Reads the shipment stored at an address; `None` where none is stored.
    pub fn get(&self, address: &Address) -> (record: Option<ShipmentRecord>)
        requires
            self.wf(),
        ensures
            record.is_some() == self@.shipments.dom().contains(address@),
            record.is_some() ==> record.unwrap()@ == self@.shipments[address@],
    {
        match self.index_of(address) {
            Some(index) => Some(self.shipments[index]),
            None => None,
        }
    }

    /// Validates the shipment behind a handle. A shipment that is validated
    /// already is refused whoever asks, and nothing is written.
    pub fn validate(&mut self, handle: &ShipmentHandle, validator: &Authority) -> (r: Result<
        (),
        StoreError,
    >)
        requires
            old(self).wf(),
        ensures
            final(self).wf(),
            follows(old(self)@.validate(handle@, *validator), r, old(self)@, final(self)@),
            old(self)@.shipments.dom().contains(handle@) && old(self)@.shipments[handle@].validated
                ==> r == Err::<(), StoreError>(StoreError::AlreadyValidated),
            r.is_err() ==> final(self)@ == old(self)@,
    {
        let index = match self.position(handle) {
            Some(index) => index,
            None => {
                return Err(StoreError::NotFound);
            },
        };
        let mut record = self.shipments[index];
        match record.validate(validator) {
            Ok(()) => {
                self.shipments.set(index, record);
                proof {
                    lemma_sequence_of_shipment(handle.sequence);
                    old(self).lemma_replaced(*self, handle@, record@);
                }
                Ok(())
            },
            Err(e) => Err(e),
        }
    }

    /// Approves the shipment behind a handle. A shipment that is not
    /// validated is refused whoever asks, and nothing is written.
    pub fn approve(&mut self, handle: &ShipmentHandle, approver: &Authority) -> (r: Result<
        (),
        StoreError,
    >)
        requires
            old(self).wf(),
        ensures
            final(self).wf(),
            follows(old(self)@.approve(handle@, *approver), r, old(self)@, final(self)@),
            old(self)@.shipments.dom().contains(handle@) && !old(self)@.shipments[handle@].validated
                ==> r == Err::<(), StoreError>(StoreError::NotValidated),
            r.is_err() ==> final(self)@ == old(self)@,
    {
        let index = match self.position(handle) {
            Some(index) => index,
            None => {
                return Err(StoreError::NotFound);
            },
        };
        let mut record = self.shipments[index];
        match record.approve(approver) {
            Ok(()) => {
                self.shipments.set(index, record);
                proof {
                    lemma_sequence_of_shipment(handle.sequence);
                    old(self).lemma_replaced(*self, handle@, record@);
                }
                Ok(())
            },
            Err(e) => Err(e),
        }
    }

    /// Reads the singleton counter; `None` before it is initialised.
    pub fn counter(&self) -> (record: Option<CounterRecord>)
        ensures
            record.is_some() == self@.counter.is_some(),
            record.is_some() ==> record.unwrap().count == self@.counter.unwrap(),
    {
        self.counter
    }

    /// Whether a record, the counter or a shipment, is stored at an address.
    pub fn occupied(&self, address: &Address) -> (occupied: bool)
        requires
            self.wf(),
        ensures
            occupied == self@.occupied(address@),
    {
        let at_counter = self.counter.is_some() && address.same(&Address::counter());
        at_counter || self.index_of(address).is_some()
    }

    /// The handle of the shipment stored at an address, so that a location
    /// recomputed from its sequence number can be worked on again; `None`
    /// where no shipment is stored.
    pub fn locate(&self, address: &Address) -> (handle: Option<ShipmentHandle>)
        requires
            self.wf(),
        ensures
            handle.is_some() == self@.shipments.dom().contains(address@),
            handle.is_some() ==> handle.unwrap()@ == address@,
    {
        match (self.index_of(address), address.sequence()) {
            (Some(_), Some(sequence)) => {
                proof {
                    lemma_shipment_of_sequence(address@);
                }
                Some(ShipmentHandle { sequence })
            },
            _ => None,
        }
    }

    /// The position of the shipment behind a handle, if this store holds it.
    fn position(&self, handle: &ShipmentHandle) -> (index: Option<usize>)
        requires
            self.wf(),
        ensures
            index.is_some() == self@.shipments.dom().contains(handle@),
            index.is_some() ==> index.unwrap() == handle.sequence - self.first,
            index.is_some() ==> index.unwrap() < self.shipments@.len(),
            index.is_some() ==> self.shipments@[index.unwrap() as int]@ == self@.shipments[handle@],
    {
        proof {
            lemma_sequence_of_shipment(handle.sequence);
        }
        if handle.sequence >= self.first && handle.sequence - self.first
            < self.shipments.len() as u64 {
            Some((handle.sequence - self.first) as usize)
        } else {
            None
        }
    }

    /// The position of the shipment stored at an address, if there is one.
    fn index_of(&self, address: &Address) -> (index: Option<usize>)
        requires
            self.wf(),
        ensures
            index.is_some() == self.holds(address@),
            index.is_some() ==> index.unwrap() == sequence_of(address@).unwrap() - self.first,
    {
        match address.sequence() {
            Some(sequence) => {
                if sequence >= self.first && sequence - self.first < self.shipments.len() as u64 {
                    Some((sequence - self.first) as usize)
                } else {
                    None
                }
            },
            None => None,
        }
    }

    /// Replacing one stored shipment replaces it in the view and nowhere else.
    proof fn lemma_replaced(self, after: Store, address: AddressView, state: ShipmentState)
        requires
            self.holds(address),
            after.counter == self.counter,
            after.first == self.first,
            after.shipments@ =~= self.shipments@.update(
                sequence_of(address).unwrap() - self.first,
                after.shipments@[sequence_of(address).unwrap() - self.first],
            ),
            after.shipments@[sequence_of(address).unwrap() - self.first]@ == state,
        ensures
            after@ == (StoreView { shipments: self@.shipments.insert(address, state), ..self@ }),
    {
        let expected = self@.shipments.insert(address, state);
        assert forall|other: AddressView| #[trigger]
            expected.dom().contains(other) implies after@.shipments[other] == expected[other] by {
            if other != address {
                lemma_shipment_of_sequence(other);
                lemma_shipment_of_sequence(address);
            }
        }
        assert(after@.shipments.dom() =~= expected.dom());
        assert(after@.shipments =~= expected);
    }
}

} // verus!

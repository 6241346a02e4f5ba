use vstd::prelude::*;
use crate::address::{
    lemma_counter_apart, lemma_sequence_of_shipment, precedes, sequence_of, shipment_address,
    AddressView,
};
use crate::error::StoreError;
use crate::identity::{Authority, Identity};
use crate::record::{ShipmentState, Stage};
use crate::store::StoreView;

verus! {

/// The store after the first `calls` requests of a run of creation requests,
/// one request per entry of `creators`, served one after the other. A refused
/// request leaves the store as it found it.
pub open spec fn after_creates(start: StoreView, creators: Seq<Authority>, calls: nat) -> StoreView
    decreases calls,
{
    if calls == 0 {
        start
    } else {
        let before = after_creates(start, creators, (calls - 1) as nat);
        match before.create_shipment(creators[calls - 1]) {
            Ok(next) => next,
            Err(_) => before,
        }
    }
}

/// The address that request number `call` of such a run hands out, if the
/// request is granted.
pub open spec fn created_by(start: StoreView, creators: Seq<Authority>, call: nat) -> Option<
    AddressView,
> {
    let before = after_creates(start, creators, call);
    if before.create_shipment(creators[call as int]).is_ok() {
        Some(shipment_address(before.counter.unwrap()))
    } else {
        None
    }
}

/// How many of the first `calls` requests of such a run are granted.
pub open spec fn granted(start: StoreView, creators: Seq<Authority>, calls: nat) -> nat
    decreases calls,
{
    if calls == 0 {
        0
    } else {
        granted(start, creators, (calls - 1) as nat) + if created_by(
            start,
            creators,
            (calls - 1) as nat,
        ).is_some() {
            1nat
        } else {
            0nat
        }
    }
}

/// Along a run of creation requests the count is the count at the start plus
/// the number of requests granted so far.
pub proof fn lemma_run_count(start: StoreView, creators: Seq<Authority>, calls: nat)
    requires
        start.counter.is_some(),
        calls <= creators.len(),
    ensures
        after_creates(start, creators, calls).counter.is_some(),
        after_creates(start, creators, calls).counter.unwrap() == start.counter.unwrap() + granted(
            start,
            creators,
            calls,
        ),
    decreases calls,
{
    if calls > 0 {
        lemma_run_count(start, creators, (calls - 1) as nat);
    }
}

/// Along a run of creation requests the count never falls, and it stands
/// above the count that any granted request was served at.
pub proof fn lemma_run_count_rises(
    start: StoreView,
    creators: Seq<Authority>,
    earlier: nat,
    later: nat,
)
    requires
        start.counter.is_some(),
        earlier <= later <= creators.len(),
    ensures
        after_creates(start, creators, earlier).counter.is_some(),
        after_creates(start, creators, later).counter.is_some(),
        after_creates(start, creators, earlier).counter.unwrap() <= after_creates(
            start,
            creators,
            later,
        ).counter.unwrap(),
        earlier < later && created_by(start, creators, earlier).is_some() ==> after_creates(
            start,
            creators,
            earlier,
        ).counter.unwrap() < after_creates(start, creators, later).counter.unwrap(),
    decreases later,
{
    lemma_run_count(start, creators, earlier);
    lemma_run_count(start, creators, later);
    if earlier < later {
        lemma_run_count_rises(start, creators, earlier, (later - 1) as nat);
        lemma_run_count(start, creators, (later - 1) as nat);
        if earlier == later - 1 {
            assert(after_creates(start, creators, earlier) == after_creates(
                start,
                creators,
                (later - 1) as nat,
            ));
        }
    }
}

/// For every run of creation requests: each address handed out is the one
/// minted from the count observed immediately before its request, and the
/// addresses handed out rise strictly with the order of the requests, so no
/// two requests are handed the same address.
pub proof fn lemma_created_in_sequence(
    start: StoreView,
    creators: Seq<Authority>,
    earlier: nat,
    later: nat,
)
    requires
        earlier < later < creators.len(),
        created_by(start, creators, earlier).is_some(),
        created_by(start, creators, later).is_some(),
    ensures
        sequence_of(created_by(start, creators, earlier).unwrap()) == after_creates(
            start,
            creators,
            earlier,
        ).counter,
        sequence_of(created_by(start, creators, later).unwrap()) == after_creates(
            start,
            creators,
            later,
        ).counter,
        precedes(
            created_by(start, creators, earlier).unwrap(),
            created_by(start, creators, later).unwrap(),
        ),
        created_by(start, creators, earlier) != created_by(start, creators, later),
{
    let before_earlier = after_creates(start, creators, earlier);
    let before_later = after_creates(start, creators, later);
    lemma_sequence_of_shipment(before_earlier.counter.unwrap());
    lemma_sequence_of_shipment(before_later.counter.unwrap());
    lemma_run_started(start, creators, earlier);
    lemma_run_count_rises(start, creators, earlier, later);
}

/// A run in which any request is granted started from an initialised counter.
proof fn lemma_run_started(start: StoreView, creators: Seq<Authority>, call: nat)
    requires
        created_by(start, creators, call).is_some(),
    ensures
        start.counter.is_some(),
    decreases call,
{
    if call > 0 && start.counter.is_none() {
        lemma_run_unstarted(start, creators, call);
    }
}

/// Without a counter no creation request changes the store.
proof fn lemma_run_unstarted(start: StoreView, creators: Seq<Authority>, calls: nat)
    requires
        start.counter.is_none(),
    ensures
        after_creates(start, creators, calls) == start,
    decreases calls,
{
    if calls > 0 {
        lemma_run_unstarted(start, creators, (calls - 1) as nat);
    }
}

/// Callers that are serialised on one counter: when each of them signed and
/// is funded and the counter can advance once for each, every request is
/// granted, request number `k` is handed the address minted from the count at
/// the start plus `k`, the addresses are pairwise distinct, and the count ends
/// at the count at the start plus the number of callers.
pub proof fn lemma_all_created(start: StoreView, creators: Seq<Authority>, calls: nat)
    requires
        start.valid(),
        start.counter.is_some(),
        start.counter.unwrap() + creators.len() <= u64::MAX,
        forall|i: int| 0 <= i < creators.len() ==> (#[trigger] creators[i]).signer && creators[i].funded,
        calls <= creators.len(),
    ensures
        after_creates(start, creators, calls).valid(),
        after_creates(start, creators, calls).counter == Some(
            (start.counter.unwrap() + calls) as u64,
        ),
        forall|k: nat|
            k < calls ==> #[trigger] created_by(start, creators, k) == Some(
                shipment_address((start.counter.unwrap() + k) as u64),
            ),
        forall|i: nat, j: nat|
            i < j < calls ==> #[trigger] created_by(start, creators, i) != #[trigger] created_by(
                start,
                creators,
                j,
            ),
    decreases calls,
{
    if calls > 0 {
        let previous = (calls - 1) as nat;
        lemma_all_created(start, creators, previous);
        let before = after_creates(start, creators, previous);
        let creator = creators[previous as int];
        lemma_create_granted(before, creator);
        lemma_valid_preserved(before, 0, shipment_address(0), creator);
        assert forall|i: nat, j: nat| i < j < calls implies #[trigger] created_by(
            start,
            creators,
            i,
        ) != #[trigger] created_by(start, creators, j) by {
            lemma_sequence_of_shipment((start.counter.unwrap() + i) as u64);
            lemma_sequence_of_shipment((start.counter.unwrap() + j) as u64);
        }
    }
}

/// Every operation keeps a correctly sequenced store correctly sequenced.
pub proof fn lemma_valid_preserved(
    store: StoreView,
    initial_count: u64,
    address: AddressView,
    authority: Authority,
)
    requires
        store.valid(),
    ensures
        StoreView::empty().valid(),
        store.init_counter(initial_count, authority).is_ok() ==> store.init_counter(
            initial_count,
            authority,
        ).unwrap().valid(),
        store.create_shipment(authority).is_ok() ==> store.create_shipment(
            authority,
        ).unwrap().valid(),
        store.validate(address, authority).is_ok() ==> store.validate(
            address,
            authority,
        ).unwrap().valid(),
        store.approve(address, authority).is_ok() ==> store.approve(
            address,
            authority,
        ).unwrap().valid(),
{
    if store.init_counter(initial_count, authority).is_ok() {
        let next = store.init_counter(initial_count, authority).unwrap();
        assert forall|a: AddressView| #[trigger] next.shipments.dom().contains(a) implies false by {
            assert(store.shipments.dom().contains(a));
        }
    }
    if store.create_shipment(authority).is_ok() {
        let next = store.create_shipment(authority).unwrap();
        let count = store.counter.unwrap();
        lemma_sequence_of_shipment(count);
        assert forall|a: AddressView| #[trigger] next.shipments.dom().contains(a) implies {
            &&& sequence_of(a).is_some()
            &&& sequence_of(a).unwrap() < next.counter.unwrap()
            &&& next.shipments[a].well_formed()
        } by {
            if a != shipment_address(count) {
                assert(store.shipments.dom().contains(a));
            }
        }
    }
    if store.validate(address, authority).is_ok() {
        let next = store.validate(address, authority).unwrap();
        assert forall|a: AddressView| #[trigger] next.shipments.dom().contains(a) implies {
            &&& sequence_of(a).is_some()
            &&& sequence_of(a).unwrap() < next.counter.unwrap()
            &&& next.shipments[a].well_formed()
        } by {
            assert(store.shipments.dom().contains(a));
        }
    }
    if store.approve(address, authority).is_ok() {
        let next = store.approve(address, authority).unwrap();
        assert forall|a: AddressView| #[trigger] next.shipments.dom().contains(a) implies {
            &&& sequence_of(a).is_some()
            &&& sequence_of(a).unwrap() < next.counter.unwrap()
            &&& next.shipments[a].well_formed()
        } by {
            assert(store.shipments.dom().contains(a));
        }
    }
}

/// In a correctly sequenced store the address minted from the current count
/// is free, so a creation request is granted exactly when the counter exists
/// and can advance and the creator signed and is funded.
pub proof fn lemma_create_granted(store: StoreView, creator: Authority)
    requires
        store.valid(),
    ensures
        store.counter.is_some() ==> !store.occupied(shipment_address(store.counter.unwrap())),
        store.create_shipment(creator).is_ok() <==> (store.counter.is_some()
            && store.counter.unwrap() < u64::MAX && creator.signer && creator.funded),
{
    if store.counter.is_some() {
        let count = store.counter.unwrap();
        lemma_sequence_of_shipment(count);
        lemma_counter_apart(count);
    }
}

/// The count never decreases: creation raises it by exactly one, and nothing
/// else changes it once it exists.
pub proof fn lemma_counter_moves(
    store: StoreView,
    initial_count: u64,
    address: AddressView,
    authority: Authority,
)
    ensures
        store.init_counter(initial_count, authority).is_ok() ==> store.counter.is_none()
            && store.init_counter(initial_count, authority).unwrap().counter == Some(
            initial_count,
        ),
        store.create_shipment(authority).is_ok() ==> store.counter.is_some()
            && store.create_shipment(authority).unwrap().counter.is_some()
            && store.create_shipment(authority).unwrap().counter.unwrap() == store.counter.unwrap()
            + 1,
        store.validate(address, authority).is_ok() ==> store.validate(
            address,
            authority,
        ).unwrap().counter == store.counter,
        store.approve(address, authority).is_ok() ==> store.approve(
            address,
            authority,
        ).unwrap().counter == store.counter,
{
}

/// Nothing is ever deleted: an operation leaves the counter in place once it
/// exists, and every shipment at the address where it was stored.
pub proof fn lemma_records_persist(
    store: StoreView,
    initial_count: u64,
    address: AddressView,
    authority: Authority,
    stored: AddressView,
)
    requires
        store.shipments.dom().contains(stored),
    ensures
        store.init_counter(initial_count, authority).is_ok() ==> store.init_counter(
            initial_count,
            authority,
        ).unwrap().shipments == store.shipments,
        store.create_shipment(authority).is_ok() ==> ({
            let next = store.create_shipment(authority).unwrap();
            next.shipments.dom().contains(stored) && next.shipments[stored]
                == store.shipments[stored]
        }),
        store.validate(address, authority).is_ok() ==> ({
            let next = store.validate(address, authority).unwrap();
            next.shipments.dom().contains(stored) && (stored != address ==> next.shipments[stored]
                == store.shipments[stored])
        }),
        store.approve(address, authority).is_ok() ==> ({
            let next = store.approve(address, authority).unwrap();
            next.shipments.dom().contains(stored) && (stored != address ==> next.shipments[stored]
                == store.shipments[stored])
        }),
{
}

/// A shipment moves one stage at a time and never backwards: validation
/// takes it from `Created` to `Validated`, approval from `Validated` to
/// `Approved`, and neither touches the creator.
pub proof fn lemma_lifecycle_order(state: ShipmentState, authority: Authority)
    requires
        state.well_formed(),
    ensures
        state.validate(authority).is_ok() ==> ({
            let next = state.validate(authority).unwrap();
            &&& state.stage() == Stage::Created
            &&& next.stage() == Stage::Validated
            &&& next.creator == state.creator
            &&& next.well_formed()
        }),
        state.approve(authority).is_ok() ==> ({
            let next = state.approve(authority).unwrap();
            &&& state.stage() == Stage::Validated
            &&& next.stage() == Stage::Approved
            &&& next.creator == state.creator
            &&& next.well_formed()
        }),
{
}

/// Approval of a shipment that is not validated is refused with
/// `NotValidated`, whatever else holds of the record or of the approver.
pub proof fn lemma_approve_needs_validation(state: ShipmentState, approver: Authority)
    requires
        !state.validated,
    ensures
        state.approve(approver) == Err::<ShipmentState, StoreError>(StoreError::NotValidated),
{
}

/// A fresh shipment that a genuine signer validates and a genuine signer then
/// approves ends up validated and approved.
pub proof fn lemma_validate_then_approve(
    creator: Identity,
    validator: Authority,
    approver: Authority,
)
    requires
        validator.signer,
        approver.signer,
    ensures
        ShipmentState::fresh(creator).validate(validator).is_ok(),
        ShipmentState::fresh(creator).validate(validator).unwrap().approve(approver)
            == Ok::<ShipmentState, StoreError>(
            ShipmentState { creator, validated: true, approved: true },
        ),
{
}

/// Once a validation is granted, any further validation of the same shipment
/// is refused with `AlreadyValidated`, whoever asks.
pub proof fn lemma_validate_twice(state: ShipmentState, first: Authority, second: Authority)
    requires
        state.validate(first).is_ok(),
    ensures
        state.validate(first).unwrap().validate(second) == Err::<ShipmentState, StoreError>(
            StoreError::AlreadyValidated,
        ),
{
}

/// Once an approval is granted, any further approval of the same shipment is
/// refused with `AlreadyApproved`, whoever asks.
pub proof fn lemma_approve_twice(state: ShipmentState, first: Authority, second: Authority)
    requires
        state.approve(first).is_ok(),
    ensures
        state.approve(first).unwrap().approve(second) == Err::<ShipmentState, StoreError>(
            StoreError::AlreadyApproved,
        ),
{
}

/// In the store too, approval of a shipment that is not validated is refused
/// with `NotValidated`, whoever asks.
pub proof fn lemma_store_approve_needs_validation(
    store: StoreView,
    address: AddressView,
    approver: Authority,
)
    requires
        store.shipments.dom().contains(address),
        !store.shipments[address].validated,
    ensures
        store.approve(address, approver) == Err::<StoreView, StoreError>(StoreError::NotValidated),
{
}

/// A shipment that was just created, then validated by a genuine signer and
/// approved by a genuine signer, is held by the store as validated and
/// approved, with its creator unchanged.
pub proof fn lemma_store_validate_then_approve(
    store: StoreView,
    creator: Authority,
    validator: Authority,
    approver: Authority,
)
    requires
        store.create_shipment(creator).is_ok(),
        validator.signer,
        approver.signer,
    ensures
        ({
            let address = shipment_address(store.counter.unwrap());
            let created = store.create_shipment(creator).unwrap();
            &&& created.shipments.dom().contains(address)
            &&& created.shipments[address] == ShipmentState::fresh(creator.identity)
            &&& created.validate(address, validator).is_ok()
            &&& created.validate(address, validator).unwrap().approve(address, approver).is_ok()
            &&& created.validate(address, validator).unwrap().approve(
                address,
                approver,
            ).unwrap().shipments[address] == (ShipmentState {
                creator: creator.identity,
                validated: true,
                approved: true,
            })
        }),
{
}

/// In the store too, once a validation is granted any further validation of
/// the same shipment is refused with `AlreadyValidated`, whoever asks.
pub proof fn lemma_store_validate_twice(
    store: StoreView,
    address: AddressView,
    first: Authority,
    second: Authority,
)
    requires
        store.validate(address, first).is_ok(),
    ensures
        store.validate(address, first).unwrap().validate(address, second) == Err::<
            StoreView,
            StoreError,
        >(StoreError::AlreadyValidated),
{
}

/// In the store too, once an approval is granted any further approval of the
/// same shipment is refused with `AlreadyApproved`, whoever asks: of two
/// callers that race for one approval, only the one served first succeeds.
pub proof fn lemma_store_approve_twice(
    store: StoreView,
    address: AddressView,
    first: Authority,
    second: Authority,
)
    requires
        store.approve(address, first).is_ok(),
    ensures
        store.approve(address, first).unwrap().approve(address, second) == Err::<
            StoreView,
            StoreError,
        >(StoreError::AlreadyApproved),
{
}

/// Once the counter is initialised, any further initialisation is refused
/// with `AlreadyExists`, whoever asks and whatever count is offered, so the
/// count is not reset.
pub proof fn lemma_init_twice(
    store: StoreView,
    first_count: u64,
    first: Authority,
    second_count: u64,
    second: Authority,
)
    requires
        store.init_counter(first_count, first).is_ok(),
    ensures
        store.init_counter(first_count, first).unwrap().init_counter(second_count, second) == Err::<
            StoreView,
            StoreError,
        >(StoreError::AlreadyExists),
{
}

} // verus!

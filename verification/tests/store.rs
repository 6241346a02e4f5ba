use shipment_store::{
    Address, Authority, CounterRecord, Identity, ShipmentHandle, ShipmentRecord, Stage, Store,
    StoreError,
};

fn alice() -> Identity {
    Identity::new([1; 32])
}

fn bob() -> Identity {
    Identity::new([2; 32])
}

fn started(initial_count: u64) -> Store {
    let mut store = Store::new();
    store.init_counter(initial_count, &Authority::payer(alice())).unwrap();
    store
}

fn count(store: &Store) -> u64 {
    store.counter().unwrap().count
}

#[test]
fn new_store_holds_nothing() {
    let store = Store::new();
    assert_eq!(store.counter(), None);
    assert_eq!(store.get(&Address::shipment(0)), None);
    assert_eq!(store.get(&Address::counter()), None);
    assert!(!store.occupied(&Address::counter()));
    assert!(!store.occupied(&Address::shipment(0)));
    assert_eq!(store.locate(&Address::shipment(0)), None);
}

#[test]
fn init_counter_sets_the_count() {
    let mut store = Store::new();
    let handle = store.init_counter(41, &Authority::payer(alice())).unwrap();
    assert_eq!(handle.address(), Address::counter());
    assert_eq!(store.counter(), Some(CounterRecord { count: 41 }));
    assert!(store.occupied(&Address::counter()));
    assert_eq!(store.get(&Address::counter()), None);
}

#[test]
fn init_counter_twice_is_refused_and_keeps_the_count() {
    let mut store = started(5);
    assert_eq!(store.init_counter(0, &Authority::payer(alice())), Err(StoreError::AlreadyExists));
    assert_eq!(count(&store), 5);
    assert_eq!(store.init_counter(99, &Authority::unsigned(bob())), Err(StoreError::AlreadyExists));
    assert_eq!(count(&store), 5);
    store.create_shipment(&Authority::payer(alice())).unwrap();
    assert_eq!(store.init_counter(0, &Authority::payer(alice())), Err(StoreError::AlreadyExists));
    assert_eq!(count(&store), 6);
}

#[test]
fn init_counter_needs_a_signer() {
    let mut store = Store::new();
    assert_eq!(store.init_counter(3, &Authority::unsigned(alice())), Err(StoreError::Unauthorized));
    let funded_only = Authority { identity: alice(), signer: false, funded: true };
    assert_eq!(store.init_counter(3, &funded_only), Err(StoreError::Unauthorized));
    assert_eq!(store.counter(), None);
    assert!(!store.occupied(&Address::counter()));
}

#[test]
fn init_counter_needs_funding() {
    let mut store = Store::new();
    assert_eq!(
        store.init_counter(3, &Authority::signed(alice())),
        Err(StoreError::FundingInsufficient)
    );
    assert_eq!(store.counter(), None);
    assert_eq!(store.init_counter(3, &Authority::payer(alice())).map(|_| ()), Ok(()));
    assert_eq!(count(&store), 3);
}

#[test]
fn create_shipment_before_the_counter_finds_nothing() {
    let mut store = Store::new();
    assert_eq!(store.create_shipment(&Authority::payer(alice())), Err(StoreError::NotFound));
    assert_eq!(store.counter(), None);
    assert_eq!(store.get(&Address::shipment(0)), None);
}

#[test]
fn create_shipment_stores_a_fresh_record_and_advances_the_count() {
    let mut store = started(0);
    let handle = store.create_shipment(&Authority::payer(bob())).unwrap();
    assert_eq!(handle.sequence(), 0);
    assert_eq!(handle.address(), Address::shipment(0));
    assert_eq!(count(&store), 1);
    let record = store.get(&handle.address()).unwrap();
    assert_eq!(record, ShipmentRecord::new(bob()));
    assert_eq!(record.creator(), bob());
    assert!(!record.validated());
    assert!(!record.approved());
    assert!(store.occupied(&handle.address()));
    assert_eq!(store.get(&Address::shipment(1)), None);
    assert!(!store.occupied(&Address::shipment(1)));
}

#[test]
fn created_addresses_follow_the_counter() {
    let mut store = started(7);
    let mut previous: Option<ShipmentHandle> = None;
    for step in 0u64..50 {
        let observed = count(&store);
        assert_eq!(observed, 7 + step);
        let handle = store.create_shipment(&Authority::payer(alice())).unwrap();
        assert_eq!(handle.sequence(), observed);
        assert_eq!(handle.address(), Address::shipment(observed));
        assert_eq!(
            handle.address(),
            shipment_store::address::derive(b"shipment", &observed.to_le_bytes())
        );
        assert_eq!(handle.address().sequence(), Some(observed));
        if let Some(earlier) = previous {
            assert!(earlier.sequence() < handle.sequence());
            assert!(earlier.address().precedes(&handle.address()));
            assert!(!handle.address().precedes(&earlier.address()));
        }
        previous = Some(handle);
    }
    assert_eq!(count(&store), 57);
}

#[test]
fn refused_requests_do_not_disturb_the_sequence() {
    let mut store = started(0);
    let first = store.create_shipment(&Authority::payer(alice())).unwrap();
    assert_eq!(store.create_shipment(&Authority::unsigned(bob())), Err(StoreError::Unauthorized));
    assert_eq!(
        store.create_shipment(&Authority::signed(bob())),
        Err(StoreError::FundingInsufficient)
    );
    let second = store.create_shipment(&Authority::payer(bob())).unwrap();
    assert_eq!(first.sequence(), 0);
    assert_eq!(second.sequence(), 1);
    assert_eq!(count(&store), 2);
    assert_eq!(store.get(&Address::shipment(2)), None);
}

#[test]
fn serialised_callers_get_distinct_addresses() {
    let callers: Vec<Identity> = (0u8..32).map(|i| Identity::new([i; 32])).collect();
    let mut store = started(100);
    let mut handles: Vec<ShipmentHandle> = Vec::new();
    for caller in &callers {
        handles.push(store.create_shipment(&Authority::payer(*caller)).unwrap());
    }
    assert_eq!(count(&store), 132);
    for (i, a) in handles.iter().enumerate() {
        assert_eq!(a.sequence(), 100 + i as u64);
        assert_eq!(store.get(&a.address()).unwrap().creator(), callers[i]);
        for b in &handles[i + 1..] {
            assert_ne!(a, b);
            assert_ne!(a.address(), b.address());
            assert!(!a.address().same(&b.address()));
        }
    }
}

#[test]
fn create_shipment_needs_a_signer() {
    let mut store = started(4);
    assert_eq!(store.create_shipment(&Authority::unsigned(bob())), Err(StoreError::Unauthorized));
    assert_eq!(count(&store), 4);
    assert_eq!(store.get(&Address::shipment(4)), None);
}

#[test]
fn create_shipment_needs_funding_and_leaves_the_counter() {
    let mut store = started(4);
    assert_eq!(
        store.create_shipment(&Authority::signed(bob())),
        Err(StoreError::FundingInsufficient)
    );
    assert_eq!(count(&store), 4);
    assert_eq!(store.get(&Address::shipment(4)), None);
    assert!(!store.occupied(&Address::shipment(4)));
}

#[test]
fn create_shipment_fails_when_the_counter_cannot_advance() {
    let mut store = started(u64::MAX);
    assert_eq!(
        store.create_shipment(&Authority::payer(alice())),
        Err(StoreError::AllocationFailed)
    );
    assert_eq!(count(&store), u64::MAX);
    assert_eq!(store.get(&Address::shipment(u64::MAX)), None);
    assert_eq!(
        store.create_shipment(&Authority::unsigned(alice())),
        Err(StoreError::AllocationFailed)
    );
}

#[test]
fn create_shipment_reaches_the_last_sequence_number() {
    let mut store = started(u64::MAX - 1);
    let handle = store.create_shipment(&Authority::payer(alice())).unwrap();
    assert_eq!(handle.sequence(), u64::MAX - 1);
    assert_eq!(count(&store), u64::MAX);
    assert_eq!(store.get(&Address::shipment(u64::MAX - 1)), Some(ShipmentRecord::new(alice())));
    assert_eq!(
        store.create_shipment(&Authority::payer(alice())),
        Err(StoreError::AllocationFailed)
    );
    assert_eq!(count(&store), u64::MAX);
}

#[test]
fn approve_straight_after_create_is_refused_and_changes_nothing() {
    let mut store = started(0);
    let handle = store.create_shipment(&Authority::payer(alice())).unwrap();
    let before = store.get(&handle.address()).unwrap();
    assert_eq!(store.approve(&handle, &Authority::signed(bob())), Err(StoreError::NotValidated));
    assert_eq!(store.get(&handle.address()).unwrap(), before);
    assert_eq!(store.approve(&handle, &Authority::unsigned(bob())), Err(StoreError::NotValidated));
    assert_eq!(store.approve(&handle, &Authority::payer(alice())), Err(StoreError::NotValidated));
    let after = store.get(&handle.address()).unwrap();
    assert_eq!(after, before);
    assert!(!after.validated());
    assert!(!after.approved());
    assert_eq!(count(&store), 1);
}

#[test]
fn validate_then_approve_in_the_store() {
    let mut store = started(0);
    let handle = store.create_shipment(&Authority::payer(alice())).unwrap();
    assert_eq!(store.validate(&handle, &Authority::signed(bob())), Ok(()));
    let validated = store.get(&handle.address()).unwrap();
    assert!(validated.validated());
    assert!(!validated.approved());
    assert_eq!(validated.stage(), Stage::Validated);
    assert_eq!(store.approve(&handle, &Authority::signed(bob())), Ok(()));
    let approved = store.get(&handle.address()).unwrap();
    assert!(approved.validated());
    assert!(approved.approved());
    assert_eq!(approved.stage(), Stage::Approved);
    assert_eq!(approved.creator(), alice());
    assert_eq!(count(&store), 1);
}

#[test]
fn validate_twice_in_the_store() {
    let mut store = started(0);
    let handle = store.create_shipment(&Authority::payer(alice())).unwrap();
    assert_eq!(store.validate(&handle, &Authority::signed(bob())), Ok(()));
    let after_first = store.get(&handle.address()).unwrap();
    assert_eq!(
        store.validate(&handle, &Authority::signed(bob())),
        Err(StoreError::AlreadyValidated)
    );
    assert_eq!(
        store.validate(&handle, &Authority::unsigned(bob())),
        Err(StoreError::AlreadyValidated)
    );
    assert_eq!(store.get(&handle.address()).unwrap(), after_first);
}

#[test]
fn approve_twice_in_the_store() {
    let mut store = started(0);
    let handle = store.create_shipment(&Authority::payer(alice())).unwrap();
    store.validate(&handle, &Authority::signed(bob())).unwrap();
    store.approve(&handle, &Authority::signed(bob())).unwrap();
    let after_first = store.get(&handle.address()).unwrap();
    assert_eq!(store.approve(&handle, &Authority::signed(bob())), Err(StoreError::AlreadyApproved));
    assert_eq!(store.get(&handle.address()).unwrap(), after_first);
}

#[test]
fn unsigned_callers_cannot_move_a_shipment() {
    let mut store = started(0);
    let handle = store.create_shipment(&Authority::payer(alice())).unwrap();
    assert_eq!(store.validate(&handle, &Authority::unsigned(bob())), Err(StoreError::Unauthorized));
    assert_eq!(store.get(&handle.address()).unwrap(), ShipmentRecord::new(alice()));
    store.validate(&handle, &Authority::signed(bob())).unwrap();
    let validated = store.get(&handle.address()).unwrap();
    assert_eq!(store.approve(&handle, &Authority::unsigned(bob())), Err(StoreError::Unauthorized));
    assert_eq!(store.get(&handle.address()).unwrap(), validated);
}

#[test]
fn a_handle_of_another_store_finds_nothing() {
    let mut other = started(10);
    let foreign = other.create_shipment(&Authority::payer(alice())).unwrap();
    let mut store = started(0);
    store.create_shipment(&Authority::payer(alice())).unwrap();
    assert_eq!(store.validate(&foreign, &Authority::signed(bob())), Err(StoreError::NotFound));
    assert_eq!(store.approve(&foreign, &Authority::signed(bob())), Err(StoreError::NotFound));
    assert_eq!(store.get(&foreign.address()), None);
    let mut empty = Store::new();
    assert_eq!(empty.validate(&foreign, &Authority::signed(bob())), Err(StoreError::NotFound));
    assert_eq!(empty.approve(&foreign, &Authority::signed(bob())), Err(StoreError::NotFound));
}

#[test]
fn shipments_move_independently() {
    let mut store = started(3);
    let first = store.create_shipment(&Authority::payer(alice())).unwrap();
    let second = store.create_shipment(&Authority::payer(bob())).unwrap();
    let third = store.create_shipment(&Authority::payer(alice())).unwrap();
    store.validate(&second, &Authority::signed(alice())).unwrap();
    store.validate(&third, &Authority::signed(alice())).unwrap();
    store.approve(&third, &Authority::signed(bob())).unwrap();
    assert_eq!(store.get(&first.address()).unwrap().stage(), Stage::Created);
    assert_eq!(store.get(&second.address()).unwrap().stage(), Stage::Validated);
    assert_eq!(store.get(&third.address()).unwrap().stage(), Stage::Approved);
    assert_eq!(store.get(&first.address()).unwrap().creator(), alice());
    assert_eq!(store.get(&second.address()).unwrap().creator(), bob());
    assert_eq!(store.get(&third.address()).unwrap().creator(), alice());
    assert_eq!(count(&store), 6);
}

#[test]
fn get_reads_only_what_was_minted() {
    let mut store = started(3);
    store.create_shipment(&Authority::payer(alice())).unwrap();
    store.create_shipment(&Authority::payer(alice())).unwrap();
    assert_eq!(store.get(&Address::shipment(2)), None);
    assert!(store.get(&Address::shipment(3)).is_some());
    assert!(store.get(&Address::shipment(4)).is_some());
    assert_eq!(store.get(&Address::shipment(5)), None);
    assert_eq!(store.get(&Address::shipment(0)), None);
    assert_eq!(store.get(&Address::counter()), None);
    assert_eq!(store.get(&shipment_store::address::derive(b"shipment", &[3])), None);
    assert_eq!(store.get(&shipment_store::address::derive(b"parcel", &3u64.to_le_bytes())), None);
}

#[test]
fn get_finds_a_recomputed_address() {
    let mut store = started(3);
    store.create_shipment(&Authority::payer(bob())).unwrap();
    let recomputed = shipment_store::address::derive(b"shipment", &[3, 0, 0, 0, 0, 0, 0, 0]);
    assert_eq!(store.get(&recomputed), Some(ShipmentRecord::new(bob())));
}

#[test]
fn locate_returns_the_handle_of_a_stored_shipment() {
    let mut store = started(3);
    let handle = store.create_shipment(&Authority::payer(alice())).unwrap();
    assert_eq!(store.locate(&Address::shipment(3)), Some(handle));
    assert_eq!(store.locate(&Address::shipment(4)), None);
    assert_eq!(store.locate(&Address::shipment(2)), None);
    assert_eq!(store.locate(&Address::counter()), None);
    let found = store.locate(&handle.address()).unwrap();
    assert_eq!(store.validate(&found, &Authority::signed(bob())), Ok(()));
    assert!(store.get(&handle.address()).unwrap().validated());
}

#[test]
fn occupied_tells_counter_and_shipments() {
    let mut store = Store::new();
    assert!(!store.occupied(&Address::counter()));
    store.init_counter(0, &Authority::payer(alice())).unwrap();
    assert!(store.occupied(&Address::counter()));
    assert!(!store.occupied(&Address::shipment(0)));
    store.create_shipment(&Authority::payer(alice())).unwrap();
    assert!(store.occupied(&Address::shipment(0)));
    assert!(!store.occupied(&Address::shipment(1)));
    assert!(!store.occupied(&shipment_store::address::derive(b"counter", &[0])));
}

use shipment_store::address::Address;

#[test]
fn derive_is_deterministic() {
    let a = shipment_store::address::derive(b"shipment", &[1, 2, 3]);
    let b = shipment_store::address::derive(b"shipment", &[1, 2, 3]);
    assert_eq!(a, b);
    assert!(a.same(&b));
    assert_eq!(a.namespace_tag(), b"shipment");
    assert_eq!(a.seed(), &[1u8, 2, 3]);
}

#[test]
fn derive_keeps_tag_and_seed_apart() {
    let a = shipment_store::address::derive(b"ab", b"c");
    let b = shipment_store::address::derive(b"a", b"bc");
    assert_ne!(a, b);
    assert!(!a.same(&b));
}

#[test]
fn derive_distinguishes_seeds_and_tags() {
    let base = shipment_store::address::derive(b"shipment", &[0; 8]);
    assert!(!base.same(&shipment_store::address::derive(b"shipment", &[0; 7])));
    assert!(!base.same(&shipment_store::address::derive(b"shipment", &[0, 0, 0, 0, 0, 0, 0, 1])));
    assert!(!base.same(&shipment_store::address::derive(b"shipmenu", &[0; 8])));
    assert!(!base.same(&shipment_store::address::derive(b"", b"")));
}

#[test]
fn counter_address_is_the_tag_without_seed() {
    let counter = Address::counter();
    assert_eq!(counter, shipment_store::address::derive(b"counter", b""));
    assert_eq!(counter.namespace_tag(), b"counter");
    assert!(counter.seed().is_empty());
    assert_eq!(counter.sequence(), None);
}

#[test]
fn shipment_address_is_the_tag_with_little_endian_seed() {
    let address = Address::shipment(258);
    assert_eq!(address.namespace_tag(), b"shipment");
    assert_eq!(address.seed(), &[2u8, 1, 0, 0, 0, 0, 0, 0]);
    assert_eq!(address, shipment_store::address::derive(b"shipment", &258u64.to_le_bytes()));
}

#[test]
fn sequence_reads_back_what_shipment_wrote() {
    for n in [0u64, 1, 255, 256, 258, 65_536, 1 << 40, u64::MAX - 1, u64::MAX] {
        assert_eq!(Address::shipment(n).sequence(), Some(n));
    }
}

#[test]
fn sequence_of_a_recomputed_address() {
    let address = shipment_store::address::derive(b"shipment", &[0, 0, 0, 0, 0, 0, 0, 1]);
    assert_eq!(address.sequence(), Some(1 << 56));
    assert!(address.same(&Address::shipment(1 << 56)));
}

#[test]
fn sequence_is_absent_off_the_shipment_namespace() {
    assert_eq!(shipment_store::address::derive(b"shipment", &[0; 7]).sequence(), None);
    assert_eq!(shipment_store::address::derive(b"shipment", &[0; 9]).sequence(), None);
    assert_eq!(shipment_store::address::derive(b"shipment", b"").sequence(), None);
    assert_eq!(shipment_store::address::derive(b"shipments", &[0; 8]).sequence(), None);
    assert_eq!(shipment_store::address::derive(b"counter", &[0; 8]).sequence(), None);
    assert_eq!(shipment_store::address::derive(b"Shipment", &[0; 8]).sequence(), None);
}

#[test]
fn shipment_addresses_differ_with_the_sequence() {
    let mut seen: Vec<Address> = Vec::new();
    for n in 0u64..300 {
        let address = Address::shipment(n);
        assert!(seen.iter().all(|earlier| !earlier.same(&address)));
        assert!(!address.same(&Address::counter()));
        seen.push(address);
    }
}

#[test]
fn clone_names_the_same_location() {
    let address = Address::shipment(77);
    let copy = address.clone();
    assert!(copy.same(&address));
    assert_eq!(copy.sequence(), Some(77));
}

#[test]
fn shipment_addresses_are_ordered_by_sequence() {
    assert!(Address::shipment(0).precedes(&Address::shipment(1)));
    assert!(Address::shipment(255).precedes(&Address::shipment(256)));
    assert!(Address::shipment(1).precedes(&Address::shipment(u64::MAX)));
    assert!(!Address::shipment(256).precedes(&Address::shipment(255)));
    assert!(!Address::shipment(4).precedes(&Address::shipment(4)));
    assert!(!Address::counter().precedes(&Address::shipment(4)));
    assert!(!Address::shipment(4).precedes(&Address::counter()));
    assert!(!shipment_store::address::derive(b"shipment", &[1]).precedes(&Address::shipment(4)));
}

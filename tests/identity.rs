use coerce_rt::id::{ActorId, V4_BITS, VERSION_VARIANT_MASK};

#[test]
fn new_v4_sets_version_and_variant_bits() {
    for _ in 0..50 {
        let id = ActorId::new_v4();
        let v = id.as_u128();
        assert_eq!((v >> 76) & 0xF, 4);
        assert_eq!((v >> 62) & 0x3, 0b10);
        assert_eq!(v & VERSION_VARIANT_MASK, V4_BITS);
    }
}

#[test]
fn new_v4_ids_are_distinct() {
    let mut seen: Vec<ActorId> = Vec::new();
    for _ in 0..1000 {
        let id = ActorId::new_v4();
        assert!(!seen.contains(&id));
        seen.push(id);
    }
    assert_eq!(seen.len(), 1000);
}

#[test]
fn from_u128_round_trips() {
    let id = ActorId::from_u128(0x1234_5678_9abc_def0_0fed_cba9_8765_4321);
    assert_eq!(id.as_u128(), 0x1234_5678_9abc_def0_0fed_cba9_8765_4321);
    assert_eq!(id.value, 0x1234_5678_9abc_def0_0fed_cba9_8765_4321);
    assert_eq!(ActorId::from_u128(7), ActorId { value: 7 });
}

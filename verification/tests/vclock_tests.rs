use amulet_core::primitives::{ReplicaID, ReplicaIdBytes};
use amulet_core::vclock::{VClock, PartialOrder, merge_into, compare};

fn rid(id: u8) -> ReplicaID {
    ReplicaIdBytes([id; 16])
}

fn vclock_of(entries: &[(u8, u64)]) -> VClock {
    let mut vc = VClock::new();
    for (id, t) in entries {
        vc.insert(rid(*id), *t);
    }
    vc
}

#[test]
fn test_merge_into_basic() {
    let mut local = vclock_of(&[(1, 5), (2, 3)]);
    let incoming = vclock_of(&[(1, 7), (3, 4)]);
    merge_into(&mut local, &incoming);
    assert_eq!(local.get(&rid(1)), Some(7));
    assert_eq!(local.get(&rid(2)), Some(3));
    assert_eq!(local.get(&rid(3)), Some(4));
}

#[test]
fn test_merge_into_empty_local() {
    let mut local = VClock::new();
    let incoming = vclock_of(&[(1, 7), (3, 4)]);
    merge_into(&mut local, &incoming);
    assert_eq!(local, incoming);
}

#[test]
fn test_merge_into_empty_incoming() {
    let mut local = vclock_of(&[(1, 5), (2, 3)]);
    let original_local = local.clone();
    let incoming = VClock::new();
    merge_into(&mut local, &incoming);
    assert_eq!(local, original_local);
}

#[test]
fn test_compare_equal() {
    let vc1 = vclock_of(&[(1, 1), (2, 1)]);
    let vc2 = vclock_of(&[(1, 1), (2, 1)]);
    assert_eq!(compare(&vc1, &vc2), PartialOrder::Equal);
}

#[test]
fn test_compare_less_than() {
    let vc1 = vclock_of(&[(1, 1), (2, 1)]);
    let vc2 = vclock_of(&[(1, 1), (2, 2)]);
    assert_eq!(compare(&vc1, &vc2), PartialOrder::LessThan);

    let vc3 = vclock_of(&[(1, 1)]);
    let vc4 = vclock_of(&[(1, 1), (2, 1)]);
    assert_eq!(compare(&vc3, &vc4), PartialOrder::LessThan);
}

#[test]
fn test_compare_greater_than() {
    let vc1 = vclock_of(&[(1, 1), (2, 2)]);
    let vc2 = vclock_of(&[(1, 1), (2, 1)]);
    assert_eq!(compare(&vc1, &vc2), PartialOrder::GreaterThan);

    let vc3 = vclock_of(&[(1, 1), (2, 1)]);
    let vc4 = vclock_of(&[(1, 1)]);
    assert_eq!(compare(&vc3, &vc4), PartialOrder::GreaterThan);
}

#[test]
fn test_compare_concurrent() {
    let vc1 = vclock_of(&[(1, 1), (2, 2)]);
    let vc2 = vclock_of(&[(1, 2), (2, 1)]);
    assert_eq!(compare(&vc1, &vc2), PartialOrder::Concurrent);

    let vc3 = vclock_of(&[(1, 1)]);
    let vc4 = vclock_of(&[(2, 1)]);
    assert_eq!(compare(&vc3, &vc4), PartialOrder::Concurrent);
}

#[test]
fn test_compare_with_missing_entries() {
    // {rA:1} vs {rA:1, rB:1} => less
    let vc1 = vclock_of(&[(1, 1)]);
    let vc2 = vclock_of(&[(1, 1), (2, 1)]);
    assert_eq!(compare(&vc1, &vc2), PartialOrder::LessThan);

    // {rA:1, rB:1} vs {rA:1} => greater
    assert_eq!(compare(&vc2, &vc1), PartialOrder::GreaterThan);

    // {rA:2} vs {rA:1, rB:1} => concurrent
    let vc3 = vclock_of(&[(1, 2)]);
    assert_eq!(compare(&vc3, &vc2), PartialOrder::Concurrent);
}

#[test]
fn test_merge_commutative_concrete() {
    let a = vclock_of(&[(1, 5), (2, 3), (9, 1)]);
    let b = vclock_of(&[(1, 2), (3, 8)]);
    let mut ab = a.clone();
    merge_into(&mut ab, &b);
    let mut ba = b.clone();
    merge_into(&mut ba, &a);
    assert_eq!(ab, ba);
}

#[test]
fn test_merge_idempotent_concrete() {
    let a = vclock_of(&[(1, 5), (2, 3)]);
    let mut aa = a.clone();
    let copy = a.clone();
    merge_into(&mut aa, &copy);
    assert_eq!(aa, a);
}

#[test]
fn test_merge_monotone_concrete() {
    let a = vclock_of(&[(1, 5), (2, 3)]);
    let b = vclock_of(&[(2, 9), (4, 4)]);
    let mut merged = a.clone();
    merge_into(&mut merged, &b);
    for id in [1u8, 2, 3, 4, 5] {
        assert!(merged.get(&rid(id)).unwrap_or(0) >= a.get(&rid(id)).unwrap_or(0));
        assert!(merged.get(&rid(id)).unwrap_or(0) >= b.get(&rid(id)).unwrap_or(0));
    }
}

#[test]
fn test_insert_order_gives_canonical_equality() {
    let mut forwards = VClock::new();
    forwards.insert(rid(1), 10);
    forwards.insert(rid(2), 5);
    let mut backwards = VClock::new();
    backwards.insert(rid(2), 5);
    backwards.insert(rid(1), 10);
    assert_eq!(forwards, backwards);
    assert_eq!(forwards.len(), 2);
}

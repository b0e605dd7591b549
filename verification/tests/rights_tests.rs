use amulet_core::rights::{canonicalise, sufficient, READ, WRITE, DELEGATE, ISSUE};

#[test]
fn it_works() {
    let result = 2 + 2;
    assert_eq!(result, 4);
}

#[test]
fn test_canonicalise_write_implies_read() {
    assert_eq!(canonicalise(WRITE), WRITE | READ);
    assert_eq!(canonicalise(READ), READ);
    assert_eq!(canonicalise(WRITE | DELEGATE), WRITE | READ | DELEGATE);
    assert_eq!(canonicalise(0), 0);
}

#[test]
fn test_sufficient_basic() {
    assert!(sufficient(READ, READ));
    assert!(!sufficient(0, READ));
    assert!(sufficient(WRITE | READ, READ));
    assert!(sufficient(WRITE | READ, WRITE));
}

#[test]
fn test_sufficient_with_canonicalisation() {
    // `have` only has WRITE, but WRITE implies READ, so it suffices for READ.
    assert!(sufficient(WRITE, READ));
    // `have` has WRITE (implies READ), needs WRITE and READ.
    assert!(sufficient(WRITE, WRITE | READ));
    // `have` only READ, needs WRITE: not sufficient.
    assert!(!sufficient(READ, WRITE));
}

#[test]
fn test_sufficient_multiple_rights() {
    let have = WRITE | DELEGATE; // implies READ
    let need_ok = READ | DELEGATE;
    let need_fail = READ | ISSUE;
    assert!(sufficient(have, need_ok));
    assert!(!sufficient(have, need_fail));
    assert!(sufficient(have, WRITE));
}

#[test]
fn test_extension_bits_ignored_by_sufficient_logic_if_not_in_need() {
    let extension_bit_16 = 1u32 << 16;
    let have_core = WRITE;
    let have_with_extension = WRITE | extension_bit_16;

    // If `need` only asks for core rights, extension bits in `have` don't break sufficiency.
    assert!(sufficient(have_with_extension, READ)); // WRITE implies READ
    assert!(sufficient(have_with_extension, WRITE));

    // If `need` asks for an extension bit, `have` must also have it.
    assert!(sufficient(have_with_extension, READ | extension_bit_16));
    assert!(!sufficient(have_core, READ | extension_bit_16));
}

#[test]
fn test_canonicalise_idempotent_concrete() {
    for mask in [0u32, READ, WRITE, WRITE | DELEGATE, 0xFFFF_FFFF, 1 << 16, WRITE | (1 << 20)] {
        assert_eq!(canonicalise(canonicalise(mask)), canonicalise(mask));
    }
}

#[test]
fn test_sufficient_matches_formula() {
    for have in [0u32, READ, WRITE, WRITE | DELEGATE, ISSUE | (1 << 17)] {
        for need in [0u32, READ, WRITE, READ | DELEGATE, 1 << 17] {
            assert_eq!(sufficient(have, need), (canonicalise(have) & need) == need);
        }
    }
}

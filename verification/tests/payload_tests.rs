use amulet_core::command_traits::EncodedCmd;
use amulet_core::primitives::{CidBytes, ReplicaIdBytes};
use amulet_core::types::AlgSuite;

#[test]
fn test_vec_payload_encode_decode() {
    let payload: Vec<u8> = vec![10, 20, 30];
    assert_eq!(payload.encode(), vec![10, 20, 30]);
    let decoded = <Vec<u8> as EncodedCmd>::decode(&[10, 20, 30]).unwrap();
    assert_eq!(decoded, payload);
    assert_eq!(payload.required_rights(), 0);
}

#[test]
fn test_vec_payload_signed_bytes_layout() {
    let payload: Vec<u8> = vec![0xAB];
    let cmd_id = CidBytes([1u8; 32]);
    let replica = ReplicaIdBytes([2u8; 16]);
    let capability = CidBytes([3u8; 32]);
    let bytes = payload
        .to_signed_bytes(&cmd_id, AlgSuite::HYBRID, &replica, &capability, 513)
        .unwrap();

    let mut expected: Vec<u8> = Vec::new();
    expected.extend_from_slice(&[1u8; 32]);
    expected.push(3); // HYBRID tag
    expected.extend_from_slice(&[2u8; 16]);
    expected.extend_from_slice(&[3u8; 32]);
    expected.extend_from_slice(&513u64.to_le_bytes());
    expected.push(0xAB);
    assert_eq!(bytes, expected);
}

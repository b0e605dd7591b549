use amulet_core::crypto::{CryptoProvider, CryptoError, PlaceholderCryptoProvider};
use amulet_core::classic::ClassicCryptoProvider;
use amulet_core::fips::FipsCryptoProvider;
use amulet_core::kernel::Kernel;
use amulet_core::runtime::DefaultRuntime;
use amulet_core::primitives::{CidBytes, ReplicaIdBytes, PublicKeyBytes, SignatureBytes,
    Capability, Command};
use amulet_core::types::AlgSuite;
use amulet_core::command_traits::EncodedCmd;
use amulet_core::error::KernelError;
use ed25519_dalek::Signer;
use sha3::Digest;

#[test]
fn test_classic_hash() {
    let provider = ClassicCryptoProvider;
    let data = b"hello amulet";
    let cid = provider.hash(data, AlgSuite::CLASSIC).unwrap();

    let expected_cid_bytes = *blake3::hash(data).as_bytes();
    assert_eq!(cid, expected_cid_bytes);

    let res_fips = provider.hash(data, AlgSuite::FIPS);
    assert!(matches!(res_fips, Err(CryptoError::UnsupportedAlgorithmSuite(1))));
}

#[test]
fn test_classic_sign_verify_roundtrip() {
    let signing_key = ed25519_dalek::SigningKey::from_bytes(&[7u8; 32]);
    let public_key = PublicKeyBytes(signing_key.verifying_key().to_bytes());

    let data = b"message to sign";
    let signature = SignatureBytes(signing_key.sign(data).to_bytes());

    let provider = ClassicCryptoProvider;
    let verification_result = provider.verify(data, &signature, &public_key, AlgSuite::CLASSIC);
    assert!(verification_result.is_ok());
}

#[test]
fn test_classic_verify_tampered_data() {
    let signing_key = ed25519_dalek::SigningKey::from_bytes(&[7u8; 32]);
    let public_key = PublicKeyBytes(signing_key.verifying_key().to_bytes());

    let data = b"message to sign";
    let tampered_data = b"tampered message";
    let signature = SignatureBytes(signing_key.sign(data).to_bytes());

    let provider = ClassicCryptoProvider;
    let verification_result = provider.verify(tampered_data, &signature, &public_key, AlgSuite::CLASSIC);
    assert!(verification_result.is_err());
    assert_eq!(verification_result.unwrap_err(), CryptoError::InvalidSignature);
}

#[test]
fn test_classic_verify_wrong_key() {
    let signing_key_1 = ed25519_dalek::SigningKey::from_bytes(&[7u8; 32]);
    let signing_key_2 = ed25519_dalek::SigningKey::from_bytes(&[8u8; 32]);
    let public_key_2 = PublicKeyBytes(signing_key_2.verifying_key().to_bytes());

    let data = b"message to sign";
    let signature = SignatureBytes(signing_key_1.sign(data).to_bytes());

    let provider = ClassicCryptoProvider;
    let verification_result = provider.verify(data, &signature, &public_key_2, AlgSuite::CLASSIC);
    assert!(verification_result.is_err());
    assert_eq!(verification_result.unwrap_err(), CryptoError::InvalidSignature);
}

#[test]
fn test_unsupported_suite_verify() {
    let public_key = PublicKeyBytes([0u8; 32]);
    let signature = SignatureBytes([0u8; 64]);
    let data = b"test";
    let provider = ClassicCryptoProvider;
    let result = provider.verify(data, &signature, &public_key, AlgSuite::PQC);
    assert!(result.is_err());
}

#[test]
fn test_fips_hash() {
    let provider = FipsCryptoProvider;
    let data = b"hello amulet fips";
    let cid = provider.hash(data, AlgSuite::FIPS).unwrap();

    let mut hasher = sha3::Sha3_256::new();
    hasher.update(data);
    let expected_cid_bytes: [u8; 32] = hasher.finalize().into();
    assert_eq!(cid, expected_cid_bytes);

    let res_classic = provider.hash(data, AlgSuite::CLASSIC);
    assert!(matches!(res_classic, Err(CryptoError::UnsupportedAlgorithmSuite(0))));
}

#[test]
fn test_fips_verify_rejects_undecodable_key() {
    // A 32-byte key can never be a valid SEC1 P-256 point encoding, so
    // verification under the FIPS provider reports an invalid signature.
    let provider = FipsCryptoProvider;
    let result = provider.verify(b"data", &SignatureBytes([0u8; 64]), &PublicKeyBytes([2u8; 32]), AlgSuite::FIPS);
    assert_eq!(result.unwrap_err(), CryptoError::InvalidSignature);

    let unsupported = provider.verify(b"data", &SignatureBytes([0u8; 64]), &PublicKeyBytes([2u8; 32]), AlgSuite::HYBRID);
    assert!(matches!(unsupported, Err(CryptoError::UnsupportedAlgorithmSuite(3))));
}

#[test]
fn test_placeholder_hash_shape() {
    let provider = PlaceholderCryptoProvider;
    assert_eq!(provider.hash(b"", AlgSuite::FIPS).unwrap(), [1u8; 32]);
    assert_eq!(provider.hash(&[9u8, 4, 4], AlgSuite::CLASSIC).unwrap(), [9u8; 32]);
    assert!(provider.verify(b"anything", &SignatureBytes([0u8; 64]), &PublicKeyBytes([0u8; 32]), AlgSuite::CLASSIC).is_ok());
}

// --- The kernel against the real CLASSIC suite ---

fn classic_kernel_with_capability(
    holder: PublicKeyBytes,
) -> (Kernel<ClassicCryptoProvider, DefaultRuntime>, CidBytes) {
    let mut kernel = Kernel::new(ReplicaIdBytes([1u8; 16]), DefaultRuntime, ClassicCryptoProvider);
    let cap_id = CidBytes([0xCCu8; 32]);
    let capability = Capability {
        id: cap_id,
        alg_suite: AlgSuite::CLASSIC.tag(),
        holder,
        target_entity: CidBytes([0u8; 32]),
        rights: u32::MAX,
        nonce: 0,
        expiry_lc: None,
        kind: 0,
        signature: SignatureBytes([0u8; 64]),
    };
    kernel.state.capabilities.insert(cap_id, capability);
    (kernel, cap_id)
}

#[test]
fn test_apply_with_classic_signature() {
    let signing_key = ed25519_dalek::SigningKey::from_bytes(&[5u8; 32]);
    let holder = PublicKeyBytes(signing_key.verifying_key().to_bytes());
    let (mut kernel, cap_id) = classic_kernel_with_capability(holder);

    let payload: Vec<u8> = vec![1, 2, 3];
    let cmd_id = CidBytes([0x11u8; 32]);
    let replica = ReplicaIdBytes([1u8; 16]);
    let to_sign = payload
        .to_signed_bytes(&cmd_id, AlgSuite::CLASSIC, &replica, &cap_id, 0)
        .unwrap();
    let signature = SignatureBytes(signing_key.sign(&to_sign).to_bytes());

    let command = Command {
        id: cmd_id,
        alg_suite: AlgSuite::CLASSIC.tag(),
        replica,
        capability: cap_id,
        lclock: 0,
        vclock: None,
        payload,
        signature,
    };
    let event = kernel.apply(&command).expect("Apply with a valid Ed25519 signature failed");
    assert_eq!(event.lclock, 1);

    // The event identifier is the BLAKE3 digest of the canonical layout.
    let input = kernel.get_event_hash_input_for_test(
        &cmd_id, 1, &replica, AlgSuite::CLASSIC.tag(), &[], &[], &event.vclock, &[],
    );
    assert_eq!(event.id.0, *blake3::hash(&input).as_bytes());
}

#[test]
fn test_apply_with_classic_bad_signature() {
    let signing_key = ed25519_dalek::SigningKey::from_bytes(&[5u8; 32]);
    let holder = PublicKeyBytes(signing_key.verifying_key().to_bytes());
    let (mut kernel, cap_id) = classic_kernel_with_capability(holder);

    let command: Command<Vec<u8>> = Command {
        id: CidBytes([0x11u8; 32]),
        alg_suite: AlgSuite::CLASSIC.tag(),
        replica: ReplicaIdBytes([1u8; 16]),
        capability: cap_id,
        lclock: 0,
        vclock: None,
        payload: vec![1, 2, 3],
        signature: SignatureBytes([0u8; 64]),
    };
    match kernel.apply(&command) {
        Err(KernelError::Crypto(CryptoError::InvalidSignature)) => {}
        res => panic!("Should fail: invalid signature, got {:?}", res),
    }
    assert_eq!(kernel.local_lc, 0, "State unchanged on signature failure");
}

#[test]
fn test_alg_suite_tags() {
    assert_eq!(AlgSuite::CLASSIC.tag(), 0);
    assert_eq!(AlgSuite::FIPS.tag(), 1);
    assert_eq!(AlgSuite::PQC.tag(), 2);
    assert_eq!(AlgSuite::HYBRID.tag(), 3);
    assert_eq!(AlgSuite::from_tag(0), Some(AlgSuite::CLASSIC));
    assert_eq!(AlgSuite::from_tag(1), Some(AlgSuite::FIPS));
    assert_eq!(AlgSuite::from_tag(2), Some(AlgSuite::PQC));
    assert_eq!(AlgSuite::from_tag(3), Some(AlgSuite::HYBRID));
    assert_eq!(AlgSuite::from_tag(4), None);
    assert_eq!(AlgSuite::from_tag(255), None);
}

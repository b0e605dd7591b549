//! The CLASSIC algorithm suite: BLAKE3-256 hashing and Ed25519 signature
//! verification, supplied by the `blake3` and `ed25519-dalek` crates behind
//! trusted wrappers.

use vstd::prelude::*;
use ed25519_dalek::Verifier;
use crate::types::AlgSuite;
use crate::crypto::{CryptoProvider, CryptoError};
use crate::primitives::{PublicKeyBytes, SignatureBytes};

verus! {

/// The 32-byte BLAKE3 digest of a byte sequence.
pub uninterp spec fn blake3_hash_of(data: Seq<u8>) -> Seq<u8>;

/// Whether Ed25519 verification accepts the signature over the message
/// under the public key; false also when the key does not decode to a valid
/// curve point.
pub uninterp spec fn ed25519_accepts(
    data: Seq<u8>,
    signature: Seq<u8>,
    public_key: Seq<u8>,
) -> bool;

/// Relies on blake3::hash: the 32-byte BLAKE3 digest, a deterministic
/// function of the input bytes alone.
#[verifier::external_body]
fn blake3_digest(data: &[u8]) -> (r: [u8; 32])
    ensures
        r@ == blake3_hash_of(data@),
{
    *blake3::hash(data).as_bytes()
}

/// Relies on ed25519_dalek::VerifyingKey::{from_bytes, verify} and
/// ed25519_dalek::Signature::from_bytes: acceptance is a deterministic
/// function of message, signature and key bytes; an undecodable key
/// verifies nothing.
#[verifier::external_body]
fn ed25519_verify(data: &[u8], signature: &SignatureBytes, public_key: &PublicKeyBytes) -> (r:
    bool)
    ensures
        r == ed25519_accepts(data@, signature@, public_key@),
{
    match ed25519_dalek::VerifyingKey::from_bytes(&public_key.0) {
        Ok(vk) => {
            let sig = ed25519_dalek::Signature::from_bytes(&signature.0);
            vk.verify(data, &sig).is_ok()
        },
        Err(_) => false,
    }
}

/// The CLASSIC crypto provider (BLAKE3-256, Ed25519). It serves exactly the
/// CLASSIC suite and answers every other suite with an unsupported-suite
/// error.
#[derive(Debug, Default, Clone, Copy)]
pub struct ClassicCryptoProvider;

impl CryptoProvider for ClassicCryptoProvider {
    open spec fn hash_spec(&self, data: Seq<u8>, alg_suite: AlgSuite) -> Result<Seq<u8>, CryptoError> {
        if alg_suite == AlgSuite::CLASSIC {
            Ok(blake3_hash_of(data))
        } else {
            Err(CryptoError::UnsupportedAlgorithmSuite(alg_suite.spec_tag()))
        }
    }

    open spec fn verify_spec(
        &self,
        data: Seq<u8>,
        signature: Seq<u8>,
        holder_public_key: Seq<u8>,
        alg_suite: AlgSuite,
    ) -> Result<(), CryptoError> {
        if alg_suite != AlgSuite::CLASSIC {
            Err(CryptoError::UnsupportedAlgorithmSuite(alg_suite.spec_tag()))
        } else if ed25519_accepts(data, signature, holder_public_key) {
            Ok(())
        } else {
            Err(CryptoError::InvalidSignature)
        }
    }

    fn hash(&self, data: &[u8], alg_suite: AlgSuite) -> (r: Result<[u8; 32], CryptoError>) {
        match alg_suite {
            AlgSuite::CLASSIC => Ok(blake3_digest(data)),
            _ => Err(CryptoError::UnsupportedAlgorithmSuite(alg_suite.tag())),
        }
    }

    fn verify(
        &self,
        data_to_verify: &[u8],
        signature: &SignatureBytes,
        holder_public_key: &PublicKeyBytes,
        alg_suite: AlgSuite,
    ) -> (r: Result<(), CryptoError>) {
        match alg_suite {
            AlgSuite::CLASSIC => {
                if ed25519_verify(data_to_verify, signature, holder_public_key) {
                    Ok(())
                } else {
                    Err(CryptoError::InvalidSignature)
                }
            },
            _ => Err(CryptoError::UnsupportedAlgorithmSuite(alg_suite.tag())),
        }
    }
}

} // verus!

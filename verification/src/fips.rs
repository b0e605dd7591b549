//! The FIPS algorithm suite: SHA-3-256 hashing and ECDSA P-256 signature
//! verification, supplied by the `sha3` and `p256` crates behind trusted
//! wrappers.

use vstd::prelude::*;
use sha3::Digest;
use ecdsa::signature::Verifier;
use crate::types::AlgSuite;
use crate::crypto::{CryptoProvider, CryptoError};
use crate::primitives::{PublicKeyBytes, SignatureBytes};

verus! {

/// The 32-byte SHA-3-256 digest of a byte sequence.
pub uninterp spec fn sha3_256_of(data: Seq<u8>) -> Seq<u8>;

/// Whether ECDSA P-256 verification accepts the signature over the message
/// under the SEC1-encoded public key; false also when the key or the
/// signature does not decode.
pub uninterp spec fn p256_accepts(data: Seq<u8>, signature: Seq<u8>, public_key: Seq<u8>) -> bool;

/// Relies on sha3::Sha3_256 (update, finalize): the 32-byte SHA-3-256
/// digest, a deterministic function of the input bytes alone.
#[verifier::external_body]
fn sha3_256_digest(data: &[u8]) -> (r: [u8; 32])
    ensures
        r@ == sha3_256_of(data@),
{
    let mut hasher = sha3::Sha3_256::new();
    hasher.update(data);
    hasher.finalize().into()
}

/// Relies on p256::ecdsa::VerifyingKey::{from_sec1_bytes, verify} and
/// p256::ecdsa::Signature::from_slice: acceptance is a deterministic
/// function of message, signature and key bytes; undecodable keys or
/// signatures verify nothing.
#[verifier::external_body]
fn p256_ecdsa_verify(data: &[u8], signature: &SignatureBytes, public_key: &PublicKeyBytes) -> (r:
    bool)
    ensures
        r == p256_accepts(data@, signature@, public_key@),
{
    match p256::ecdsa::VerifyingKey::from_sec1_bytes(public_key.0.as_slice()) {
        Ok(vk) => match p256::ecdsa::Signature::from_slice(signature.0.as_slice()) {
            Ok(sig) => vk.verify(data, &sig).is_ok(),
            Err(_) => false,
        },
        Err(_) => false,
    }
}

/// The FIPS crypto provider (SHA-3-256, ECDSA P-256). It serves exactly the
/// FIPS suite and answers every other suite with an unsupported-suite
/// error.
#[derive(Debug, Default, Clone, Copy)]
pub struct FipsCryptoProvider;

impl CryptoProvider for FipsCryptoProvider {
    open spec fn hash_spec(&self, data: Seq<u8>, alg_suite: AlgSuite) -> Result<Seq<u8>, CryptoError> {
        if alg_suite == AlgSuite::FIPS {
            Ok(sha3_256_of(data))
        } else {
            Err(CryptoError::UnsupportedAlgorithmSuite(alg_suite.spec_tag()))
        }
    }

    open spec fn verify_spec(
        &self,
        data: Seq<u8>,
        signature: Seq<u8>,
        holder_public_key: Seq<u8>,
        alg_suite: AlgSuite,
    ) -> Result<(), CryptoError> {
        if alg_suite != AlgSuite::FIPS {
            Err(CryptoError::UnsupportedAlgorithmSuite(alg_suite.spec_tag()))
        } else if p256_accepts(data, signature, holder_public_key) {
            Ok(())
        } else {
            Err(CryptoError::InvalidSignature)
        }
    }

    fn hash(&self, data: &[u8], alg_suite: AlgSuite) -> (r: Result<[u8; 32], CryptoError>) {
        match alg_suite {
            AlgSuite::FIPS => Ok(sha3_256_digest(data)),
            _ => Err(CryptoError::UnsupportedAlgorithmSuite(alg_suite.tag())),
        }
    }

    fn verify(
        &self,
        data_to_verify: &[u8],
        signature: &SignatureBytes,
        holder_public_key: &PublicKeyBytes,
        alg_suite: AlgSuite,
    ) -> (r: Result<(), CryptoError>) {
        match alg_suite {
            AlgSuite::FIPS => {
                if p256_ecdsa_verify(data_to_verify, signature, holder_public_key) {
                    Ok(())
                } else {
                    Err(CryptoError::InvalidSignature)
                }
            },
            _ => Err(CryptoError::UnsupportedAlgorithmSuite(alg_suite.tag())),
        }
    }
}

} // verus!

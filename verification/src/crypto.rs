//! The cryptographic abstraction boundary: a provider supplies hashing and
//! signature verification for the algorithm suites it supports. The kernel
//! is defined solely against this contract; concrete providers are
//! interchangeable.

use vstd::prelude::*;
use crate::types::AlgSuite;
use crate::primitives::{PublicKeyBytes, SignatureBytes};

verus! {

/// Errors of cryptographic operations.
#[derive(Debug, Clone, PartialEq, Eq)]
pub enum CryptoError {
    /// Signature verification failed.
    InvalidSignature,
    /// The hashing operation failed.
    HashingFailure(String),
    /// The algorithm-suite tag is unknown, or the provider does not support
    /// the suite.
    UnsupportedAlgorithmSuite(u8),
    /// Any other failure.
    Other(String),
}

/// A provider of the cryptographic operations the kernel needs. Both
/// operations are pure: each implementation fixes, through its two spec
/// functions, what its calls return for every input.
pub trait CryptoProvider: Sized {
    /// What `hash` returns: the 32-byte digest of the data under the given
    /// suite, or the error the provider answers with.
    spec fn hash_spec(&self, data: Seq<u8>, alg_suite: AlgSuite) -> Result<Seq<u8>, CryptoError>;

    /// What `verify` returns for the given data, signature and key.
    spec fn verify_spec(
        &self,
        data: Seq<u8>,
        signature: Seq<u8>,
        holder_public_key: Seq<u8>,
        alg_suite: AlgSuite,
    ) -> Result<(), CryptoError>;

    /// Hashes the data under the given suite, returning the 32-byte content
    /// identifier or an error.
    fn hash(&self, data: &[u8], alg_suite: AlgSuite) -> (r: Result<[u8; 32], CryptoError>)
        ensures
            match r {
                Ok(c) => self.hash_spec(data@, alg_suite) matches Ok(s) && c@ == s,
                Err(e) => self.hash_spec(data@, alg_suite) == Result::<Seq<u8>, CryptoError>::Err(
                    e,
                ),
            },
    ;

    /// Verifies a signature over the data under the holder's public key and
    /// the given suite.
    fn verify(
        &self,
        data_to_verify: &[u8],
        signature: &SignatureBytes,
        holder_public_key: &PublicKeyBytes,
        alg_suite: AlgSuite,
    ) -> (r: Result<(), CryptoError>)
        ensures
            r == self.verify_spec(data_to_verify@, signature@, holder_public_key@, alg_suite),
    ;
}

/// A stand-in provider for tests: a naive hash over the first byte, and
/// verification that accepts everything. Not for production use.
#[derive(Debug, Clone, Copy, Default)]
pub struct PlaceholderCryptoProvider;

impl CryptoProvider for PlaceholderCryptoProvider {
    /// The placeholder hash: 32 copies of the first data byte, or of the
    /// suite tag when the data is empty.
    open spec fn hash_spec(&self, data: Seq<u8>, alg_suite: AlgSuite) -> Result<Seq<u8>, CryptoError> {
        if data.len() == 0 {
            Ok(Seq::new(32, |i: int| alg_suite.spec_tag()))
        } else {
            Ok(Seq::new(32, |i: int| data[0]))
        }
    }

    /// The placeholder always accepts.
    open spec fn verify_spec(
        &self,
        data: Seq<u8>,
        signature: Seq<u8>,
        holder_public_key: Seq<u8>,
        alg_suite: AlgSuite,
    ) -> Result<(), CryptoError> {
        Ok(())
    }

    fn hash(&self, data: &[u8], alg_suite: AlgSuite) -> (r: Result<[u8; 32], CryptoError>) {
        if data.len() == 0 {
            let t = alg_suite.tag();
            let arr = [t; 32];
            proof {
                assert(arr@ =~= Seq::new(32, |i: int| alg_suite.spec_tag()));
            }
            Ok(arr)
        } else {
            let b = data[0];
            let arr = [b; 32];
            proof {
                assert(arr@ =~= Seq::new(32, |i: int| data@[0]));
            }
            Ok(arr)
        }
    }

    fn verify(
        &self,
        data_to_verify: &[u8],
        signature: &SignatureBytes,
        holder_public_key: &PublicKeyBytes,
        alg_suite: AlgSuite,
    ) -> (r: Result<(), CryptoError>) {
        Ok(())
    }
}

} // verus!

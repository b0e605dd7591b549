//! The opaque-payload protocol: a command payload exposes a byte encoding,
//! its required rights, and a deterministic to-be-signed serialisation over
//! the command envelope, so that signatures bind the envelope.

use vstd::prelude::*;
use vstd::bytes::{spec_u64_to_le_bytes, u64_to_le_bytes};
use crate::types::AlgSuite;
use crate::primitives::{CID, ReplicaID, copy_bytes};
use crate::digest::append_slice;

verus! {

/// Errors of payload encoding, decoding, and signed-byte serialisation.
#[derive(Debug, Clone, PartialEq, Eq)]
pub enum CommandTraitError {
    Encoding(String),
    Decoding(String),
    Signing(String),
    Other(String),
}

/// A command payload the kernel can carry. Encoding and the to-be-signed
/// serialisation are deterministic: each implementation fixes them through
/// its spec functions.
pub trait EncodedCmd: Sized {
    /// Error type of decoding and signed-byte serialisation.
    type Error;

    /// What `encode` returns.
    spec fn encode_spec(&self) -> Seq<u8>;

    /// What `required_rights` returns.
    spec fn required_rights_spec(&self) -> u32;

    /// What `to_signed_bytes` returns for the given envelope fields, or
    /// `None` when serialisation fails.
    spec fn signed_bytes_spec(
        &self,
        command_id: Seq<u8>,
        alg_suite: AlgSuite,
        replica: Seq<u8>,
        capability: Seq<u8>,
        lclock: u64,
    ) -> Option<Seq<u8>>;

    /// Encodes the payload for storage or transmission.
    fn encode(&self) -> (r: Vec<u8>)
        ensures
            r@ == self.encode_spec(),
    ;

    /// Decodes a payload from bytes.
    fn decode(bytes: &[u8]) -> Result<Self, Self::Error>;

    /// The rights mask this payload requires of the authorising capability.
    fn required_rights(&self) -> (r: u32)
        ensures
            r == self.required_rights_spec(),
    ;

    /// The deterministic byte serialisation that is signed: it must include
    /// every envelope field exactly once, in a fixed order.
    fn to_signed_bytes(
        &self,
        command_id: &CID,
        alg_suite: AlgSuite,
        replica: &ReplicaID,
        capability: &CID,
        lclock: u64,
    ) -> (r: Result<Vec<u8>, Self::Error>)
        ensures
            match r {
                Ok(v) => self.signed_bytes_spec(command_id@, alg_suite, replica@, capability@, lclock)
                    matches Some(s) && v@ == s,
                Err(_) => self.signed_bytes_spec(
                    command_id@,
                    alg_suite,
                    replica@,
                    capability@,
                    lclock,
                ) is None,
            },
    ;
}

/// Error type of the plain byte-vector payload; it never actually occurs.
#[derive(Debug, Clone, PartialEq, Eq)]
pub struct VecCmdError(String);

/// A raw byte vector as a payload: it encodes as itself, requires no
/// rights, and its to-be-signed bytes are the envelope fields in order
/// followed by the payload bytes.
impl EncodedCmd for Vec<u8> {
    type Error = VecCmdError;

    open spec fn encode_spec(&self) -> Seq<u8> {
        self@
    }

    open spec fn required_rights_spec(&self) -> u32 {
        0
    }

    open spec fn signed_bytes_spec(
        &self,
        command_id: Seq<u8>,
        alg_suite: AlgSuite,
        replica: Seq<u8>,
        capability: Seq<u8>,
        lclock: u64,
    ) -> Option<Seq<u8>> {
        Some(
            command_id + seq![alg_suite.spec_tag()] + replica + capability + spec_u64_to_le_bytes(
                lclock,
            ) + self@,
        )
    }

    fn encode(&self) -> (r: Vec<u8>) {
        copy_bytes(self)
    }

    fn decode(bytes: &[u8]) -> Result<Self, VecCmdError> {
        Ok(vstd::slice::slice_to_vec(bytes))
    }

    fn required_rights(&self) -> (r: u32) {
        0
    }

    fn to_signed_bytes(
        &self,
        command_id: &CID,
        alg_suite: AlgSuite,
        replica: &ReplicaID,
        capability: &CID,
        lclock: u64,
    ) -> (r: Result<Vec<u8>, VecCmdError>) {
        let mut bytes: Vec<u8> = Vec::new();
        append_slice(&mut bytes, command_id.0.as_slice());
        bytes.push(alg_suite.tag());
        append_slice(&mut bytes, replica.0.as_slice());
        append_slice(&mut bytes, capability.0.as_slice());
        let lc = u64_to_le_bytes(lclock);
        append_slice(&mut bytes, lc.as_slice());
        append_slice(&mut bytes, self.as_slice());
        proof {
            assert(bytes@ =~= command_id@ + seq![alg_suite.spec_tag()] + replica@ + capability@
                + spec_u64_to_le_bytes(lclock) + self@);
        }
        Ok(bytes)
    }
}

} // verus!

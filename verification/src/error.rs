//! Kernel error taxonomy: every way a command can be rejected, each tied by
//! the kernel's contracts to exactly the inputs on which it occurs.

use vstd::prelude::*;
use vstd::string::StringExecFns;
use crate::crypto::CryptoError;

verus! {

/// Errors of kernel operations: command validation and application.
#[derive(Debug, Clone, PartialEq, Eq)]
pub enum KernelError {
    /// The referenced capability is missing from state.
    CapabilityNotFound,
    /// The command's suite tag differs from the capability's.
    AlgorithmSuiteMismatch,
    /// A cryptographic operation failed.
    Crypto(CryptoError),
    /// The capability does not grant the rights the payload requires.
    InsufficientRights,
    /// The command's proposed Lamport clock is behind the local clock.
    InvalidCommandLClock,
    /// The capability's Lamport expiry has been reached.
    CapabilityExpired,
    /// The runtime's delta violates a state invariant.
    InvariantViolation(String),
    /// The runtime rejected the command.
    RuntimeError(String),
    /// Any other failure.
    Other(String),
}

/// Message of the Lamport-overflow refusal.
pub open spec fn msg_lamport_overflow() -> Seq<char> {
    "Replica has reached maximum Lamport clock value and cannot process further commands."@
}

/// Message reported when a new entity's identifier already exists.
pub open spec fn msg_new_entity_exists() -> Seq<char> {
    "New entity CID already exists in state"@
}

/// Message reported when an updated entity skips or repeats a version.
pub open spec fn msg_version_monotonicity() -> Seq<char> {
    "Entity version monotonicity violated"@
}

/// Message reported when an updated entity has no prior version in state.
pub open spec fn msg_updated_entity_missing() -> Seq<char> {
    "Updated entity with CID not found in state"@
}

/// Message reported when a delta entity's Lamport stamp differs from the
/// event's.
pub open spec fn msg_entity_lclock_mismatch() -> Seq<char> {
    "Entity lclock must equal event lclock"@
}

/// Message reported when the payload's to-be-signed serialisation fails.
pub open spec fn msg_signed_bytes_failure() -> Seq<char> {
    "Failed to get signed bytes from command payload"@
}

/// The error a wedged replica answers every further command with.
pub fn lamport_overflow_error() -> (e: KernelError)
    ensures
        e matches KernelError::Other(m) && m@ == msg_lamport_overflow(),
{
    KernelError::Other(
        String::from_str(
            "Replica has reached maximum Lamport clock value and cannot process further commands.",
        ),
    )
}

/// Invariant violation: a new entity's identifier already exists.
pub fn new_entity_exists_error() -> (e: KernelError)
    ensures
        e matches KernelError::InvariantViolation(m) && m@ == msg_new_entity_exists(),
{
    KernelError::InvariantViolation(String::from_str("New entity CID already exists in state"))
}

/// Invariant violation: an updated entity's version is not the prior
/// version plus one.
pub fn version_monotonicity_error() -> (e: KernelError)
    ensures
        e matches KernelError::InvariantViolation(m) && m@ == msg_version_monotonicity(),
{
    KernelError::InvariantViolation(String::from_str("Entity version monotonicity violated"))
}

/// Invariant violation: an updated entity has no prior version in state.
pub fn updated_entity_missing_error() -> (e: KernelError)
    ensures
        e matches KernelError::InvariantViolation(m) && m@ == msg_updated_entity_missing(),
{
    KernelError::InvariantViolation(String::from_str("Updated entity with CID not found in state"))
}

/// Invariant violation: a delta entity's Lamport stamp differs from the
/// event's.
pub fn entity_lclock_mismatch_error() -> (e: KernelError)
    ensures
        e matches KernelError::InvariantViolation(m) && m@ == msg_entity_lclock_mismatch(),
{
    KernelError::InvariantViolation(String::from_str("Entity lclock must equal event lclock"))
}

/// The payload's to-be-signed serialisation failed.
pub fn signed_bytes_failure_error() -> (e: KernelError)
    ensures
        e matches KernelError::Other(m) && m@ == msg_signed_bytes_failure(),
{
    KernelError::Other(String::from_str("Failed to get signed bytes from command payload"))
}

} // verus!

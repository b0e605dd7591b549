//! A deterministic replicated state-machine kernel for an economic-state
//! substrate: signed commands are validated under capability-based access
//! control, committed under invariants, and materialised into
//! content-addressed events stamped with Lamport and vector clocks.

/// Shared tag types: the algorithm suite and its byte encoding.
pub mod types;
/// Identifiers, entities, capabilities, commands and events.
pub mod primitives;
/// Lexicographic byte ordering and the canonical identifier sort.
pub mod ordering;
/// Vector clocks: canonical representation, merge, comparison.
pub mod vclock;
/// The rights algebra: canonicalisation and sufficiency.
pub mod rights;
/// The crypto abstraction boundary and the placeholder provider.
pub mod crypto;
/// The CLASSIC suite: BLAKE3-256 and Ed25519.
pub mod classic;
/// The FIPS suite: SHA-3-256 and ECDSA P-256.
pub mod fips;
/// The opaque command-payload protocol.
pub mod command_traits;
/// The kernel error taxonomy.
pub mod error;
/// The authoritative state: capability and entity maps, event log.
pub mod state;
/// The pluggable, pure domain runtime.
pub mod runtime;
/// The deterministic event-hashing byte layout.
pub mod digest;
/// The kernel engine: validate, commit, stamp, materialise, ingest.
pub mod kernel;
/// The length-prefixed frame with its bit-exact reserved region.
pub mod framing;

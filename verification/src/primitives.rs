//! Core data model: identifiers, clock-stamped entities, capabilities,
//! commands and events, exactly as the kernel commits them.

use vstd::prelude::*;
use crate::vclock::VClock;

verus! {

/// A 32-byte content identifier, the output of the selected hash.
#[derive(Debug, Copy, Clone, PartialEq, Eq, Hash, PartialOrd, Ord)]
pub struct CidBytes(pub [u8; 32]);

/// The primary name for content identifiers.
pub type CID = CidBytes;

/// A 16-byte replica identifier.
#[derive(Debug, Copy, Clone, PartialEq, Eq, Hash, PartialOrd, Ord)]
pub struct ReplicaIdBytes(pub [u8; 16]);

/// The primary name for replica identifiers.
pub type ReplicaID = ReplicaIdBytes;

/// A 32-byte public key (sized for the CLASSIC suite).
#[derive(Debug, Copy, Clone, PartialEq, Eq, Hash, PartialOrd, Ord)]
pub struct PublicKeyBytes(pub [u8; 32]);

/// The primary name for public keys.
pub type PublicKey = PublicKeyBytes;

/// A 64-byte signature (sized for the CLASSIC suite).
#[derive(Debug, Copy, Clone, PartialEq, Eq, Hash, PartialOrd, Ord)]
pub struct SignatureBytes(pub [u8; 64]);

/// The primary name for signatures.
pub type Signature = SignatureBytes;

impl View for CidBytes {
    type V = Seq<u8>;

    open spec fn view(&self) -> Seq<u8> {
        self.0@
    }
}

impl View for ReplicaIdBytes {
    type V = Seq<u8>;

    open spec fn view(&self) -> Seq<u8> {
        self.0@
    }
}

impl View for PublicKeyBytes {
    type V = Seq<u8>;

    open spec fn view(&self) -> Seq<u8> {
        self.0@
    }
}

impl View for SignatureBytes {
    type V = Seq<u8>;

    open spec fn view(&self) -> Seq<u8> {
        self.0@
    }
}

/// A type that can serve as the serialisable body of an entity: it encodes
/// deterministically to bytes and decodes back.
pub trait EncodedState: Sized {
    /// Error type of decoding.
    type DecodeError;

    /// What `encode` returns.
    spec fn encode_spec(&self) -> Seq<u8>;

    /// Encodes the body for storage.
    fn encode(&self) -> (r: Vec<u8>)
        ensures
            r@ == self.encode_spec(),
    ;

    /// Decodes a body from bytes.
    fn decode(data: &[u8]) -> Result<Self, Self::DecodeError>;
}

/// Error type of the plain byte-vector body; it never actually occurs.
#[derive(Debug, Clone, PartialEq, Eq)]
pub struct VecU8DecodeError(String);

/// A raw byte vector as an entity body: it encodes as itself.
impl EncodedState for Vec<u8> {
    type DecodeError = VecU8DecodeError;

    open spec fn encode_spec(&self) -> Seq<u8> {
        self@
    }

    fn encode(&self) -> (r: Vec<u8>) {
        copy_bytes(self)
    }

    fn decode(data: &[u8]) -> Result<Self, VecU8DecodeError> {
        Ok(vstd::slice::slice_to_vec(data))
    }
}

/// Header of an entity: its stable identifier and version/clock stamps.
#[derive(Debug, Copy, Clone, PartialEq, Eq)]
pub struct EntityHeader {
    /// Content identifier, stable across versions.
    pub id: CID,
    /// Version, incremented by exactly one on each update.
    pub version: u64,
    /// Lamport stamp of the event that produced this version.
    pub lclock: u64,
    /// Optional parent entity.
    pub parent: Option<CID>,
}

/// A versioned piece of domain state: a header plus an opaque body.
#[derive(Debug, Clone, PartialEq, Eq)]
pub struct Entity<E> {
    pub header: EntityHeader,
    pub body: E,
}

/// The mathematical value of an entity whose body is a byte vector: the
/// header (all plain values) and the body as a byte sequence.
pub struct EntityModel {
    pub header: EntityHeader,
    pub body: Seq<u8>,
}

impl View for Entity<Vec<u8>> {
    type V = EntityModel;

    open spec fn view(&self) -> EntityModel {
        EntityModel { header: self.header, body: self.body@ }
    }
}

/// A capability: a signed grant attaching a rights mask to a holder public
/// key over a target entity. Capabilities are inserted into state by prior
/// issuing events; the kernel treats them as given references.
#[derive(Debug, Copy, Clone, PartialEq, Eq)]
pub struct Capability {
    pub id: CID,
    /// Algorithm-suite byte tag.
    pub alg_suite: u8,
    /// Public key of the capability holder.
    pub holder: PublicKey,
    /// The entity this capability targets.
    pub target_entity: CID,
    /// Rights mask granted to the holder.
    pub rights: u32,
    /// Nonce preventing replay.
    pub nonce: u64,
    /// Optional Lamport-clock expiry.
    pub expiry_lc: Option<u64>,
    /// Reserved 16-bit overlay tag.
    pub kind: u16,
    /// Signature by the capability holder.
    pub signature: Signature,
}

impl View for Capability {
    type V = Capability;

    open spec fn view(&self) -> Capability {
        *self
    }
}

/// A signed command envelope requesting a state change, authorised by a
/// capability. The payload `P` is opaque to the kernel.
#[derive(Debug, Clone, PartialEq, Eq)]
pub struct Command<P> {
    /// Unique identifier of the command.
    pub id: CID,
    /// Algorithm-suite byte tag.
    pub alg_suite: u8,
    /// Replica that submitted the command.
    pub replica: ReplicaID,
    /// Capability authorising this command.
    pub capability: CID,
    /// Lamport time proposed by the submitting replica.
    pub lclock: u64,
    /// Optional vector clock from the submitting replica.
    pub vclock: Option<VClock>,
    /// Command-specific payload.
    pub payload: P,
    /// Signature by the capability holder over the envelope and payload.
    pub signature: Signature,
}

/// A committed event: the content-addressed, clock-stamped outcome of a
/// command, appended to the event log and never mutated.
#[derive(Debug, Clone, PartialEq, Eq)]
pub struct Event {
    /// Content identifier derived from the canonical byte layout.
    pub id: CID,
    /// Algorithm-suite byte tag, taken from the command.
    pub alg_suite: u8,
    /// The committing replica.
    pub replica: ReplicaID,
    /// The command that caused this event.
    pub caused_by: CID,
    /// Lamport timestamp assigned by the kernel.
    pub lclock: u64,
    /// Vector clock of the event; always present.
    pub vclock: VClock,
    /// Identifiers of entities created by this event, in delta order.
    pub new_entities: Vec<CID>,
    /// Identifiers of entities updated by this event, in delta order.
    pub updated_entities: Vec<CID>,
    /// Opaque forward-compatibility region, preserved bit-exact on relay.
    pub reserved: Vec<u8>,
}

/// Copies a vector of content identifiers.
fn copy_cids(v: &Vec<CID>) -> (r: Vec<CID>)
    ensures
        r@ == v@,
{
    let n = v.len();
    let mut out: Vec<CID> = Vec::new();
    let mut i: usize = 0;
    while i < n
        invariant
            0 <= i <= n,
            n == v@.len(),
            out@ == v@.take(i as int),
        decreases n - i,
    {
        out.push(v[i]);
        proof {
            assert(out@ =~= v@.take(i + 1));
        }
        i = i + 1;
    }
    proof {
        assert(out@ =~= v@);
    }
    out
}

/// Copies a byte vector.
pub fn copy_bytes(v: &Vec<u8>) -> (r: Vec<u8>)
    ensures
        r@ == v@,
{
    let n = v.len();
    let mut out: Vec<u8> = Vec::new();
    let mut i: usize = 0;
    while i < n
        invariant
            0 <= i <= n,
            n == v@.len(),
            out@ == v@.take(i as int),
        decreases n - i,
    {
        out.push(v[i]);
        proof {
            assert(out@ =~= v@.take(i + 1));
        }
        i = i + 1;
    }
    proof {
        assert(out@ =~= v@);
    }
    out
}

impl Entity<Vec<u8>> {
    /// An exact copy of this entity.
    pub fn duplicate(&self) -> (r: Entity<Vec<u8>>)
        ensures
            r@ == self@,
    {
        Entity { header: self.header, body: copy_bytes(&self.body) }
    }
}

impl Event {
    /// An exact copy of this event, field for field.
    pub fn duplicate(&self) -> (r: Event)
        ensures
            r.id == self.id,
            r.alg_suite == self.alg_suite,
            r.replica == self.replica,
            r.caused_by == self.caused_by,
            r.lclock == self.lclock,
            r.vclock@ == self.vclock@,
            r.vclock.wf() == self.vclock.wf(),
            r.new_entities@ == self.new_entities@,
            r.updated_entities@ == self.updated_entities@,
            r.reserved@ == self.reserved@,
    {
        Event {
            id: self.id,
            alg_suite: self.alg_suite,
            replica: self.replica,
            caused_by: self.caused_by,
            lclock: self.lclock,
            vclock: self.vclock.duplicate(),
            new_entities: copy_cids(&self.new_entities),
            updated_entities: copy_cids(&self.updated_entities),
            reserved: copy_bytes(&self.reserved),
        }
    }
}

} // verus!

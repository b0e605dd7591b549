//! The deterministic byte layout hashed to derive an event's content
//! identifier: fixed widths, little-endian integers, entity identifiers in
//! sorted order, vector-clock entries sorted by replica, and a
//! length-prefixed reserved region.

use vstd::prelude::*;
use vstd::bytes::{spec_u64_to_le_bytes, spec_u32_to_le_bytes, u64_to_le_bytes, u32_to_le_bytes};
use crate::primitives::{CID, ReplicaID};
use crate::vclock::{VClock, VcEntry};
use crate::ordering::{cid_views, lex_le_order, sort_cids};

verus! {

/// Concatenation of a sequence of byte sequences, in order.
pub open spec fn concat_all(s: Seq<Seq<u8>>) -> Seq<u8>
    decreases s.len(),
{
    if s.len() == 0 {
        Seq::empty()
    } else {
        concat_all(s.drop_last()) + s.last()
    }
}

/// The vector-clock section body: each entry is 16 bytes of replica
/// identifier followed by the 8-byte little-endian timestamp, in entry
/// order.
pub open spec fn vc_section(entries: Seq<VcEntry>) -> Seq<u8>
    decreases entries.len(),
{
    if entries.len() == 0 {
        Seq::empty()
    } else {
        vc_section(entries.drop_last()) + entries.last().0@ + spec_u64_to_le_bytes(
            entries.last().1,
        )
    }
}

/// The canonical event-hashing byte layout, in this exact order: the causing
/// command identifier (32 bytes), the event Lamport clock (8 bytes
/// little-endian), the committing replica identifier (16 bytes), the
/// algorithm-suite tag (1 byte), the new-entity identifiers sorted into
/// ascending byte order, the updated-entity identifiers likewise, a presence
/// marker byte 1 followed by the vector-clock entries ascending by replica,
/// and the reserved region prefixed by its 4-byte little-endian length.
pub open spec fn spec_event_hash_input(
    caused_by_command_id: Seq<u8>,
    event_lclock: u64,
    event_replica_id: Seq<u8>,
    event_alg_suite_tag: u8,
    new_entities_cids: Seq<Seq<u8>>,
    updated_entities_cids: Seq<Seq<u8>>,
    vc_entries: Seq<VcEntry>,
    reserved_bytes: Seq<u8>,
) -> Seq<u8> {
    caused_by_command_id + spec_u64_to_le_bytes(event_lclock) + event_replica_id + seq![
        event_alg_suite_tag,
    ] + concat_all(new_entities_cids.sort_by(lex_le_order())) + concat_all(
        updated_entities_cids.sort_by(lex_le_order()),
    ) + seq![1u8] + vc_section(vc_entries) + spec_u32_to_le_bytes(
        reserved_bytes.len() as u32,
    ) + reserved_bytes
}

/// Appends a byte slice to a byte vector.
pub fn append_slice(dst: &mut Vec<u8>, src: &[u8])
    ensures
        final(dst)@ == old(dst)@ + src@,
{
    let n = src.len();
    let mut i: usize = 0;
    while i < n
        invariant
            0 <= i <= n,
            n == src@.len(),
            dst@ == old(dst)@ + src@.take(i as int),
        decreases n - i,
    {
        dst.push(src[i]);
        proof {
            assert(old(dst)@ + src@.take(i + 1) =~= (old(dst)@ + src@.take(i as int)).push(
                src@[i as int],
            ));
        }
        i = i + 1;
    }
    proof {
        assert(src@.take(n as int) =~= src@);
    }
}

/// Appends the identity fields of an event: causing command identifier,
/// Lamport clock, replica identifier, and algorithm-suite tag.
pub fn append_event_identity_for_digest(
    bytes: &mut Vec<u8>,
    caused_by_command_id: &CID,
    event_lclock: u64,
    event_replica_id: &ReplicaID,
    event_alg_suite_tag: u8,
)
    ensures
        final(bytes)@ == old(bytes)@ + caused_by_command_id@ + spec_u64_to_le_bytes(event_lclock)
            + event_replica_id@ + seq![event_alg_suite_tag],
{
    append_slice(bytes, caused_by_command_id.0.as_slice());
    let lc = u64_to_le_bytes(event_lclock);
    append_slice(bytes, lc.as_slice());
    append_slice(bytes, event_replica_id.0.as_slice());
    bytes.push(event_alg_suite_tag);
    proof {
        assert(bytes@ =~= old(bytes)@ + caused_by_command_id@ + spec_u64_to_le_bytes(event_lclock)
            + event_replica_id@ + seq![event_alg_suite_tag]);
    }
}

/// Appends a list of content identifiers in ascending lexicographic byte
/// order, 32 raw bytes each.
pub fn append_cids_for_digest(bytes: &mut Vec<u8>, cids: &[CID])
    ensures
        final(bytes)@ == old(bytes)@ + concat_all(cid_views(cids@).sort_by(lex_le_order())),
{
    let owned = vstd::slice::slice_to_vec(cids);
    let sorted = sort_cids(&owned);
    let ghost views = cid_views(sorted@);
    let n = sorted.len();
    proof {
        assert(views.take(0) =~= Seq::<Seq<u8>>::empty());
        assert(bytes@ =~= old(bytes)@ + concat_all(views.take(0)));
    }
    let mut i: usize = 0;
    while i < n
        invariant
            0 <= i <= n,
            n == sorted@.len(),
            views == cid_views(sorted@),
            bytes@ == old(bytes)@ + concat_all(views.take(i as int)),
        decreases n - i,
    {
        append_slice(bytes, sorted[i].0.as_slice());
        proof {
            assert(views.take(i + 1).drop_last() =~= views.take(i as int));
            assert(views.take(i + 1).last() == sorted@[i as int]@);
            assert(bytes@ =~= old(bytes)@ + concat_all(views.take(i + 1)));
        }
        i = i + 1;
    }
    proof {
        assert(views.take(n as int) =~= views);
    }
}

/// Appends the vector-clock section: a marker byte 1, then each entry as 16
/// bytes of replica identifier and an 8-byte little-endian timestamp,
/// ascending by replica identifier.
pub fn append_vector_clock_for_digest(bytes: &mut Vec<u8>, vclock: &VClock)
    ensures
        final(bytes)@ == old(bytes)@ + seq![1u8] + vc_section(vclock.spec_entries()),
{
    bytes.push(1);
    let entries = vclock.entries_vec();
    let ghost s = vclock.spec_entries();
    let n = entries.len();
    proof {
        assert(vc_section(s.take(0)) =~= Seq::<u8>::empty());
        assert(bytes@ =~= old(bytes)@ + seq![1u8] + vc_section(s.take(0)));
    }
    let mut i: usize = 0;
    while i < n
        invariant
            0 <= i <= n,
            n == s.len(),
            entries@ == s,
            bytes@ == old(bytes)@ + seq![1u8] + vc_section(s.take(i as int)),
        decreases n - i,
    {
        let (r, v) = entries[i];
        append_slice(bytes, r.0.as_slice());
        let ts = u64_to_le_bytes(v);
        append_slice(bytes, ts.as_slice());
        proof {
            assert(s.take(i + 1).drop_last() =~= s.take(i as int));
            assert(s.take(i + 1).last() == s[i as int]);
            assert(bytes@ =~= old(bytes)@ + seq![1u8] + vc_section(s.take(i + 1)));
        }
        i = i + 1;
    }
    proof {
        assert(s.take(n as int) =~= s);
    }
}

/// Serialises the event fields into the canonical hash-input byte layout.
pub fn get_event_hash_input(
    caused_by_command_id: &CID,
    event_lclock: u64,
    event_replica_id: &ReplicaID,
    event_alg_suite_tag: u8,
    new_entities_cids: &[CID],
    updated_entities_cids: &[CID],
    vector_clock: &VClock,
    reserved_bytes: &[u8],
) -> (r: Vec<u8>)
    ensures
        r@ == spec_event_hash_input(
            caused_by_command_id@,
            event_lclock,
            event_replica_id@,
            event_alg_suite_tag,
            cid_views(new_entities_cids@),
            cid_views(updated_entities_cids@),
            vector_clock.spec_entries(),
            reserved_bytes@,
        ),
{
    let mut bytes: Vec<u8> = Vec::new();
    append_event_identity_for_digest(
        &mut bytes,
        caused_by_command_id,
        event_lclock,
        event_replica_id,
        event_alg_suite_tag,
    );
    append_cids_for_digest(&mut bytes, new_entities_cids);
    append_cids_for_digest(&mut bytes, updated_entities_cids);
    append_vector_clock_for_digest(&mut bytes, vector_clock);
    let len32: u32 = reserved_bytes.len() as u32;
    let len_prefix = u32_to_le_bytes(len32);
    append_slice(&mut bytes, len_prefix.as_slice());
    append_slice(&mut bytes, reserved_bytes);
    proof {
        assert(bytes@ =~= spec_event_hash_input(
            caused_by_command_id@,
            event_lclock,
            event_replica_id@,
            event_alg_suite_tag,
            cid_views(new_entities_cids@),
            cid_views(updated_entities_cids@),
            vector_clock.spec_entries(),
            reserved_bytes@,
        ));
    }
    bytes
}

/// Hash-input determinism: the layout depends only on the sets of entity
/// identifiers (not their order) and on the vector clock's mathematical
/// value (not the order its entries were assembled in). Together with a
/// deterministic hash this makes the derived event identifier canonical.
pub proof fn lemma_event_hash_input_deterministic(
    caused_by_command_id: Seq<u8>,
    event_lclock: u64,
    event_replica_id: Seq<u8>,
    event_alg_suite_tag: u8,
    new1: Seq<Seq<u8>>,
    new2: Seq<Seq<u8>>,
    upd1: Seq<Seq<u8>>,
    upd2: Seq<Seq<u8>>,
    vc1: &VClock,
    vc2: &VClock,
    reserved_bytes: Seq<u8>,
)
    requires
        new1.to_multiset() == new2.to_multiset(),
        upd1.to_multiset() == upd2.to_multiset(),
        vc1.wf(),
        vc2.wf(),
        vc1@ == vc2@,
    ensures
        spec_event_hash_input(
            caused_by_command_id,
            event_lclock,
            event_replica_id,
            event_alg_suite_tag,
            new1,
            upd1,
            vc1.spec_entries(),
            reserved_bytes,
        ) == spec_event_hash_input(
            caused_by_command_id,
            event_lclock,
            event_replica_id,
            event_alg_suite_tag,
            new2,
            upd2,
            vc2.spec_entries(),
            reserved_bytes,
        ),
{
    crate::ordering::lemma_sort_permutation_invariant(new1, new2);
    crate::ordering::lemma_sort_permutation_invariant(upd1, upd2);
    VClock::lemma_canonical(vc1, vc2);
}

} // verus!

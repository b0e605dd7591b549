//! A self-delimiting byte frame: a length-prefixed body followed by the
//! length-prefixed reserved region, the forward-compatibility layout whose
//! reserved bytes a relay must preserve bit-exact.

use vstd::prelude::*;
use vstd::bytes::{spec_u32_to_le_bytes, spec_u32_from_le_bytes, u32_to_le_bytes, u32_from_le_bytes,
    lemma_auto_spec_u32_to_from_le_bytes};
use vstd::slice::{slice_subrange, slice_to_vec};
use crate::digest::append_slice;

verus! {

/// A decoded frame: the body and the opaque trailing reserved region.
#[derive(Debug, Clone, PartialEq, Eq)]
pub struct Frame {
    /// The frame body.
    pub body: Vec<u8>,
    /// The reserved region, carried verbatim.
    pub reserved: Vec<u8>,
}

/// Errors of frame decoding.
#[derive(Debug, Clone, Copy, PartialEq, Eq, Structural)]
pub enum FrameError {
    /// The input ends before the bytes its length prefixes announce.
    Truncated,
    /// The input continues past the bytes its length prefixes announce.
    TrailingBytes,
}

/// The encoded form of a frame: 4-byte little-endian body length, the body,
/// 4-byte little-endian reserved length, the reserved bytes.
pub open spec fn spec_frame_bytes(body: Seq<u8>, reserved: Seq<u8>) -> Seq<u8> {
    spec_u32_to_le_bytes(body.len() as u32) + body + spec_u32_to_le_bytes(reserved.len() as u32)
        + reserved
}

/// What decoding returns for any input: the body and reserved byte
/// sequences when the input is exactly one well-formed frame, or the
/// decoding error.
pub open spec fn spec_decode_frame(bytes: Seq<u8>) -> Result<(Seq<u8>, Seq<u8>), FrameError> {
    if bytes.len() < 4 {
        Err(FrameError::Truncated)
    } else {
        let bl = spec_u32_from_le_bytes(bytes.subrange(0, 4)) as int;
        if bytes.len() < bl + 8 {
            Err(FrameError::Truncated)
        } else {
            let rl = spec_u32_from_le_bytes(bytes.subrange(4 + bl, 8 + bl)) as int;
            if bytes.len() < 8 + bl + rl {
                Err(FrameError::Truncated)
            } else if bytes.len() > 8 + bl + rl {
                Err(FrameError::TrailingBytes)
            } else {
                Ok((bytes.subrange(4, 4 + bl), bytes.subrange(8 + bl, 8 + bl + rl)))
            }
        }
    }
}

/// A well-formed encoding: exactly one frame.
pub open spec fn spec_frame_well_formed(bytes: Seq<u8>) -> bool {
    spec_decode_frame(bytes) is Ok
}

/// Encodes a frame: each part prefixed by its 4-byte little-endian length.
pub fn encode_frame(frame: &Frame) -> (r: Vec<u8>)
    requires
        frame.body@.len() <= u32::MAX,
        frame.reserved@.len() <= u32::MAX,
    ensures
        r@ == spec_frame_bytes(frame.body@, frame.reserved@),
{
    let mut bytes: Vec<u8> = Vec::new();
    let bl = u32_to_le_bytes(frame.body.len() as u32);
    append_slice(&mut bytes, bl.as_slice());
    append_slice(&mut bytes, frame.body.as_slice());
    let rl = u32_to_le_bytes(frame.reserved.len() as u32);
    append_slice(&mut bytes, rl.as_slice());
    append_slice(&mut bytes, frame.reserved.as_slice());
    proof {
        assert(bytes@ =~= spec_frame_bytes(frame.body@, frame.reserved@));
    }
    bytes
}

/// Decodes one frame from the input, which must contain exactly the frame:
/// body and reserved bytes are returned verbatim, and truncated or
/// oversized inputs are rejected.
pub fn decode_frame(bytes: &[u8]) -> (r: Result<Frame, FrameError>)
    ensures
        match r {
            Ok(f) => spec_decode_frame(bytes@) matches Ok(p) && f.body@ == p.0 && f.reserved@
                == p.1,
            Err(e) => spec_decode_frame(bytes@) == Result::<(Seq<u8>, Seq<u8>), FrameError>::Err(
                e,
            ),
        },
{
    let n = bytes.len();
    if n < 4 {
        return Err(FrameError::Truncated);
    }
    let bl32 = u32_from_le_bytes(slice_subrange(bytes, 0, 4));
    let bl = bl32 as usize;
    if n < 8 || n - 8 < bl {
        proof {
            assert(bytes@.len() < bl + 8);
        }
        return Err(FrameError::Truncated);
    }
    let rl32 = u32_from_le_bytes(slice_subrange(bytes, 4 + bl, 8 + bl));
    let rl = rl32 as usize;
    if n - 8 - bl < rl {
        proof {
            assert(bytes@.len() < 8 + bl + rl);
        }
        return Err(FrameError::Truncated);
    }
    if n - 8 - bl > rl {
        return Err(FrameError::TrailingBytes);
    }
    let body = slice_to_vec(slice_subrange(bytes, 4, 4 + bl));
    let reserved = slice_to_vec(slice_subrange(bytes, 8 + bl, 8 + bl + rl));
    proof {
        assert(bytes@.len() == 8 + bl + rl);
    }
    Ok(Frame { body, reserved })
}

/// Reserved-region round trip: decoding an encoded frame yields the body
/// and the reserved region back bit-exact, for every body and reserved
/// content that fits the length prefixes.
pub proof fn lemma_frame_round_trip(body: Seq<u8>, reserved: Seq<u8>)
    requires
        body.len() <= u32::MAX,
        reserved.len() <= u32::MAX,
    ensures
        spec_decode_frame(spec_frame_bytes(body, reserved)) == Result::<
            (Seq<u8>, Seq<u8>),
            FrameError,
        >::Ok((body, reserved)),
{
    lemma_auto_spec_u32_to_from_le_bytes();
    let bytes = spec_frame_bytes(body, reserved);
    let bl = body.len() as int;
    let rl = reserved.len() as int;
    assert(spec_u32_to_le_bytes(body.len() as u32).len() == 4);
    assert(spec_u32_to_le_bytes(reserved.len() as u32).len() == 4);
    assert(bytes.len() == 8 + bl + rl);
    assert(bytes.subrange(0, 4) =~= spec_u32_to_le_bytes(body.len() as u32));
    assert(spec_u32_from_le_bytes(bytes.subrange(0, 4)) == body.len() as u32);
    assert(bytes.subrange(4 + bl, 8 + bl) =~= spec_u32_to_le_bytes(reserved.len() as u32));
    assert(spec_u32_from_le_bytes(bytes.subrange(4 + bl, 8 + bl)) == reserved.len() as u32);
    assert(bytes.subrange(4, 4 + bl) =~= body);
    assert(bytes.subrange(8 + bl, 8 + bl + rl) =~= reserved);
}

/// A well-formed input re-encodes to itself: whatever a frame was decoded
/// from is exactly its encoding, reserved bytes included.
pub proof fn lemma_frame_reencode(bytes: Seq<u8>)
    requires
        spec_frame_well_formed(bytes),
    ensures
        ({
            let p = spec_decode_frame(bytes)->Ok_0;
            spec_frame_bytes(p.0, p.1) == bytes
        }),
{
    lemma_auto_spec_u32_to_from_le_bytes();
    let p = spec_decode_frame(bytes)->Ok_0;
    let bl = spec_u32_from_le_bytes(bytes.subrange(0, 4)) as int;
    let rl = spec_u32_from_le_bytes(bytes.subrange(4 + bl, 8 + bl)) as int;
    assert(p.0 == bytes.subrange(4, 4 + bl));
    assert(p.1 == bytes.subrange(8 + bl, 8 + bl + rl));
    assert(p.0.len() == bl && p.1.len() == rl);
    assert(spec_u32_to_le_bytes(p.0.len() as u32) =~= bytes.subrange(0, 4));
    assert(spec_u32_to_le_bytes(p.1.len() as u32) =~= bytes.subrange(4 + bl, 8 + bl));
    assert(spec_frame_bytes(p.0, p.1) =~= bytes);
}

} // verus!

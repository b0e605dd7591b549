//! The rights algebra: canonicalisation (implication closure) over 32-bit
//! rights masks, and the sufficiency check used by the kernel to decide
//! whether a capability covers a command's required rights.

use vstd::prelude::*;

verus! {

/// A 32-bit rights mask. Bits 0 to 4 are the frozen core rights, bits 5 to 15
/// are reserved (passed through uninterpreted), bits 16 to 31 are free for
/// domain-defined overlays.
pub type RightsMask = u32;

/// Permission to observe an entity's state.
pub const READ: RightsMask = 1u32 << 0;

/// Permission to mutate an entity's state. Implies `READ`.
pub const WRITE: RightsMask = 1u32 << 1;

/// Permission to create a child capability with a subset of these rights.
pub const DELEGATE: RightsMask = 1u32 << 2;

/// Permission to create an independent capability.
pub const ISSUE: RightsMask = 1u32 << 3;

/// Permission to revoke an issued or delegated capability.
pub const REVOKE: RightsMask = 1u32 << 4;

/// A mask canonicalised: every right implied by a present right is added.
/// The only implication rule is `WRITE` implies `READ`; all other bits pass
/// through unchanged.
pub open spec fn spec_canonicalise(mask: RightsMask) -> RightsMask {
    if mask & WRITE == WRITE {
        mask | READ
    } else {
        mask
    }
}

/// `have` suffices for `need` when every bit of `need` is present in the
/// canonicalised `have`.
pub open spec fn spec_sufficient(have: RightsMask, need: RightsMask) -> bool {
    spec_canonicalise(have) & need == need
}

/// Adds to `mask` every right implied by a right already present
/// (`WRITE` implies `READ`).
pub fn canonicalise(mask: RightsMask) -> (r: RightsMask)
    ensures
        r == spec_canonicalise(mask),
{
    let mut m = mask;
    if m & WRITE == WRITE {
        m = m | READ;
    }
    m
}

/// Decides whether the possessed mask `have` covers the required mask `need`:
/// true exactly when `(canonicalise(have) & need) == need`.
pub fn sufficient(have: RightsMask, need: RightsMask) -> (r: bool)
    ensures
        r == spec_sufficient(have, need),
{
    let canonical_have = canonicalise(have);
    (canonical_have & need) == need
}

/// Canonicalisation is idempotent: canonicalising twice adds nothing more.
pub proof fn lemma_canonicalise_idempotent(mask: RightsMask)
    ensures
        spec_canonicalise(spec_canonicalise(mask)) == spec_canonicalise(mask),
{
    assert(spec_canonicalise(spec_canonicalise(mask)) == spec_canonicalise(mask)) by (bit_vector);
}

/// Canonicalisation is monotone: it only ever adds bits, so every bit of the
/// input mask is still present in the canonicalised mask.
pub proof fn lemma_canonicalise_monotone(mask: RightsMask)
    ensures
        spec_canonicalise(mask) & mask == mask,
{
    assert(spec_canonicalise(mask) & mask == mask) by (bit_vector);
}

/// Sufficiency is exactly the stated formula over the canonicalised mask:
/// `sufficient(have, need)` holds if and only if
/// `(canonicalise(have) & need) == need`.
pub proof fn lemma_sufficient_characterisation(have: RightsMask, need: RightsMask)
    ensures
        spec_sufficient(have, need) <==> (spec_canonicalise(have) & need == need),
{
}

} // verus!

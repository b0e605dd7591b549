//! Shared tag types: the algorithm-suite tag and its byte encoding.

use vstd::prelude::*;

verus! {

/// Algorithm suite for cryptographic operations. Each suite pairs a hash with
/// a signature scheme; at this layer the suite is only a tag. The byte
/// encoding is fixed: CLASSIC is 0, FIPS is 1, PQC is 2, HYBRID is 3, and
/// every other byte is rejected at conversion.
#[derive(Debug, Clone, Copy, PartialEq, Eq, Hash, Structural)]
pub enum AlgSuite {
    /// Best-effort profile (BLAKE3-256, Ed25519).
    CLASSIC,
    /// FIPS-140-3 profile (SHA-3-256, ECDSA P-256).
    FIPS,
    /// Post-quantum profile.
    PQC,
    /// Hybrid transition profile.
    HYBRID,
}

impl AlgSuite {
    /// The fixed byte encoding of this suite.
    pub open spec fn spec_tag(self) -> u8 {
        match self {
            AlgSuite::CLASSIC => 0,
            AlgSuite::FIPS => 1,
            AlgSuite::PQC => 2,
            AlgSuite::HYBRID => 3,
        }
    }

    /// The suite a byte tag denotes, if any.
    pub open spec fn spec_from_tag(tag: u8) -> Option<AlgSuite> {
        if tag == 0 {
            Some(AlgSuite::CLASSIC)
        } else if tag == 1 {
            Some(AlgSuite::FIPS)
        } else if tag == 2 {
            Some(AlgSuite::PQC)
        } else if tag == 3 {
            Some(AlgSuite::HYBRID)
        } else {
            None
        }
    }

    /// Returns the fixed byte tag of this suite.
    pub fn tag(&self) -> (r: u8)
        ensures
            r == self.spec_tag(),
    {
        match self {
            AlgSuite::CLASSIC => 0,
            AlgSuite::FIPS => 1,
            AlgSuite::PQC => 2,
            AlgSuite::HYBRID => 3,
        }
    }

    /// Converts a byte tag to a suite; tags outside the defined set are
    /// rejected with `None`.
    pub fn from_tag(tag: u8) -> (r: Option<AlgSuite>)
        ensures
            r == AlgSuite::spec_from_tag(tag),
    {
        if tag == 0 {
            Some(AlgSuite::CLASSIC)
        } else if tag == 1 {
            Some(AlgSuite::FIPS)
        } else if tag == 2 {
            Some(AlgSuite::PQC)
        } else if tag == 3 {
            Some(AlgSuite::HYBRID)
        } else {
            None
        }
    }
}

} // verus!

//! Shared constants: initialisation vectors and domain separation tags.
use vstd::prelude::*;

verus! {

/// Initialisation vector for the first state word.
pub const IV_S0: u128 = 0x9E3779B97F4A7C159E3779B97F4A7C15u128;

/// Initialisation vector for the second state word.
pub const IV_S1: u128 = 0x6C62272E07BB01426C62272E07BB0142u128;

/// Stream-domain differentiation mask applied to the second state word
/// before a branch identifier is mixed in.
pub const STREAM_INIT_MASK: u128 = 0xC0AC29B7C97C50DDC0AC29B7C97C50DDu128;

/// Domain separation tags. Each construction XORs its tag into the
/// initial state; `tag` gives the numeric value.
#[derive(Clone, Copy, Debug, PartialEq, Eq, Structural)]
pub enum Domain {
    Hash,
    Prng,
    Xof,
}

impl Domain {
    /// The numeric tag of the domain: 1 for hashing, 2 for the PRNG,
    /// 3 for the XOF.
    pub open spec fn spec_tag(self) -> u128 {
        match self {
            Domain::Hash => 1,
            Domain::Prng => 2,
            Domain::Xof => 3,
        }
    }

    #[verifier::when_used_as_spec(spec_tag)]
    pub fn tag(self) -> (t: u128)
        ensures
            t == self.spec_tag(),
    {
        match self {
            Domain::Hash => 1,
            Domain::Prng => 2,
            Domain::Xof => 3,
        }
    }
}

/// The three domains carry pairwise distinct tags.
pub proof fn lemma_domain_tags_distinct(a: Domain, b: Domain)
    requires
        a != b,
    ensures
        a.spec_tag() != b.spec_tag(),
{
}

} // verus!

//! Persistent pool state.
use vstd::prelude::*;

verus! {

broadcast use vstd::array::group_array_axioms;

/// A 32-byte account address: a public key or a program-derived address.
#[derive(Debug, Clone, Copy, PartialEq, Eq)]
pub struct Address {
    pub bytes: [u8; 32],
}

impl Address {
    /// Whether two addresses are the same, compared byte by byte.
    pub fn same_as(&self, other: &Address) -> (r: bool)
        ensures
            r == (*self == *other),
    {
        let mut i: usize = 0;
        while i < 32
            invariant
                0 <= i <= 32,
                forall|j: int| 0 <= j < i ==> self.bytes[j] == other.bytes[j],
            decreases 32 - i,
        {
            if self.bytes[i] != other.bytes[i] {
                return false;
            }
            i = i + 1;
        }
        proof {
            assert(self.bytes =~= other.bytes);
        }
        true
    }
}

/// Per-pool configuration: which mints it trades, who administers it, the
/// fee, and whether trading is paused.
///
/// `fee_bps` satisfies `fee_bps < FEE_DENOMINATOR` in every configuration
/// the instructions create.
#[derive(Debug, Clone, Copy, PartialEq, Eq)]
pub struct Config {
    pub seed: u64,
    pub authority: Option<Address>,
    pub mint_x: Address,
    pub mint_y: Address,
    pub fee_bps: u16,
    pub locked: bool,
    pub config_bump: u8,
    pub lp_bump: u8,
}

} // verus!

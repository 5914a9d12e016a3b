//! Bounds of masked values, shared by the register models.
use vstd::prelude::*;

verus! {

/// A word masked by `m` is at most `m`.
pub proof fn lemma_and_le(x: u32, m: u32)
    by (bit_vector)
    ensures
        x & m <= m,
{
}

/// A halfword masked by `m` is at most `m`.
pub proof fn lemma_and_le_u16(x: u16, m: u16)
    by (bit_vector)
    ensures
        x & m <= m,
{
}

} // verus!

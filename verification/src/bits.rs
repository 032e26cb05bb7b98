//! Small ambient facts about bit masking that the instruction
//! interpreter leans on.

use vstd::prelude::*;

verus! {

/// A low-nibble mask keeps a value at or below 0x0f.
pub broadcast proof fn lemma_low_nibble_bound(x: u8)
    ensures
        #[trigger] (x & 0x0f) <= 0x0f,
{
    assert(x & 0x0f <= 0x0f) by (bit_vector);
}

/// A single-bit mask keeps a value at or below 1.
pub broadcast proof fn lemma_low_bit_bound(x: u8)
    ensures
        #[trigger] (x & 0x01) <= 1,
{
    assert(x & 0x01 <= 1) by (bit_vector);
}

/// The top bit of a byte, shifted down, is at most 1.
pub broadcast proof fn lemma_high_bit_bound(x: u8)
    ensures
        #[trigger] (x >> 7) <= 1,
{
    assert(x >> 7 <= 1) by (bit_vector);
}

} // verus!

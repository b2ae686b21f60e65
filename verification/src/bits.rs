//! Single-bit access to packed byte buffers.
//!
//! The framebuffer planes index bits least-significant-first inside each
//! byte, while glyph/icon source bitmaps and the controller RAM payloads
//! index them most-significant-first; both orders are defined here once.
use vstd::prelude::*;

verus! {

/// Bit `i` of `b`, counted from the least significant end.
pub open spec fn bit_get(b: u8, i: u8) -> bool {
    (b >> i) & 1u8 == 1u8
}

/// Bit `i` of `b`, counted from the most significant end.
pub open spec fn bit_get_msb(b: u8, i: u8) -> bool {
    bit_get(b, (7 - i) as u8)
}

proof fn lemma_or_bit(b: u8, i: u8)
    by (bit_vector)
    requires
        i < 8,
    ensures
        forall|j: u8| j < 8 ==> #[trigger] bit_get(b | (1u8 << i), j) == (j == i || bit_get(b, j)),
{
}

proof fn lemma_and_not_bit(b: u8, i: u8)
    by (bit_vector)
    requires
        i < 8,
    ensures
        forall|j: u8|
            j < 8 ==> #[trigger] bit_get(b & !(1u8 << i), j) == (j != i && bit_get(b, j)),
{
}

pub proof fn lemma_bits_of_zero()
    by (bit_vector)
    ensures
        forall|j: u8| j < 8 ==> !#[trigger] bit_get(0u8, j),
{
}

pub proof fn lemma_bits_of_ones()
    by (bit_vector)
    ensures
        forall|j: u8| j < 8 ==> #[trigger] bit_get(0xffu8, j),
{
}

/// Reads bit `i` (least-significant-first) of `b`.
pub fn read_bit(b: u8, i: u8) -> (r: bool)
    requires
        i < 8,
    ensures
        r == bit_get(b, i),
{
    (b >> i) & 1u8 == 1u8
}

/// Reads bit `i` counted from the most significant end of `b`.
pub fn read_bit_msb(b: u8, i: u8) -> (r: bool)
    requires
        i < 8,
    ensures
        r == bit_get_msb(b, i),
{
    read_bit(b, 7 - i)
}

/// Returns `b` with bit `i` (least-significant-first) set.
pub fn set_bit(b: u8, i: u8) -> (r: u8)
    requires
        i < 8,
    ensures
        forall|j: u8| j < 8 ==> #[trigger] bit_get(r, j) == (j == i || bit_get(b, j)),
{
    proof {
        lemma_or_bit(b, i);
    }
    b | (1u8 << i)
}

/// Returns `b` with bit `i` (least-significant-first) cleared.
pub fn clear_bit(b: u8, i: u8) -> (r: u8)
    requires
        i < 8,
    ensures
        forall|j: u8| j < 8 ==> #[trigger] bit_get(r, j) == (j != i && bit_get(b, j)),
{
    proof {
        lemma_and_not_bit(b, i);
    }
    b & !(1u8 << i)
}

/// Builds a byte vector of the given length whose bytes all equal `value`.
pub fn filled(len: usize, value: u8) -> (v: Vec<u8>)
    ensures
        v@ == Seq::new(len as nat, |i: int| value),
{
    let mut v: Vec<u8> = Vec::new();
    while v.len() < len
        invariant
            v@.len() <= len,
            forall|i: int| 0 <= i < v@.len() ==> v@[i] == value,
        decreases len - v@.len(),
    {
        v.push(value);
    }
    proof {
        assert(v@ =~= Seq::new(len as nat, |i: int| value));
    }
    v
}

} // verus!

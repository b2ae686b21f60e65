//! Weather-icon downsampling.
//!
//! The icon artwork comes as 64 x 64 packed monochrome bitmaps; the
//! forecast panel shows them at 32 x 32. Each output pixel covers a
//! 2 x 2 block of source pixels and is set when the block holds a
//! majority (more than two) of set bits.
use crate::bits::bit_get_msb;
use crate::bits::read_bit_msb;
use vstd::prelude::*;

verus! {

/// Bit `(i, j)` of a square packed bitmap with `size` pixels per row,
/// row-major, most significant bit first.
pub open spec fn icon_bit(image: Seq<u8>, size: int, i: int, j: int) -> bool {
    bit_get_msb(image[(i * size + j) / 8], ((i * size + j) % 8) as u8)
}

/// 1 for a set bit, 0 for a clear one.
pub open spec fn bit_ind(b: bool) -> int {
    if b {
        1
    } else {
        0
    }
}

/// Whether output pixel `(i, j)` of the downsampled icon is set: more
/// than two of the four source bits of its 2 x 2 block are.
pub open spec fn downsampled_bit(image: Seq<u8>, i: int, j: int) -> bool {
    bit_ind(icon_bit(image, 64, 2 * i, 2 * j)) + bit_ind(icon_bit(image, 64, 2 * i + 1, 2 * j))
        + bit_ind(icon_bit(image, 64, 2 * i, 2 * j + 1)) + bit_ind(
        icon_bit(image, 64, 2 * i + 1, 2 * j + 1),
    ) > 2
}

/// Indicator byte value of one downsampled pixel, by linear position.
pub open spec fn down_ind(image: Seq<u8>, pos: int) -> u8 {
    if downsampled_bit(image, pos / 32, pos % 32) {
        1u8
    } else {
        0u8
    }
}

/// Byte `k` of the downsampled icon: eight consecutive output pixels,
/// most significant bit first.
pub open spec fn icon_out_byte(image: Seq<u8>, k: int) -> u8 {
    (down_ind(image, 8 * k) << 7) | (down_ind(image, 8 * k + 1) << 6) | (down_ind(image, 8 * k + 2)
        << 5) | (down_ind(image, 8 * k + 3) << 4) | (down_ind(image, 8 * k + 4) << 3) | (down_ind(
        image,
        8 * k + 5,
    ) << 2) | (down_ind(image, 8 * k + 6) << 1) | down_ind(image, 8 * k + 7)
}

/// The 32 x 32 icon (128 packed bytes) downsampled from a 64 x 64 one.
pub open spec fn downsample_icon(image: Seq<u8>) -> Seq<u8> {
    Seq::new(128, |k: int| icon_out_byte(image, k))
}

/// Reads bit `(i, j)` of a packed square bitmap with `size` pixels per
/// row as 0 or 1.
pub fn get_bit(image: &[u8], size: usize, i: usize, j: usize) -> (r: u8)
    requires
        i * size + j < 8 * image@.len(),
        8 * image@.len() <= usize::MAX,
    ensures
        r == (if icon_bit(image@, size as int, i as int, j as int) {
            1u8
        } else {
            0u8
        }),
{
    let pos: usize = i * size + j;
    if read_bit_msb(image[pos / 8], (pos % 8) as u8) {
        1
    } else {
        0
    }
}

/// Whether output pixel `(i, j)` is set, as 0 or 1.
fn downsampled(image: &[u8], i: usize, j: usize) -> (r: u8)
    requires
        image@.len() == 512,
        i < 32,
        j < 32,
    ensures
        r == (if downsampled_bit(image@, i as int, j as int) {
            1u8
        } else {
            0u8
        }),
{
    let val: u8 = get_bit(image, 64, 2 * i, 2 * j) + get_bit(image, 64, 2 * i + 1, 2 * j) + get_bit(
        image,
        64,
        2 * i,
        2 * j + 1,
    ) + get_bit(image, 64, 2 * i + 1, 2 * j + 1);
    if val > 2 {
        1
    } else {
        0
    }
}

/// Downsamples a packed 64 x 64 icon (512 bytes) to 32 x 32 (128
/// bytes): an output bit is set when more than two of the four source
/// bits of its 2 x 2 block are.
pub fn build_32x32_icon(image: &[u8]) -> (r: Vec<u8>)
    requires
        image@.len() == 512,
    ensures
        r@ == downsample_icon(image@),
{
    let mut v: Vec<u8> = Vec::new();
    let mut k: usize = 0;
    while k < 128
        invariant
            k <= 128,
            image@.len() == 512,
            v@.len() == k,
            forall|t: int| 0 <= t < k ==> v@[t] == icon_out_byte(image@, t),
        decreases 128 - k,
    {
        let base: usize = 8 * k;
        let b0: u8 = self::downsampled(image, base / 32, base % 32);
        let b1: u8 = self::downsampled(image, (base + 1) / 32, (base + 1) % 32);
        let b2: u8 = self::downsampled(image, (base + 2) / 32, (base + 2) % 32);
        let b3: u8 = self::downsampled(image, (base + 3) / 32, (base + 3) % 32);
        let b4: u8 = self::downsampled(image, (base + 4) / 32, (base + 4) % 32);
        let b5: u8 = self::downsampled(image, (base + 5) / 32, (base + 5) % 32);
        let b6: u8 = self::downsampled(image, (base + 6) / 32, (base + 6) % 32);
        let b7: u8 = self::downsampled(image, (base + 7) / 32, (base + 7) % 32);
        let byte: u8 = (b0 << 7) | (b1 << 6) | (b2 << 5) | (b3 << 4) | (b4 << 3) | (b5 << 2) | (b6
            << 1) | b7;
        v.push(byte);
        k = k + 1;
    }
    proof {
        assert(v@ =~= downsample_icon(image@));
    }
    v
}

} // verus!

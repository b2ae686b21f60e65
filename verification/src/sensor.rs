//! Integrity check for DHT20 sensor transfers.
//!
//! The sensor answers a measurement request with seven bytes whose last
//! byte is a CRC-8 (polynomial 0x31, initial value 0xFF) of the bytes
//! before it; a mismatch marks a corrupted transfer.
use vstd::prelude::*;

verus! {

/// One round of the CRC-8 update: shift left and, when a bit carries
/// out, fold the polynomial 0x31 back in.
pub open spec fn crc8_round(crc: u8) -> u8 {
    if crc & 0x80 != 0 {
        (crc << 1) ^ 0x31
    } else {
        crc << 1
    }
}

/// `n` rounds of the CRC-8 update.
pub open spec fn crc8_rounds(crc: u8, n: nat) -> u8
    decreases n,
{
    if n == 0 {
        crc
    } else {
        crc8_rounds(crc8_round(crc), (n - 1) as nat)
    }
}

/// The CRC-8 state after absorbing `data` into `crc`: each byte is mixed
/// in by exclusive-or followed by eight update rounds.
pub open spec fn crc8_from(crc: u8, data: Seq<u8>) -> u8
    decreases data.len(),
{
    if data.len() == 0 {
        crc
    } else {
        crc8_from(crc8_rounds(crc ^ data[0], 8), data.drop_first())
    }
}

/// The CRC-8 checksum (polynomial 0x31, initial value 0xFF) of `data`.
pub open spec fn crc8(data: Seq<u8>) -> u8 {
    crc8_from(0xff, data)
}

/// Applying one more round after `n` rounds is the same as applying
/// `n` rounds one update later.
proof fn lemma_rounds_step(crc: u8, n: nat)
    ensures
        crc8_rounds(crc, n + 1) == crc8_round(crc8_rounds(crc, n)),
    decreases n,
{
    reveal_with_fuel(crc8_rounds, 2);
    if n > 0 {
        lemma_rounds_step(crc8_round(crc), (n - 1) as nat);
    }
}

/// Absorbing one more byte extends the fold on the right.
proof fn lemma_crc8_from_snoc(crc: u8, data: Seq<u8>, b: u8)
    ensures
        crc8_from(crc, data.push(b)) == crc8_rounds(crc8_from(crc, data) ^ b, 8),
    decreases data.len(),
{
    reveal_with_fuel(crc8_from, 2);
    if data.len() == 0 {
        assert(data.push(b).drop_first() =~= Seq::<u8>::empty());
    } else {
        assert(data.push(b).drop_first() =~= data.drop_first().push(b));
        lemma_crc8_from_snoc(crc8_rounds(crc ^ data[0], 8), data.drop_first(), b);
    }
}

/// The raw 20-bit humidity count of a transfer: byte 1, byte 2, and the
/// high half of byte 3.
pub open spec fn raw_humidity(data: Seq<u8>) -> int {
    data[1] * 4096 + data[2] * 16 + data[3] / 16
}

/// The raw 20-bit temperature count of a transfer: the low half of byte
/// 3, byte 4 and byte 5.
pub open spec fn raw_temperature(data: Seq<u8>) -> int {
    (data[3] % 16) * 65536 + data[4] * 256 + data[5]
}

/// Extracts the raw humidity and temperature counts from a sensor
/// transfer. Each count is a fraction of 2^20 full scale; the caller
/// scales them to physical units.
pub fn decode_reading(buffer: &[u8]) -> (r: (u32, u32))
    requires
        buffer@.len() >= 7,
    ensures
        r.0 == raw_humidity(buffer@),
        r.1 == raw_temperature(buffer@),
        r.0 < 1048576,
        r.1 < 1048576,
{
    let humidity: u32 = (buffer[1] as u32) * 4096 + (buffer[2] as u32) * 16 + (buffer[3] as u32)
        / 16;
    let temperature: u32 = ((buffer[3] as u32) % 16) * 65536 + (buffer[4] as u32) * 256 + (
    buffer[5] as u32);
    (humidity, temperature)
}

/// Checks a seven-byte sensor transfer: recomputes the CRC-8 of every
/// byte but the last and compares it against the seventh byte.
pub fn crc_check(buffer: &[u8]) -> (r: bool)
    requires
        buffer@.len() >= 7,
    ensures
        r == (crc8(buffer@.subrange(0, buffer@.len() as int - 1)) == buffer@[6]),
{
    let n: usize = buffer.len();
    let mut crc: u8 = 0xff;
    let mut idx: usize = 0;
    while idx < n - 1
        invariant
            7 <= n == buffer@.len(),
            idx <= n - 1,
            crc == crc8(buffer@.subrange(0, idx as int)),
        decreases n - 1 - idx,
    {
        let ghost prefix = buffer@.subrange(0, idx as int);
        let b: u8 = buffer[idx];
        let ghost mixed = (crc ^ b) as u8;
        crc = crc ^ b;
        let mut round: usize = 0;
        while round < 8
            invariant
                round <= 8,
                crc == crc8_rounds(mixed, round as nat),
            decreases 8 - round,
        {
            proof {
                lemma_rounds_step(mixed, round as nat);
            }
            if (crc & 0x80) != 0 {
                crc = (crc << 1) ^ 0x31;
            } else {
                crc = crc << 1;
            }
            round = round + 1;
        }
        proof {
            lemma_crc8_from_snoc(0xff, prefix, b);
            assert(prefix.push(b) =~= buffer@.subrange(0, idx as int + 1));
        }
        idx = idx + 1;
    }
    crc == buffer[6]
}

} // verus!

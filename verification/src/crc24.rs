//! CRC-24 checksum as used by the ASCII-armor footer (RFC 4880, section 6.1):
//! generator polynomial 0x864CFB, initial value 0xB704CE, computed over the
//! raw payload bytes before base64 encoding.

use vstd::prelude::*;

verus! {

pub const CRC24_INIT: u32 = 0xB704CE;

pub const CRC24_POLY: u32 = 0x864CFB;

/// One step of the bit loop: shift the 24-bit register left by one and, where
/// its high bit was set, fold in the generator polynomial.
pub open spec fn crc24_shift(crc: u32) -> u32 {
    if crc & 0x800000 != 0 {
        ((crc << 1) ^ CRC24_POLY) & 0xFFFFFF
    } else {
        (crc << 1) & 0xFFFFFF
    }
}

/// The bit-loop step applied `n` times.
pub open spec fn crc24_shift_n(crc: u32, n: nat) -> u32
    decreases n,
{
    if n == 0 {
        crc
    } else {
        crc24_shift(crc24_shift_n(crc, (n - 1) as nat))
    }
}

/// Folding one payload byte into the register: xor it into the high byte of
/// the 24-bit register, then run eight bit steps.
pub open spec fn crc24_step(crc: u32, b: u8) -> u32 {
    crc24_shift_n(crc ^ ((b as u32) << 16), 8)
}

/// The register after starting from `crc` and folding in `data` left to right.
pub open spec fn crc24_from(crc: u32, data: Seq<u8>) -> u32
    decreases data.len(),
{
    if data.len() == 0 {
        crc
    } else {
        crc24_from(crc24_step(crc, data[0]), data.drop_first())
    }
}

/// The CRC-24 of a byte sequence. The CRC-24 of the empty sequence is the
/// initial value 0xB704CE.
pub open spec fn crc24_of(data: Seq<u8>) -> u32 {
    crc24_from(CRC24_INIT, data)
}

/// Folding bytes in left to right commutes with appending one byte at the end.
proof fn lemma_crc24_from_push(crc: u32, data: Seq<u8>, b: u8)
    ensures
        crc24_from(crc, data.push(b)) == crc24_step(crc24_from(crc, data), b),
    decreases data.len(),
{
    assert(data.push(b)[0] == if data.len() == 0 { b } else { data[0] });
    if data.len() == 0 {
        assert(data.push(b).drop_first() =~= Seq::<u8>::empty());
        assert(crc24_from(crc24_step(crc, b), Seq::<u8>::empty()) == crc24_step(crc, b));
    } else {
        assert(data.push(b).drop_first() =~= data.drop_first().push(b));
        lemma_crc24_from_push(crc24_step(crc, data[0]), data.drop_first(), b);
    }
}

/// Computes the CRC-24 of `data`.
pub fn crc24(data: &Vec<u8>) -> (r: u32)
    ensures
        r == crc24_of(data@),
{
    let mut crc: u32 = CRC24_INIT;
    let mut i: usize = 0;
    while i < data.len()
        invariant
            i <= data.len(),
            crc == crc24_from(CRC24_INIT, data@.take(i as int)),
        decreases data.len() - i,
    {
        let b = data[i];
        crc = crc ^ ((b as u32) << 16);
        let ghost start = crc;
        let mut j: usize = 0;
        while j < 8
            invariant
                j <= 8,
                crc == crc24_shift_n(start, j as nat),
            decreases 8 - j,
        {
            if crc & 0x800000 != 0 {
                crc = ((crc << 1) ^ CRC24_POLY) & 0xFFFFFF;
            } else {
                crc = (crc << 1) & 0xFFFFFF;
            }
            j += 1;
        }
        proof {
            assert(data@.take(i + 1) =~= data@.take(i as int).push(data@[i as int]));
            lemma_crc24_from_push(CRC24_INIT, data@.take(i as int), data@[i as int]);
        }
        i += 1;
    }
    proof {
        assert(data@.take(data.len() as int) =~= data@);
    }
    crc
}

/// The three-byte big-endian form of a 24-bit CRC value, as it enters the
/// armor footer before base64 encoding.
pub open spec fn crc24_bytes(crc: u32) -> Seq<u8> {
    seq![(crc >> 16) as u8, (crc >> 8) as u8, crc as u8]
}

/// Splits a CRC value into its three-byte big-endian form.
pub fn crc24_to_bytes(crc: u32) -> (r: Vec<u8>)
    ensures
        r@ == crc24_bytes(crc),
{
    let mut v: Vec<u8> = Vec::new();
    v.push((crc >> 16) as u8);
    v.push((crc >> 8) as u8);
    v.push(crc as u8);
    proof {
        assert(v@ =~= crc24_bytes(crc));
    }
    v
}

} // verus!

//! Fixed-width ASCII renderings of numbers for the mail headers: zero-padded
//! decimal fields of the date and the sixteen-digit hexadecimal halves of the
//! message id.

use vstd::prelude::*;

verus! {

/// The ASCII digit of the low decimal digit of a value.
pub open spec fn digit(n: int) -> u8 {
    (48 + (n % 10)) as u8
}

/// Two ASCII digits: a value rendered modulo one hundred, zero padded.
pub open spec fn pad2(n: int) -> Seq<u8> {
    seq![digit(n / 10), digit(n)]
}

/// Four ASCII digits: a value rendered modulo ten thousand, zero padded.
pub open spec fn pad4(n: int) -> Seq<u8> {
    seq![digit(n / 1000), digit(n / 100), digit(n / 10), digit(n)]
}

/// Appends the two-digit rendering of `n`.
pub fn push_pad2(out: &mut Vec<u8>, n: u64)
    ensures
        final(out)@ == old(out)@ + pad2(n as int),
{
    out.push(48 + ((n / 10) % 10) as u8);
    out.push(48 + (n % 10) as u8);
    proof {
        assert(out@ =~= old(out)@ + pad2(n as int));
    }
}

/// Appends the four-digit rendering of `n`.
pub fn push_pad4(out: &mut Vec<u8>, n: u64)
    ensures
        final(out)@ == old(out)@ + pad4(n as int),
{
    out.push(48 + ((n / 1000) % 10) as u8);
    out.push(48 + ((n / 100) % 10) as u8);
    out.push(48 + ((n / 10) % 10) as u8);
    out.push(48 + (n % 10) as u8);
    proof {
        assert(out@ =~= old(out)@ + pad4(n as int));
    }
}

/// The ASCII symbol of a four-bit value, with lower-case letters.
pub open spec fn hex_digit(v: int) -> u8 {
    if v % 16 < 10 {
        (48 + (v % 16)) as u8
    } else {
        (87 + (v % 16)) as u8
    }
}

/// The sixteen hexadecimal digits of a 64-bit value, most significant first.
pub open spec fn hex16(n: u64) -> Seq<u8> {
    Seq::new(16, |i: int| hex_digit(((n >> ((60 - 4 * i) as u64)) & 15) as int))
}

/// Appends the sixteen-digit hexadecimal rendering of `n`.
pub fn push_hex16(out: &mut Vec<u8>, n: u64)
    ensures
        final(out)@ == old(out)@ + hex16(n),
{
    let mut idx: usize = 0;
    proof {
        assert(out@ =~= old(out)@ + hex16(n).take(0));
    }
    while idx < 16
        invariant
            idx <= 16,
            out@ == old(out)@ + hex16(n).take(idx as int),
        decreases 16 - idx,
    {
        let sh: u64 = 60 - 4 * (idx as u64);
        let v: u64 = (n >> sh) & 15;
        proof {
            assert((n >> sh) & 15 < 16) by (bit_vector);
        }
        let c: u8 = if v < 10 {
            48 + v as u8
        } else {
            87 + v as u8
        };
        out.push(c);
        proof {
            assert(hex16(n)[idx as int] == c);
            assert(old(out)@ + hex16(n).take(idx + 1) =~= (old(out)@ + hex16(n).take(
                idx as int,
            )).push(hex16(n)[idx as int]));
        }
        idx += 1;
    }
    proof {
        assert(hex16(n).take(16) =~= hex16(n));
    }
}

} // verus!

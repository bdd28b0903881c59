//! Deterministic text rendering: decimal numbers and the hexadecimal
//! float notation of the WebAssembly text format.
//!
//! Floats are rendered from their bit patterns in the exact hexadecimal
//! notation (`0x1.fffp+3`), so the text is a pure function of the bits and
//! never depends on host float formatting.

use vstd::prelude::*;

verus! {

/// The decimal digits of a number, as ASCII bytes.
pub open spec fn dec_bytes(n: nat) -> Seq<u8>
    decreases n,
{
    if n < 10 {
        seq![(48 + n) as u8]
    } else {
        dec_bytes(n / 10) + seq![(48 + n % 10) as u8]
    }
}

/// The decimal rendering of a signed number: a minus sign and the digits
/// of the magnitude.
pub open spec fn dec_bytes_signed(v: int) -> Seq<u8> {
    if v < 0 {
        seq![45u8] + dec_bytes((-v) as nat)
    } else {
        dec_bytes(v as nat)
    }
}

/// Append the decimal digits of `n`.
pub fn push_dec(out: &mut Vec<u8>, n: u64)
    ensures
        final(out)@ == old(out)@ + dec_bytes(n as nat),
    decreases n,
{
    if n < 10 {
        out.push((48 + n) as u8);
        proof {
            assert(out@ =~= old(out)@ + dec_bytes(n as nat));
        }
    } else {
        push_dec(out, n / 10);
        out.push((48 + n % 10) as u8);
        proof {
            assert(out@ =~= old(out)@ + dec_bytes(n as nat));
        }
    }
}

/// Append the decimal rendering of a signed 32-bit number.
pub fn push_dec_i32(out: &mut Vec<u8>, v: i32)
    ensures
        final(out)@ == old(out)@ + dec_bytes_signed(v as int),
{
    if v < 0 {
        out.push(45);
        let m: i64 = -(v as i64);
        push_dec(out, m as u64);
        proof {
            assert(out@ =~= old(out)@ + dec_bytes_signed(v as int));
        }
    } else {
        push_dec(out, v as u64);
    }
}

/// The ASCII byte of one hexadecimal digit.
pub open spec fn hex_digit_byte(n: int) -> u8 {
    if n < 10 {
        (48 + n) as u8
    } else {
        (87 + n) as u8
    }
}

/// The thirteen hexadecimal digits of a double's 52-bit fraction, most
/// significant nibble first.
pub open spec fn hex_frac_bytes(frac: u64) -> Seq<u8> {
    Seq::new(13, |i: int| hex_digit_byte(((frac >> (((12 - i) * 4) as u64)) & 0xf) as int))
}

/// Append the thirteen fraction digits of a double.
pub fn push_hex_frac(out: &mut Vec<u8>, frac: u64)
    ensures
        final(out)@ == old(out)@ + hex_frac_bytes(frac),
{
    let mut i: usize = 0;
    while i < 13
        invariant
            i <= 13,
            out@ == old(out)@ + hex_frac_bytes(frac).take(i as int),
        decreases 13 - i,
    {
        let shift: u64 = (12 - i as u64) * 4;
        let nib: u64 = (frac >> shift) & 0xf;
        proof {
            assert((frac >> shift) & 0xf < 16) by (bit_vector);
            assert(shift == ((12 - i as int) * 4) as u64);
        }
        let digit: u8 = if nib < 10 {
            48 + nib as u8
        } else {
            87 + nib as u8
        };
        out.push(digit);
        proof {
            assert(hex_frac_bytes(frac)[i as int] == hex_digit_byte(
                ((frac >> (((12 - i as int) * 4) as u64)) & 0xf) as int,
            ));
            assert(hex_frac_bytes(frac)[i as int] == digit);
            assert(out@ =~= old(out)@ + hex_frac_bytes(frac).take(i + 1));
        }
        i = i + 1;
    }
    proof {
        assert(hex_frac_bytes(frac).take(13) =~= hex_frac_bytes(frac));
    }
}

/// The exponent tail of the hexadecimal notation: an explicit sign and the
/// decimal digits of the magnitude.
pub open spec fn exp_bytes(e: int) -> Seq<u8> {
    if e >= 0 {
        seq![43u8] + dec_bytes(e as nat)
    } else {
        seq![45u8] + dec_bytes((-e) as nat)
    }
}

/// The text-format rendering of a double, from its bit pattern: `inf`,
/// `nan`, or exact hexadecimal notation, with a leading minus sign when
/// the sign bit is set.
pub open spec fn f64_wat_bytes(bits: u64) -> Seq<u8> {
    let sgn: Seq<u8> = if bits >> 63 == 1 {
        seq![45u8]
    } else {
        Seq::empty()
    };
    let exp = (bits >> 52) & 0x7ff;
    let frac = bits & 0xf_ffff_ffff_ffff;
    if exp == 0x7ff && frac == 0 {
        sgn + seq![105u8, 110u8, 102u8]
    } else if exp == 0x7ff {
        sgn + seq![110u8, 97u8, 110u8]
    } else if exp == 0 && frac == 0 {
        sgn + seq![48u8, 120u8, 48u8, 112u8, 43u8, 48u8]
    } else if exp == 0 {
        sgn + seq![48u8, 120u8, 48u8, 46u8] + hex_frac_bytes(frac) + seq![112u8, 45u8]
            + dec_bytes(1022)
    } else {
        sgn + seq![48u8, 120u8, 49u8, 46u8] + hex_frac_bytes(frac) + seq![112u8] + exp_bytes(
            exp - 1023,
        )
    }
}

/// Append the text-format rendering of a double given as its bit pattern.
pub fn push_f64_wat(out: &mut Vec<u8>, bits: u64)
    ensures
        final(out)@ == old(out)@ + f64_wat_bytes(bits),
{
    if (bits >> 63) == 1 {
        out.push(45);
    }
    let exp: u64 = (bits >> 52) & 0x7ff;
    let frac: u64 = bits & 0xf_ffff_ffff_ffff;
    if exp == 0x7ff && frac == 0 {
        out.push(105);
        out.push(110);
        out.push(102);
    } else if exp == 0x7ff {
        out.push(110);
        out.push(97);
        out.push(110);
    } else if exp == 0 && frac == 0 {
        out.push(48);
        out.push(120);
        out.push(48);
        out.push(112);
        out.push(43);
        out.push(48);
    } else if exp == 0 {
        out.push(48);
        out.push(120);
        out.push(48);
        out.push(46);
        push_hex_frac(out, frac);
        out.push(112);
        out.push(45);
        push_dec(out, 1022);
    } else {
        out.push(48);
        out.push(120);
        out.push(49);
        out.push(46);
        push_hex_frac(out, frac);
        out.push(112);
        proof {
            assert(exp <= 0x7ff) by (bit_vector)
                requires
                    exp == (bits >> 52) & 0x7ff,
            ;
        }
        let e: i64 = exp as i64 - 1023;
        if e >= 0 {
            out.push(43);
            push_dec(out, e as u64);
        } else {
            out.push(45);
            push_dec(out, (-e) as u64);
        }
    }
    proof {
        assert(out@ =~= old(out)@ + f64_wat_bytes(bits));
    }
}

} // verus!

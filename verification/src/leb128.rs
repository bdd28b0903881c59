//! LEB128, the variable-length integer encoding of the WebAssembly binary
//! format: unsigned for counts and indices, signed for `i32.const`
//! immediates.

use vstd::prelude::*;

verus! {

/// The unsigned LEB128 byte string of a number: seven bits per byte, least
/// significant group first, the top bit of each byte flagging a
/// continuation.
pub open spec fn spec_uleb128(n: nat) -> Seq<u8>
    decreases n,
{
    if n < 128 {
        seq![n as u8]
    } else {
        seq![(n % 128 + 128) as u8] + spec_uleb128(n / 128)
    }
}

/// The signed LEB128 byte string of a number: seven bits per byte in two's
/// complement, ending with the group whose sign bit already agrees with
/// the rest of the number.
pub open spec fn spec_sleb128(v: int) -> Seq<u8>
    decreases (if v >= 0 {
        v
    } else {
        -v
    }),
    via spec_sleb128_decreases
{
    if -64 <= v < 64 {
        seq![(v % 128) as u8]
    } else {
        seq![(v % 128 + 128) as u8] + spec_sleb128(v / 128)
    }
}

#[via_fn]
proof fn spec_sleb128_decreases(v: int) {
    if !(-64 <= v < 64) {
        if v >= 64 {
            assert(0 <= v / 128 < v);
        } else {
            assert(v <= -65);
            assert(v == 128 * (v / 128) + v % 128) by (nonlinear_arith);
            assert(v / 128 < 0) by (nonlinear_arith)
                requires
                    v <= -65,
                    v == 128 * (v / 128) + v % 128,
                    0 <= v % 128 < 128,
            ;
            assert(v / 128 > v) by (nonlinear_arith)
                requires
                    v <= -65,
                    v == 128 * (v / 128) + v % 128,
                    0 <= v % 128 < 128,
            ;
        }
    }
}

/// Append the unsigned LEB128 encoding of `n`.
pub fn write_uleb(b: &mut Vec<u8>, n: u64)
    ensures
        final(b)@ == old(b)@ + spec_uleb128(n as nat),
    decreases n,
{
    if n < 128 {
        b.push(n as u8);
        proof {
            assert(b@ =~= old(b)@ + spec_uleb128(n as nat));
        }
    } else {
        b.push((n % 128 + 128) as u8);
        proof {
            assert(n / 128 < n);
        }
        write_uleb(b, n / 128);
        proof {
            assert(b@ =~= old(b)@ + spec_uleb128(n as nat));
        }
    }
}

/// Append the signed LEB128 encoding of `v`, a 32-bit value carried in 64
/// bits.
pub fn write_sleb(b: &mut Vec<u8>, v: i64)
    requires
        -0x8000_0000 <= v < 0x8000_0000,
    ensures
        final(b)@ == old(b)@ + spec_sleb128(v as int),
    decreases (if v >= 0 {
        v as int
    } else {
        -(v as int)
    }),
{
    let r: i64;
    let q: i64;
    if v >= 0 {
        r = v % 128;
        q = v / 128;
        proof {
            assert(r as int == (v as int) % 128 && q as int == (v as int) / 128)
                by (nonlinear_arith)
                requires
                    v >= 0,
                    r == v % 128,
                    q == v / 128,
            ;
        }
    } else {
        let m: i64 = -v;
        let mr: i64 = m % 128;
        r = if mr == 0 {
            0
        } else {
            128 - mr
        };
        q = -((m + 127) / 128);
        proof {
            assert(r as int == (v as int) % 128 && q as int == (v as int) / 128)
                by (nonlinear_arith)
                requires
                    v < 0,
                    -0x8000_0000 <= v,
                    m == -(v as int),
                    mr as int == (m as int) % 128,
                    r as int == if mr == 0 {
                        0int
                    } else {
                        128 - (mr as int)
                    },
                    q as int == -(((m as int) + 127) / 128),
            ;
        }
    }
    if -64 <= v && v < 64 {
        b.push(r as u8);
        proof {
            assert(b@ =~= old(b)@ + spec_sleb128(v as int));
        }
    } else {
        b.push((r + 128) as u8);
        proof {
            assert(-0x8000_0000 <= q < 0x8000_0000 && (if q >= 0 {
                q as int
            } else {
                -(q as int)
            }) < (if v >= 0 {
                v as int
            } else {
                -(v as int)
            })) by (nonlinear_arith)
                requires
                    q as int == (v as int) / 128,
                    (v as int) % 128 == v - 128 * ((v as int) / 128),
                    -0x8000_0000 <= v < 0x8000_0000,
                    !(-64 <= v < 64),
            ;
        }
        write_sleb(b, q);
        proof {
            assert(b@ =~= old(b)@ + spec_sleb128(v as int));
        }
    }
}

/// Types whose values can append themselves to a byte string in LEB128.
pub trait Leb128 {
    /// Append this value's LEB128 encoding to `b`.
    fn write_leb128(self, b: &mut Vec<u8>);
}

impl Leb128 for usize {
    /// Unsigned LEB128.
    fn write_leb128(self, b: &mut Vec<u8>)
        ensures
            final(b)@ == old(b)@ + spec_uleb128(self as nat),
    {
        write_uleb(b, self as u64);
    }
}

impl Leb128 for i32 {
    /// Signed LEB128.
    fn write_leb128(self, b: &mut Vec<u8>)
        ensures
            final(b)@ == old(b)@ + spec_sleb128(self as int),
    {
        write_sleb(b, self as i64);
    }
}

} // verus!

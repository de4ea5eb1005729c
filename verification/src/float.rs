//! Floating point numbers as bit patterns.
use vstd::arithmetic::power2::*;
use vstd::prelude::*;

verus! {

/// A single precision number, held as its IEEE 754 bit pattern. Equality is equality of the
/// patterns.
#[derive(Clone, Copy, Debug, PartialEq, Eq, Structural)]
pub struct Float32 {
    pub bits: u32,
}

/// A double precision number, held as its IEEE 754 bit pattern. Equality is equality of the
/// patterns.
#[derive(Clone, Copy, Debug, PartialEq, Eq, Structural)]
pub struct Float64 {
    pub bits: u64,
}

/// The binary exponent of a magnitude: the place of its leading bit.
pub open spec fn exponent(magnitude: nat) -> nat
    decreases magnitude,
{
    if magnitude <= 1 {
        0
    } else {
        1 + exponent(magnitude / 2)
    }
}

/// The leading bit of a magnitude stands at its exponent.
pub proof fn lemma_exponent(magnitude: nat)
    requires
        magnitude > 0,
    ensures
        pow2(exponent(magnitude)) <= magnitude < pow2(exponent(magnitude) + 1),
    decreases magnitude,
{
    lemma2_to64();
    if magnitude > 1 {
        lemma_exponent(magnitude / 2);
        let e = exponent(magnitude / 2);
        lemma_pow2_unfold((e + 1) as nat);
        lemma_pow2_unfold((e + 2) as nat);
    }
}

/// There is one place for the leading bit.
proof fn lemma_exponent_unique(magnitude: nat, e: nat)
    requires
        magnitude > 0,
        pow2(e) <= magnitude < pow2(e + 1),
    ensures
        exponent(magnitude) == e,
{
    lemma_exponent(magnitude);
    let x = exponent(magnitude);
    if x < e {
        if x + 1 < e {
            lemma_pow2_strictly_increases(x + 1, e);
        }
    }
    if e < x {
        if e + 1 < x {
            lemma_pow2_strictly_increases(e + 1, x);
        }
    }
}

/// The bit pattern of the single precision number that equals the integer `v`. Integers of at
/// most 24 significant bits are exact: the exponent is that of the magnitude and the fraction is
/// what the magnitude, scaled to 24 bits, has below its leading bit.
pub open spec fn float32_bits(v: int) -> u32 {
    let magnitude = if v < 0 {
        (-v) as nat
    } else {
        v as nat
    };
    let sign: nat = if v < 0 {
        0x8000_0000
    } else {
        0
    };
    if v == 0 {
        0
    } else {
        (sign + (exponent(magnitude) + 127) * 0x80_0000 + (magnitude * pow2(
            (23 - exponent(magnitude)) as nat,
        ) - 0x80_0000)) as u32
    }
}

impl Float32 {
    /// The single precision number that equals a small integer.
    pub fn from_integer(v: i32) -> (result: Self)
        requires
            -0x10000 < v < 0x10000,
        ensures
            result.bits == float32_bits(v as int),
    {
        if v == 0 {
            return Float32 { bits: 0 };
        }
        let magnitude: u32 = if v < 0 {
            (0 - v) as u32
        } else {
            v as u32
        };
        let sign: u32 = if v < 0 {
            0x8000_0000
        } else {
            0
        };
        // The magnitude is doubled until its leading bit is bit 23.
        let mut scaled: u32 = magnitude;
        let mut e: u32 = 23;
        proof {
            lemma2_to64();
            assert(magnitude * pow2(0) == magnitude) by (nonlinear_arith)
                requires
                    pow2(0) == 1,
            ;
        }
        while scaled < 0x80_0000
            invariant
                0 < magnitude < 0x10000,
                e <= 23,
                0 < scaled < 0x100_0000,
                scaled == magnitude * pow2((23 - e) as nat),
                e < 23 ==> magnitude * pow2((22 - e) as nat) < 0x80_0000,
            decreases e,
        {
            proof {
                if e == 0 {
                    lemma2_to64();
                    assert(pow2(23) == 0x80_0000);
                    assert(magnitude * pow2(23) >= 0x80_0000) by (nonlinear_arith)
                        requires
                            magnitude >= 1,
                            pow2(23) == 0x80_0000,
                    ;
                }
                lemma_pow2_unfold((24 - e) as nat);
                assert(magnitude * (2 * pow2((23 - e) as nat)) == 2 * (magnitude * pow2(
                    (23 - e) as nat,
                ))) by (nonlinear_arith);
            }
            scaled = scaled * 2;
            e = e - 1;
        }
        proof {
            lemma2_to64();
            let rest = (23 - e) as nat;
            lemma_pow2_adds(e as nat, rest);
            lemma_pow2_adds((e + 1) as nat, rest);
            lemma_pow2_pos(rest);
            let p = pow2(rest);
            let low = pow2(e as nat);
            let high = pow2((e + 1) as nat);
            assert(pow2(24) == 0x100_0000);
            assert(low <= magnitude < high) by (nonlinear_arith)
                requires
                    low * p == 0x80_0000,
                    high * p == 0x100_0000,
                    0x80_0000 <= magnitude * p < 0x100_0000,
                    p > 0,
            ;
            lemma_exponent_unique(magnitude as nat, e as nat);
        }
        let bits: u32 = sign + (e + 127) * 0x80_0000 + (scaled - 0x80_0000);
        proof {
            let m: nat = if v < 0 {
                (-(v as int)) as nat
            } else {
                v as nat
            };
            assert(m == magnitude);
            assert(m * pow2((23 - exponent(m)) as nat) == scaled);
        }
        Float32 { bits }
    }
}

/// The pattern of a small integer is that of the number itself: its sign, an exponent and a
/// fraction that, taken together, give the magnitude and nothing else.
pub proof fn law_float_of_integer(v: int)
    requires
        -0x10000 < v < 0x10000,
        v != 0,
    ensures
        ({
            let bits = float32_bits(v) as int;
            let magnitude = if v < 0 {
                -v
            } else {
                v
            };
            let exp = bits % 0x8000_0000 / 0x80_0000 - 127;
            let significand = 0x80_0000 + bits % 0x80_0000;
            &&& v < 0 <==> bits >= 0x8000_0000
            &&& 0 <= exp < 16
            &&& significand == magnitude * pow2((23 - exp) as nat)
        }),
        float32_bits(0) == 0,
{
    let magnitude: nat = if v < 0 {
        (-v) as nat
    } else {
        v as nat
    };
    lemma_exponent(magnitude);
    lemma2_to64();
    let e = exponent(magnitude);
    if e >= 16 {
        if e > 16 {
            lemma_pow2_strictly_increases(16, e);
        }
        assert(pow2(16) == 0x10000);
    }
    let rest = (23 - e) as nat;
    lemma_pow2_adds(e, rest);
    lemma_pow2_adds(e + 1, rest);
    let p = pow2(rest);
    let low = pow2(e);
    let high = pow2(e + 1);
    assert(pow2(23) == 0x80_0000);
    assert(pow2(24) == 0x100_0000);
    assert(0x80_0000 <= magnitude * p < 0x100_0000) by (nonlinear_arith)
        requires
            low <= magnitude < high,
            low * p == 0x80_0000,
            high * p == 0x100_0000,
            p > 0,
    ;
    let scaled = magnitude * p;
    let sign: int = if v < 0 {
        0x8000_0000
    } else {
        0
    };
    let bits = sign + (e + 127) * 0x80_0000 + (scaled - 0x80_0000);
    assert(float32_bits(v) == bits);
}

} // verus!

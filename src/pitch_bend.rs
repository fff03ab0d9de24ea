//! Conversion between fader positions and 14-bit MIDI pitch-bend values.
//!
//! A position arrives from the console as an IEEE-754 single-precision
//! number. It is carried here as its bit pattern, so that the conversion is
//! exact integer arithmetic on the value the pattern denotes.
use vstd::arithmetic::power2::*;
use vstd::bits::*;
use vstd::prelude::*;

verus! {

/// Largest 14-bit pitch-bend value: full travel of a fader.
pub const PITCH_BEND_MAX: u16 = 16383;

/// Biased exponent of a single-precision bit pattern.
pub open spec fn exponent_field(bits: u32) -> u32 {
    (bits / 0x80_0000) % 0x100
}

/// Stored fraction of a single-precision bit pattern.
pub open spec fn fraction_field(bits: u32) -> u32 {
    bits % 0x80_0000
}

/// The sign bit is set (this includes negative zero).
pub open spec fn is_negative(bits: u32) -> bool {
    bits >= 0x8000_0000
}

pub open spec fn is_nan(bits: u32) -> bool {
    exponent_field(bits) == 0xFF && fraction_field(bits) != 0
}

/// A non-negative pattern whose value is one or more (infinity included).
pub open spec fn at_least_one(bits: u32) -> bool {
    exponent_field(bits) >= 127
}

/// Integer significand `m` of a finite pattern: its magnitude is `m / 2^scale`
/// whenever the magnitude is below one.
pub open spec fn significand(bits: u32) -> nat {
    if exponent_field(bits) == 0 {
        fraction_field(bits) as nat
    } else {
        fraction_field(bits) as nat + 0x80_0000
    }
}

pub open spec fn scale(bits: u32) -> nat {
    if exponent_field(bits) == 0 {
        149
    } else {
        (150 - exponent_field(bits)) as nat
    }
}

/// `n / 2^k` rounded to the nearest integer, halves rounded up.
pub open spec fn round_ratio(n: nat, k: nat) -> nat {
    ((2 * n + pow2(k)) / (2 * pow2(k))) as nat
}

/// The pitch-bend value of a position: clamped to `[0, 1]`, scaled by 16383
/// and rounded to the nearest integer. NaN gives 0.
pub open spec fn bend_of(bits: u32) -> nat {
    if is_negative(bits) || is_nan(bits) {
        0
    } else if at_least_one(bits) {
        PITCH_BEND_MAX as nat
    } else {
        round_ratio((PITCH_BEND_MAX * significand(bits)) as nat, scale(bits))
    }
}

/// The 14-bit value carried by a pitch-bend message's two data bytes.
pub open spec fn bend_from_bytes(lsb: u8, msb: u8) -> nat {
    msb as nat * 128 + lsb as nat
}

proof fn lemma_round_ratio_bounds(n: nat, k: nat)
    ensures
        round_ratio(n, k) * pow2(k) <= n + pow2(k) / 2,
        2 * n <= 2 * round_ratio(n, k) * pow2(k) + pow2(k),
{
    let p = pow2(k);
    lemma_pow2_pos(k);
    let r = (2 * n + p) / (2 * p);
    let rem = (2 * n + p) % (2 * p);
    vstd::arithmetic::div_mod::lemma_fundamental_div_mod((2 * n + p) as int, (2 * p) as int);
    assert(0 <= rem < 2 * p);
    assert(r >= 0) by (nonlinear_arith)
        requires p > 0, 2 * n + p >= 0, r == (2 * n + p) / (2 * p);
    assert(2 * p * r + rem == 2 * n + p);
    assert(r * p <= n + p / 2) by (nonlinear_arith)
        requires 2 * p * r + rem == 2 * n + p, 0 <= rem < 2 * p, p > 0;
    assert(2 * n <= 2 * r * p + p) by (nonlinear_arith)
        requires 2 * p * r + rem == 2 * n + p, 0 <= rem < 2 * p;
}

/// Converts a fader position (single-precision bit pattern) into a 14-bit
/// pitch-bend value: the position is clamped to `[0, 1]`, scaled by 16383 and
/// rounded to the nearest integer.
pub fn to_pitch_bend(bits: u32) -> (r: u16)
    ensures
        r as nat == bend_of(bits),
        r <= PITCH_BEND_MAX,
{
    let exp = (bits >> 23) & 0xFF;
    let frac = bits & 0x7F_FFFF;
    assert(exp == exponent_field(bits) && frac == fraction_field(bits)) by (bit_vector)
        requires exp == (bits >> 23) & 0xFF, frac == bits & 0x7F_FFFF;
    if bits >= 0x8000_0000 || (exp == 0xFF && frac != 0) {
        return 0;
    }
    if exp >= 127 {
        return PITCH_BEND_MAX;
    }
    let sig: u64 = if exp == 0 { frac as u64 } else { frac as u64 + 0x80_0000 };
    let k: u64 = if exp == 0 { 149 } else { 150 - exp as u64 };
    assert(sig == significand(bits) && k == scale(bits));
    assert(sig < 0x100_0000);
    proof {
        lemma2_to64();
        lemma2_to64_rest();
    }
    if k >= 40 {
        proof {
            lemma_pow2_strictly_increases(39, k as nat);
            let n: int = PITCH_BEND_MAX * significand(bits);
            let p: int = pow2(k as nat) as int;
            assert(2 * n + p < 2 * p);
            assert((2 * n + p) / (2 * p) == 0) by (nonlinear_arith)
                requires 0 <= 2 * n + p < 2 * p;
        }
        return 0;
    }
    proof {
        lemma_u64_pow2_no_overflow(k as nat);
        lemma_u64_shl_is_mul(1, k);
    }
    let p: u64 = 1u64 << k;
    assert(p == pow2(k as nat));
    proof {
        if k > 24 {
            lemma_pow2_strictly_increases(24, k as nat);
        }
        lemma_pow2_strictly_increases(k as nat, 40);
    }
    assert(p < 0x100_0000_0000);
    assert(2 * 16383 * sig < 0x80_0000_0000) by (nonlinear_arith)
        requires sig < 0x100_0000;
    let num: u64 = 2 * 16383 * sig + p;
    let r: u64 = num / (2 * p);
    proof {
        let (ri, ni, si, pi) = (r as int, num as int, sig as int, p as int);
        assert(ri < 16384) by (nonlinear_arith)
            requires
                ri == ni / (2 * pi), ni == 2 * 16383 * si + pi, 0 <= si < 0x100_0000,
                0x100_0000 <= pi;
    }
    assert(2 * 16383 * sig == 2 * (16383 * sig)) by (nonlinear_arith);
    assert(num as int == 2 * (16383 * sig) + pow2(k as nat));
    assert(num as int == 2 * ((PITCH_BEND_MAX * significand(bits)) as nat) + pow2(k as nat));
    assert(r as nat == round_ratio((PITCH_BEND_MAX * significand(bits)) as nat, scale(bits)));
    r as u16
}

/// Reassembles the 14-bit value of a pitch-bend message from its data bytes,
/// least significant first.
pub fn from_pitch_bend(lsb: u8, msb: u8) -> (r: u16)
    ensures
        r as nat == bend_from_bytes(lsb, msb),
{
    msb as u16 * 128 + lsb as u16
}

/// Splits a 14-bit value into the two 7-bit data bytes of a pitch-bend
/// message, least significant first.
pub fn pitch_bend_bytes(value: u16) -> (r: (u8, u8))
    requires
        value <= PITCH_BEND_MAX,
    ensures
        r.0 == value % 128,
        r.1 == value / 128,
        r.0 < 128 && r.1 < 128,
        bend_from_bytes(r.0, r.1) == value,
{
    let lsb = value & 0x7F;
    let msb = value >> 7;
    assert(lsb == value % 128 && msb == value / 128) by (bit_vector)
        requires lsb == value & 0x7F, msb == value >> 7;
    (lsb as u8, msb as u8)
}

/// Positions outside `[0, 1]` are clamped: below zero to 0, one and above to
/// full scale. For a position `x = m / 2^k` in `[0, 1)` the value read back
/// from the two data bytes, divided by 16383, lies within half a step of `x`,
/// so within 1/16383 of it.
pub proof fn lemma_pitch_bend_round_trip(bits: u32)
    requires
        !is_nan(bits),
    ensures
        is_negative(bits) ==> bend_of(bits) == 0,
        !is_negative(bits) && at_least_one(bits) ==> bend_of(bits) == PITCH_BEND_MAX,
        bend_of(bits) <= PITCH_BEND_MAX,
        bend_from_bytes((bend_of(bits) % 128) as u8, (bend_of(bits) / 128) as u8) == bend_of(bits),
        !is_negative(bits) && !at_least_one(bits) ==> ({
            let step = pow2(scale(bits));
            let d = bend_of(bits) * step - PITCH_BEND_MAX * significand(bits);
            &&& -step <= 2 * d <= step
            &&& -step <= d <= step
        }),
{
    if !is_negative(bits) && !at_least_one(bits) {
        let k = scale(bits);
        let n = (PITCH_BEND_MAX * significand(bits)) as nat;
        lemma_round_ratio_bounds(n, k);
        assert(k >= 1);
        lemma_pow2_unfold(k);
        lemma_pow2_pos(k);
        let r = bend_of(bits);
        assert(r == round_ratio(n, k));
        assert(r <= PITCH_BEND_MAX) by {
            assert(significand(bits) < 0x100_0000);
            lemma2_to64();
            if k > 24 {
                lemma_pow2_strictly_increases(24, k);
            }
            let p = pow2(k) as int;
            let m = significand(bits) as int;
            let ri = r as int;
            assert(ri * p <= 16383 * m + p / 2);
            assert(ri < 16384) by (nonlinear_arith)
                requires ri * p <= 16383 * m + p / 2, 0 <= m < 0x100_0000, 0x100_0000 <= p;
        }
        let p = pow2(k) as int;
        assert(p == 2 * pow2((k - 1) as nat));
        assert(2 * (p / 2) == p);
        let ri = r as int;
        let ni = n as int;
        assert(ri * p <= ni + p / 2);
        assert(2 * ni <= 2 * ri * p + p);
        assert(-p <= 2 * (ri * p - ni) <= p) by (nonlinear_arith)
            requires ri * p <= ni + p / 2, 2 * ni <= 2 * ri * p + p, 2 * (p / 2) == p;
    }
    let b = bend_of(bits);
    assert(b <= PITCH_BEND_MAX);
}

} // verus!

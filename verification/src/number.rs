//! Numbers as they cross the host boundary.
//!
//! The engine and the realm exchange every number as an IEEE 754 double. The
//! library never computes with doubles: it carries each one as its 64-bit
//! pattern and gives the few conversions the protocol needs (to a handle, to an
//! id, to a truth value, and from an integer) as integer functions of that
//! pattern.

use vstd::arithmetic::div_mod::{lemma_div_is_ordered, lemma_div_by_multiple, lemma_basic_div, lemma_fundamental_div_mod};
use vstd::arithmetic::power2::{lemma2_to64, lemma2_to64_rest, lemma_pow2_adds, lemma_pow2_pos, lemma_pow2_strictly_increases, lemma_pow2_unfold, pow2};
use vstd::prelude::*;

verus! {

/// The weight of the implicit leading bit of a double's significand: 2^52.
pub const LEADING: u64 = 0x10_0000_0000_0000;

/// The sign bit of a double: 2^63.
pub const SIGN: u64 = 0x8000_0000_0000_0000;

/// Whether the double is written with a minus sign.
pub open spec fn negative(bits: u64) -> bool {
    bits >= SIGN
}

/// The biased exponent of a double.
pub open spec fn exponent(bits: u64) -> int {
    (bits / LEADING) as int % 2048
}

/// The significand of a double without its leading bit.
pub open spec fn fraction(bits: u64) -> int {
    (bits % LEADING) as int
}

/// Whether the double is not a number.
pub open spec fn is_nan(bits: u64) -> bool {
    exponent(bits) == 2047 && fraction(bits) != 0
}

/// The absolute value of a double, rounded down to an integer. An infinity
/// counts as 2^1024; the value of something that is not a number is not used.
pub open spec fn magnitude(bits: u64) -> int {
    if exponent(bits) == 0 {
        0
    } else if exponent(bits) >= 1075 {
        (LEADING + fraction(bits)) * pow2((exponent(bits) - 1075) as nat)
    } else {
        (LEADING + fraction(bits)) / (pow2((1075 - exponent(bits)) as nat) as int)
    }
}

/// A double with its fractional part cut off. What is not a number counts as 0.
pub open spec fn integer_part(bits: u64) -> int {
    if is_nan(bits) {
        0
    } else if negative(bits) {
        -magnitude(bits)
    } else {
        magnitude(bits)
    }
}

/// `v`, or the end of the range that it lies beyond.
pub open spec fn clamp(v: int, low: int, high: int) -> int {
    if v < low {
        low
    } else if v > high {
        high
    } else {
        v
    }
}

/// The 64-bit integer that a double stands for: its integer part, or the nearest
/// end of the range.
pub open spec fn as_i64(bits: u64) -> i64 {
    clamp(integer_part(bits), i64::MIN as int, i64::MAX as int) as i64
}

/// The 32-bit unsigned integer that a double stands for: its integer part, or the
/// nearest end of the range.
pub open spec fn as_u32(bits: u64) -> u32 {
    clamp(integer_part(bits), 0, u32::MAX as int) as u32
}

/// The double that stands for an integer.
pub open spec fn as_double(v: int) -> u64 {
    nearest(v) as u64
}

/// Whether the double differs from zero; both zeros equal zero and what is not
/// a number does not.
pub open spec fn nonzero(bits: u64) -> bool {
    bits % SIGN != 0
}

/// The position of the highest bit set in `m`.
pub open spec fn top_bit(m: nat) -> nat
    decreases m,
{
    if m < 2 {
        0
    } else {
        1 + top_bit(m / 2)
    }
}

/// `m / d` rounded to the nearest integer, and to the even one on a tie.
pub open spec fn half_even(m: int, d: int) -> int {
    if 2 * (m % d) < d {
        m / d
    } else if 2 * (m % d) > d {
        m / d + 1
    } else {
        m / d + (m / d) % 2
    }
}

/// The 53-bit significand that represents `m`: exact while `m` has at most 53
/// bits, rounded to nearest, ties to even, beyond that. Rounding up may carry
/// into a 54th bit.
pub open spec fn significand(m: nat) -> int {
    if top_bit(m) <= 52 {
        (m * pow2((52 - top_bit(m)) as nat)) as int
    } else {
        half_even(m as int, pow2((top_bit(m) - 52) as nat) as int)
    }
}

/// The absolute value of an integer.
pub open spec fn absolute(v: int) -> nat {
    if v < 0 {
        (-v) as nat
    } else {
        v as nat
    }
}

/// The bit pattern of the double nearest to `v`. A carry out of the significand
/// moves into the exponent, which is where it belongs.
pub open spec fn nearest(v: int) -> int {
    if v == 0 {
        0
    } else {
        (if v < 0 {
            SIGN as int
        } else {
            0
        }) + (top_bit(absolute(v)) + 1023) * LEADING + (significand(absolute(v)) - LEADING)
    }
}

proof fn lemma_top_bit(m: nat)
    requires
        m > 0,
    ensures
        pow2(top_bit(m)) <= m < pow2(top_bit(m) + 1),
    decreases m,
{
    lemma2_to64();
    if m >= 2 {
        lemma_top_bit(m / 2);
        lemma_pow2_unfold(top_bit(m));
        lemma_pow2_unfold(top_bit(m) + 1);
    }
}

/// The magnitude of a double, cut off at 2^63.
fn capped_magnitude(bits: u64) -> (r: u64)
    ensures
        magnitude(bits) >= 0,
        r == clamp(magnitude(bits), 0, SIGN as int),
{
    let e: u64 = (bits / LEADING) % 2048;
    let m: u64 = LEADING + bits % LEADING;
    proof {
        lemma2_to64();
        lemma2_to64_rest();
    }
    if e == 0 {
        0
    } else if e >= 1086 {
        proof {
            let k = (e - 1075) as nat;
            if k > 11 {
                lemma_pow2_strictly_increases(11, k);
            }
            assert(m * pow2(k) >= 0x10_0000_0000_0000 * pow2(k)) by (nonlinear_arith)
                requires
                    m >= 0x10_0000_0000_0000,
            ;
            assert(0x10_0000_0000_0000 * pow2(k) >= 0x10_0000_0000_0000 * 2048) by (nonlinear_arith)
                requires
                    pow2(k) >= 2048,
            ;
        }
        SIGN
    } else if e >= 1075 {
        let k: u64 = e - 1075;
        proof {
            if k < 10 {
                lemma_pow2_strictly_increases(k as nat, 10);
            }
            assert(m * pow2(k as nat) < SIGN) by (nonlinear_arith)
                requires
                    m < 0x20_0000_0000_0000,
                    pow2(k as nat) <= 1024,
                    SIGN == 0x8000_0000_0000_0000,
            ;
            assert(m * pow2(k as nat) >= 0) by (nonlinear_arith);
            vstd::bits::lemma_u64_shl_is_mul(m, k);
        }
        m << k
    } else {
        let k: u64 = 1075 - e;
        if k >= 64 {
            proof {
                if k > 64 {
                    lemma_pow2_strictly_increases(64, k as nat);
                }
                lemma_basic_div(m as int, pow2(k as nat) as int);
            }
            0
        } else {
            proof {
                vstd::bits::lemma_u64_shr_is_div(m, k);
                lemma_pow2_pos(k as nat);
                vstd::arithmetic::div_mod::lemma_div_nonincreasing(m as int, pow2(k as nat) as int);
                vstd::arithmetic::div_mod::lemma_div_pos_is_pos(m as int, pow2(k as nat) as int);
            }
            m >> k
        }
    }
}

/// The double as a 64-bit integer: its integer part, or the nearest end of the
/// range.
pub fn to_i64(bits: u64) -> (r: i64)
    ensures
        r == as_i64(bits),
        r == clamp(integer_part(bits), i64::MIN as int, i64::MAX as int),
{
    if (bits / LEADING) % 2048 == 2047 && bits % LEADING != 0 {
        return 0;
    }
    let m: u64 = capped_magnitude(bits);
    if bits >= SIGN {
        if m == SIGN {
            i64::MIN
        } else {
            -(m as i64)
        }
    } else if m == SIGN {
        i64::MAX
    } else {
        m as i64
    }
}

/// The double as a 32-bit unsigned integer: its integer part, or the nearest
/// end of the range.
pub fn to_u32(bits: u64) -> (r: u32)
    ensures
        r == as_u32(bits),
        r == clamp(integer_part(bits), 0, u32::MAX as int),
{
    if (bits / LEADING) % 2048 == 2047 && bits % LEADING != 0 {
        return 0;
    }
    let m: u64 = capped_magnitude(bits);
    if bits >= SIGN {
        0
    } else if m > 0xffff_ffff {
        u32::MAX
    } else {
        m as u32
    }
}

/// Whether the double differs from zero.
pub fn is_nonzero(bits: u64) -> (r: bool)
    ensures
        r == nonzero(bits),
{
    bits % SIGN != 0
}

/// The double nearest to an integer.
pub fn from_i64(v: i64) -> (r: u64)
    ensures
        r == as_double(v as int),
        r == nearest(v as int),
{
    if v == 0 {
        return 0;
    }
    let m: u64 = if v == i64::MIN {
        SIGN
    } else if v < 0 {
        (-v) as u64
    } else {
        v as u64
    };
    let mut t: u64 = m;
    let mut p: u64 = 0;
    while t > 1
        invariant
            t > 0,
            p + top_bit(t as nat) == top_bit(m as nat),
            p + t <= u64::MAX,
        decreases t,
    {
        t = t / 2;
        p = p + 1;
    }
    proof {
        lemma_significand(m as nat);
    }
    let s: u64 = round(m, p);
    let high: u64 = (p + 1023) * LEADING;
    if v < 0 {
        SIGN + high + (s - LEADING)
    } else {
        high + (s - LEADING)
    }
}

/// The significand that represents `m`, whose highest bit is `p`.
fn round(m: u64, p: u64) -> (s: u64)
    requires
        0 < m <= SIGN,
        p == top_bit(m as nat),
    ensures
        s == significand(m as nat),
        LEADING <= s <= 2 * LEADING,
        p <= 63,
{
    proof {
        lemma_significand(m as nat);
    }
    if p <= 52 {
        proof {
            vstd::bits::lemma_u64_shl_is_mul(m, (52 - p) as u64);
        }
        m << (52 - p)
    } else {
        let k: u64 = p - 52;
        proof {
            lemma2_to64();
            if k < 11 {
                lemma_pow2_strictly_increases(k as nat, 11);
            }
            lemma_pow2_pos(k as nat);
            vstd::bits::lemma_u64_shl_is_mul(1, k);
        }
        let d: u64 = 1 << k;
        let q: u64 = m / d;
        let r: u64 = m % d;
        if 2 * r < d {
            q
        } else if 2 * r > d {
            q + 1
        } else {
            q + q % 2
        }
    }
}

/// An integer of at most 2^53 in absolute value survives the crossing: the
/// double it becomes reads back as the same integer.
pub proof fn law_integers_round_trip(v: int, bits: u64)
    requires
        -0x20_0000_0000_0000 <= v <= 0x20_0000_0000_0000,
        bits == nearest(v),
    ensures
        integer_part(bits) == v,
{
    lemma2_to64();
    lemma2_to64_rest();
    if v != 0 {
        let m = absolute(v);
        let p = top_bit(m);
        lemma_top_bit(m);
        if p > 53 {
            lemma_pow2_strictly_increases(53, p);
        }
        if p <= 52 {
            let k = (52 - p) as nat;
            lemma_pow2_adds(p, k);
            lemma_pow2_adds((p + 1) as nat, k);
            lemma_pow2_pos(k);
            assert(pow2(p) * pow2(k) <= m * pow2(k) < pow2((p + 1) as nat) * pow2(k))
                by (nonlinear_arith)
                requires
                    pow2(p) <= m < pow2((p + 1) as nat),
                    pow2(k) > 0,
            ;
            lemma_div_by_multiple(m as int, pow2(k) as int);
            lemma_fields(v < 0, (p + 1023) as int, significand(m) - LEADING, bits);
            if p == 52 {
                assert((LEADING + fraction(bits)) * pow2(0) == LEADING + fraction(bits))
                    by (nonlinear_arith)
                    requires
                        pow2(0) == 1,
                ;
                assert(m * pow2(0) == m) by (nonlinear_arith)
                    requires
                        pow2(0) == 1,
                ;
            } else {
                assert((1075 - exponent(bits)) as nat == k);
            }
        } else {
            assert(m == 2 * LEADING);
            lemma_fields(v < 0, (p + 1023) as int, significand(m) - LEADING, bits);
            assert((exponent(bits) - 1075) as nat == 1);
            assert((LEADING + fraction(bits)) * pow2(1) == 2 * (LEADING + fraction(bits)))
                by (nonlinear_arith)
                requires
                    pow2(1) == 2,
            ;
        }
    } else {
        lemma_fields(false, 0, 0, bits);
    }
}

/// The significand of a number of up to 63 bits, or of 2^63, has 53 bits, or is
/// the carry beyond them.
proof fn lemma_significand(m: nat)
    requires
        0 < m <= SIGN,
    ensures
        LEADING <= significand(m) <= 2 * LEADING,
        top_bit(m) <= 63,
{
    let p = top_bit(m);
    lemma_top_bit(m);
    lemma2_to64();
    lemma2_to64_rest();
    if p > 63 {
        lemma_pow2_strictly_increases(63, p);
    }
    if p <= 52 {
        let k = (52 - p) as nat;
        lemma_pow2_adds(p, k);
        lemma_pow2_adds((p + 1) as nat, k);
        lemma_pow2_pos(k);
        assert(pow2(p) * pow2(k) <= m * pow2(k) < pow2((p + 1) as nat) * pow2(k))
            by (nonlinear_arith)
            requires
                pow2(p) <= m < pow2((p + 1) as nat),
                pow2(k) > 0,
        ;
    } else {
        let k = (p - 52) as nat;
        let d = pow2(k) as int;
        let q = m as int / d;
        let r = m as int % d;
        lemma_pow2_pos(k);
        lemma_pow2_adds(52, k);
        lemma_pow2_adds(53, k);
        lemma_div_by_multiple(LEADING as int, d);
        lemma_div_is_ordered(LEADING * d, m as int, d);
        lemma_fundamental_div_mod(m as int, d);
        assert(q < 2 * LEADING) by (nonlinear_arith)
            requires
                m == d * q + r,
                0 <= r < d,
                m < 2 * LEADING * d,
        ;
    }
}

/// The pattern of a 64-bit integer is a pattern.
pub proof fn lemma_nearest_fits(v: int)
    requires
        i64::MIN <= v <= i64::MAX,
    ensures
        0 <= nearest(v) <= u64::MAX,
{
    if v != 0 {
        lemma_significand(absolute(v));
    }
}

/// A number that lies between two powers of two next to each other has its highest
/// bit at the lower one.
proof fn lemma_top_bit_is(m: nat, p: nat)
    requires
        pow2(p) <= m < pow2(p + 1),
    ensures
        top_bit(m) == p,
{
    lemma_pow2_pos(p);
    lemma_top_bit(m);
    let q = top_bit(m);
    if q < p {
        if q + 1 < p {
            lemma_pow2_strictly_increases(q + 1, p);
        }
    } else if p < q {
        if p + 1 < q {
            lemma_pow2_strictly_increases(p + 1, q);
        }
    }
}

/// A double that stands for an integer stands for the integer that it reads as,
/// also where it was rounded.
pub proof fn law_rounding_is_done_once(v: i64)
    requires
        0 <= v,
    ensures
        as_double(as_i64(as_double(v as int)) as int) == as_double(v as int),
{
    let bits = as_double(v as int);
    lemma_nearest_fits(v as int);
    lemma2_to64();
    lemma2_to64_rest();
    if v <= 0x20_0000_0000_0000 {
        law_integers_round_trip(v as int, bits);
    } else {
        let m = v as nat;
        let p = top_bit(m);
        let s = significand(m);
        lemma_top_bit(m);
        lemma_significand(m);
        if p < 53 {
            if p < 52 {
                lemma_pow2_strictly_increases((p + 1) as nat, 53);
            }
            assert(false);
        }
        if p == 63 {
            assert(false);
        }
        let k = (p - 52) as nat;
        lemma_pow2_pos(k);
        lemma_pow2_pos((k + 1) as nat);
        lemma_pow2_adds(52, k);
        lemma_pow2_adds(53, k);
        lemma_pow2_unfold((p + 1) as nat);
        lemma_pow2_unfold((p + 2) as nat);
        if s < 2 * LEADING {
            lemma_fields(false, (p + 1023) as int, s - LEADING, bits);
            let r = (s * pow2(k)) as nat;
            assert(LEADING * pow2(k) <= r < 2 * LEADING * pow2(k)) by (nonlinear_arith)
                requires
                    LEADING <= s < 2 * LEADING,
                    pow2(k) > 0,
                    r == s * pow2(k),
            ;
            assert((exponent(bits) - 1075) as nat == k);
            assert(integer_part(bits) == r);
            if p < 62 {
                lemma_pow2_strictly_increases((p + 1) as nat, 63);
            }
            lemma_top_bit_is(r, p);
            lemma_div_by_multiple(s, pow2(k) as int);
            vstd::arithmetic::div_mod::lemma_mod_multiples_basic(s, pow2(k) as int);
            assert(significand(r) == s);
        } else {
            lemma_fields(false, (p + 1024) as int, 0, bits);
            lemma_pow2_adds(52, (k + 1) as nat);
            assert((exponent(bits) - 1075) as nat == k + 1);
            assert(integer_part(bits) == pow2((p + 1) as nat));
            if p == 62 {
                let r = i64::MAX as nat;
                lemma_top_bit_is(r, 62);
                assert(significand(r) == 2 * LEADING);
            } else {
                let r = pow2((p + 1) as nat);
                lemma_pow2_strictly_increases((p + 1) as nat, 63);
                lemma_top_bit_is(r, (p + 1) as nat);
                lemma_div_by_multiple(LEADING as int, pow2((k + 1) as nat) as int);
                vstd::arithmetic::div_mod::lemma_mod_multiples_basic(
                    LEADING as int,
                    pow2((k + 1) as nat) as int,
                );
                assert(significand(r) == LEADING);
            }
        }
    }
}

/// What is not negative reads as not negative.
pub proof fn lemma_nonnegative(v: i64)
    requires
        0 <= v,
    ensures
        as_i64(as_double(v as int)) >= 0,
{
    let bits = as_double(v as int);
    lemma_nearest_fits(v as int);
    if v > 0 {
        lemma_significand(v as nat);
        lemma_top_bit(v as nat);
        lemma2_to64();
        lemma2_to64_rest();
        assert(top_bit(v as nat) <= 62);
    }
    assert(!negative(bits));
    let e = exponent(bits);
    let m = LEADING + fraction(bits);
    if e >= 1075 {
        assert(m * pow2((e - 1075) as nat) >= 0) by (nonlinear_arith)
            requires
                m >= 0,
        ;
    } else {
        lemma_pow2_pos((1075 - e) as nat);
        vstd::arithmetic::div_mod::lemma_div_pos_is_pos(m, pow2((1075 - e) as nat) as int);
    }
}

/// The double of an integer of more than 53 bits reads as its significand, scaled.
proof fn lemma_scaled(v: i64)
    requires
        top_bit(absolute(v as int)) >= 53,
    ensures
        ({
            let m = absolute(v as int);
            let k = (top_bit(m) - 52) as nat;
            let r = significand(m) * pow2(k);
            &&& integer_part(as_double(v as int)) == if v < 0 {
                -r
            } else {
                r
            }
            &&& fraction(as_double(v as int)) == significand(m) - LEADING || (fraction(
                as_double(v as int),
            ) == 0 && significand(m) == 2 * LEADING)
        }),
{
    let bits = as_double(v as int);
    let m = absolute(v as int);
    let p = top_bit(m);
    let s = significand(m);
    let k = (p - 52) as nat;
    lemma_nearest_fits(v as int);
    lemma_significand(m);
    lemma2_to64();
    if s < 2 * LEADING {
        lemma_fields(v < 0, (p + 1023) as int, s - LEADING, bits);
        assert((exponent(bits) - 1075) as nat == k);
    } else {
        lemma_fields(v < 0, (p + 1024) as int, 0, bits);
        assert((exponent(bits) - 1075) as nat == k + 1);
        lemma_pow2_unfold((k + 1) as nat);
        assert(LEADING * pow2((k + 1) as nat) == (2 * LEADING) * pow2(k)) by (nonlinear_arith)
            requires
                pow2((k + 1) as nat) == 2 * pow2(k),
        ;
    }
}

/// The double of an integer is the nearest there is: for an integer of at most
/// `53 + k` bits it is off by at most half of 2^k, so by nothing where `k` is 0, and
/// where it is off by exactly half a step, its last bit is 0.
pub proof fn law_double_is_the_nearest(v: i64, k: nat)
    requires
        absolute(v as int) < pow2((53 + k) as nat),
    ensures
        2 * absolute(integer_part(as_double(v as int)) - v) <= pow2(k),
        pow2((52 + k) as nat) <= absolute(v as int) && 2 * absolute(
            integer_part(as_double(v as int)) - v,
        ) == pow2(k) ==> as_double(v as int) % 2 == 0,
{
    let m = absolute(v as int);
    let bits = as_double(v as int);
    lemma2_to64();
    lemma2_to64_rest();
    lemma_pow2_pos(k);
    lemma_nearest_fits(v as int);
    if m <= 0x20_0000_0000_0000 {
        law_integers_round_trip(v as int, bits);
    } else {
        let p = top_bit(m);
        let s = significand(m);
        lemma_top_bit(m);
        if p < 53 {
            if p < 52 {
                lemma_pow2_strictly_increases((p + 1) as nat, 53);
            }
            assert(false);
        }
        if p >= 53 + k {
            if p > 53 + k {
                lemma_pow2_strictly_increases((53 + k) as nat, p);
            }
            assert(false);
        }
        let j = (p - 52) as nat;
        let d = pow2(j) as int;
        let q = m as int / d;
        let r = m as int % d;
        lemma_pow2_pos(j);
        lemma_scaled(v);
        lemma_significand(m);
        lemma_fundamental_div_mod(m as int, d);
        if j < k {
            lemma_pow2_strictly_increases(j, k);
            if p + 1 < 52 + k {
                lemma_pow2_strictly_increases((p + 1) as nat, (52 + k) as nat);
            }
        }
        assert(s == q || s == q + 1);
        assert(s * d - m == (s - q) * d - r) by (nonlinear_arith)
            requires
                m == d * q + r,
        ;
        if s == q {
            assert((s - q) * d == 0) by (nonlinear_arith)
                requires
                    s == q,
            ;
        } else {
            assert((s - q) * d == d) by (nonlinear_arith)
                requires
                    s == q + 1,
            ;
        }
        assert(absolute(integer_part(bits) - v) == absolute(s * d - m));
        if 2 * absolute(s * d - m) == d {
            assert(s % 2 == 0);
        }
        assert(bits % 2 == fraction(bits) % 2);
    }
}

/// The double of an integer of at most 2^53 has no fractional part, and zero is
/// the double without any bit set.
pub proof fn law_double_is_whole(v: i64)
    requires
        -0x20_0000_0000_0000 <= v <= 0x20_0000_0000_0000,
    ensures
        v == 0 ==> as_double(v as int) == 0,
        v != 0 ==> as_double(v as int) / 0x10_0000_0000_0000 % 2048 >= 1023,
        v != 0 && as_double(v as int) / 0x10_0000_0000_0000 % 2048 < 1075 ==> (
        0x10_0000_0000_0000 + as_double(v as int) % 0x10_0000_0000_0000) % (pow2(
            (1075 - as_double(v as int) / 0x10_0000_0000_0000 % 2048) as nat,
        ) as int) == 0,
{
    let bits = as_double(v as int);
    let m = absolute(v as int);
    lemma_nearest_fits(v as int);
    lemma2_to64();
    lemma2_to64_rest();
    if v != 0 {
        let p = top_bit(m);
        lemma_top_bit(m);
        lemma_significand(m);
        if p > 53 {
            lemma_pow2_strictly_increases(53, p);
        }
        if p <= 52 {
            let k = (52 - p) as nat;
            lemma_pow2_adds((p + 1) as nat, k);
            lemma_pow2_pos(k);
            assert(m * pow2(k) < pow2((p + 1) as nat) * pow2(k)) by (nonlinear_arith)
                requires
                    m < pow2((p + 1) as nat),
                    pow2(k) > 0,
            ;
            lemma_fields(v < 0, (p + 1023) as int, significand(m) - LEADING, bits);
            vstd::arithmetic::div_mod::lemma_mod_multiples_basic(m as int, pow2(k) as int);
        } else {
            assert(m == 2 * LEADING);
            lemma_fields(v < 0, (p + 1023) as int, significand(m) - LEADING, bits);
        }
    }
}

/// Reading a double as an integer cuts its fractional part off, towards zero. In
/// terms of the pattern's fields: with the sign aside, a double of exponent `e` and
/// fraction `f` is `2^52 + f` scaled by 2 to the `e - 1075`, one of exponent 0 lies
/// below 1, and one of exponent 2047 with a fraction is not a number and reads as 0.
pub proof fn law_reading_cuts_off(bits: u64)
    ensures
        ({
            let e = bits / 0x10_0000_0000_0000 % 2048;
            let f = bits % 0x10_0000_0000_0000;
            let whole = 0x10_0000_0000_0000 + f;
            let n = absolute(integer_part(bits));
            &&& e == 2047 && f != 0 ==> n == 0
            &&& e == 0 ==> n == 0
            &&& 1 <= e < 1075 ==> n * pow2((1075 - e) as nat) <= whole < (n + 1) * pow2(
                (1075 - e) as nat,
            )
            &&& e >= 1075 && !(e == 2047 && f != 0) ==> n == whole * pow2((e - 1075) as nat)
            &&& bits < 0x8000_0000_0000_0000 ==> integer_part(bits) >= 0
            &&& bits >= 0x8000_0000_0000_0000 ==> integer_part(bits) <= 0
        }),
{
    let e = exponent(bits);
    let whole = LEADING + fraction(bits);
    if 1 <= e < 1075 {
        let d = pow2((1075 - e) as nat) as int;
        lemma_pow2_pos((1075 - e) as nat);
        lemma_fundamental_div_mod(whole, d);
        vstd::arithmetic::div_mod::lemma_div_pos_is_pos(whole, d);
        assert((whole / d) * d <= whole < (whole / d + 1) * d) by (nonlinear_arith)
            requires
                whole == d * (whole / d) + whole % d,
                0 <= whole % d < d,
        ;
    } else if e >= 1075 {
        assert(whole * pow2((e - 1075) as nat) >= 0) by (nonlinear_arith)
            requires
                whole >= 0,
        ;
    }
}

/// Reading a double as a handle or as an id gives its integer part, and the nearest
/// end of the range where that lies beyond.
pub proof fn law_reading_saturates(bits: u64)
    ensures
        i64::MIN <= integer_part(bits) <= i64::MAX ==> as_i64(bits) == integer_part(bits),
        integer_part(bits) > i64::MAX ==> as_i64(bits) == i64::MAX,
        integer_part(bits) < i64::MIN ==> as_i64(bits) == i64::MIN,
        0 <= integer_part(bits) <= u32::MAX ==> as_u32(bits) == integer_part(bits),
        integer_part(bits) > u32::MAX ==> as_u32(bits) == u32::MAX,
        integer_part(bits) < 0 ==> as_u32(bits) == 0,
{
}

/// A truth value that crosses as a number is false for the two zeros alone.
pub proof fn law_only_zeros_are_false(bits: u64)
    ensures
        !nonzero(bits) <==> bits == 0 || bits == 0x8000_0000_0000_0000,
{
}

/// The fields of a pattern put together from them.
proof fn lemma_fields(minus: bool, e: int, f: int, bits: u64)
    requires
        0 <= e < 2048,
        0 <= f < LEADING,
        bits == (if minus {
            SIGN as int
        } else {
            0
        }) + e * LEADING + f,
    ensures
        negative(bits) == minus,
        exponent(bits) == e,
        fraction(bits) == f,
{
    assert(e * LEADING + f < SIGN) by (nonlinear_arith)
        requires
            0 <= e < 2048,
            0 <= f < LEADING,
            LEADING == 0x10_0000_0000_0000,
            SIGN == 0x8000_0000_0000_0000,
    ;
}

}

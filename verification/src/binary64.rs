//! Double-precision numbers by their bits, and the integers that they hold exactly.
//!
//! A number travels as its 64 bits: one sign bit, eleven exponent bits and 52 fraction bits.
//! Every finite number is a whole multiple of two to the power of -1074, so its magnitude is
//! stated as that multiple.

use vstd::arithmetic::div_mod::lemma_div_denominator;
use vstd::arithmetic::div_mod::lemma_div_is_ordered;
use vstd::arithmetic::div_mod::lemma_fundamental_div_mod;
use vstd::arithmetic::div_mod::lemma_fundamental_div_mod_converse;
use vstd::arithmetic::power2::lemma2_to64;
use vstd::arithmetic::power2::lemma2_to64_rest;
use vstd::arithmetic::power2::lemma_pow2_adds;
use vstd::arithmetic::power2::lemma_pow2_pos;
use vstd::arithmetic::power2::lemma_pow2_strictly_increases;
use vstd::arithmetic::power2::lemma_pow2_unfold;
use vstd::arithmetic::power2::pow2;
use vstd::prelude::*;

verus! {

/// A double-precision number.
#[derive(Clone, Copy, Debug, PartialEq, Eq, Structural)]
pub struct Binary64 {
    pub bits: u64,
}

/// Two to the power of 52: the leading bit of a normal number.
pub const HIDDEN_BIT: u64 = 0x10_0000_0000_0000;

/// Two to the power of 53: up to here, every integer is a double-precision number.
pub const EXACT_LIMIT: u64 = 0x20_0000_0000_0000;

/// Two to the power of 63: the sign bit.
pub const SIGN_BIT: u64 = 0x8000_0000_0000_0000;

impl Binary64 {
    /// The sign bit is set.
    pub open spec fn is_signed(self) -> bool {
        self.bits / SIGN_BIT == 1
    }

    /// The biased exponent.
    pub open spec fn exponent(self) -> nat {
        ((self.bits / HIDDEN_BIT) % 2048) as nat
    }

    /// The fraction bits.
    pub open spec fn fraction(self) -> nat {
        (self.bits % HIDDEN_BIT) as nat
    }

    /// Neither infinite nor a NaN.
    pub open spec fn is_finite(self) -> bool {
        self.exponent() < 2047
    }

    /// The fraction behind the leading bit, which is one in a normal number.
    pub open spec fn significand(self) -> nat {
        if self.exponent() == 0 {
            self.fraction()
        } else {
            self.fraction() + HIDDEN_BIT as nat
        }
    }

    /// By how many bits the significand stands above the smallest magnitude.
    pub open spec fn scale(self) -> nat {
        if self.exponent() == 0 {
            0
        } else {
            (self.exponent() - 1) as nat
        }
    }

    /// The magnitude, in units of two to the power of -1074.
    pub open spec fn magnitude(self) -> nat {
        self.significand() * pow2(self.scale())
    }

    /// The number is this integer.
    pub open spec fn denotes(self, n: int) -> bool {
        &&& self.is_finite()
        &&& if self.is_signed() {
            -(self.magnitude() as int) == n * pow2(1074)
        } else {
            self.magnitude() as int == n * pow2(1074)
        }
    }

    /// The number is this integer, and zero has no sign.
    pub open spec fn encodes(self, n: int) -> bool {
        &&& self.denotes(n)
        &&& self.is_signed() <==> n < 0
    }
}

/// The double-precision number of an integer.
pub open spec fn double_of(n: int) -> Binary64 {
    choose|b: Binary64| b.encodes(n)
}

/// The integer of at most 53 bits that a number holds exactly, where it holds one.
pub open spec fn exact_integer(b: Binary64) -> Option<int> {
    if exists|n: int| b.denotes(n) && -(EXACT_LIMIT as int) <= n <= EXACT_LIMIT {
        Some(choose|n: int| b.denotes(n) && -(EXACT_LIMIT as int) <= n <= EXACT_LIMIT)
    } else {
        None
    }
}

proof fn lemma_multiple_unique(a: int, b: int, p: int)
    requires
        p > 0,
        a * p == b * p,
    ensures
        a == b,
{
    assert(a == b) by (nonlinear_arith)
        requires
            p > 0,
            a * p == b * p,
    ;
}

proof fn lemma_denotes_unique(b: Binary64, m: int, n: int)
    requires
        b.denotes(m),
        b.denotes(n),
    ensures
        m == n,
{
    lemma_pow2_pos(1074);
    lemma_multiple_unique(m, n, pow2(1074) as int);
}

/// A number that denotes an integer of at most 53 bits holds that integer and no other.
pub proof fn lemma_exact_integer(b: Binary64, n: int)
    requires
        b.denotes(n),
        -(EXACT_LIMIT as int) <= n <= EXACT_LIMIT,
    ensures
        exact_integer(b) == Some(n),
{
    let m = choose|m: int| b.denotes(m) && -(EXACT_LIMIT as int) <= m <= EXACT_LIMIT;
    lemma_denotes_unique(b, m, n);
}

/// Splits bits into sign, exponent and fraction, of which they are made up uniquely.
proof fn lemma_parts_determine(a: Binary64, b: Binary64)
    requires
        a.is_signed() == b.is_signed(),
        a.exponent() == b.exponent(),
        a.fraction() == b.fraction(),
    ensures
        a == b,
{
    assert(a.bits / SIGN_BIT == b.bits / SIGN_BIT);
    assert(a.bits / HIDDEN_BIT == (a.bits / SIGN_BIT) * 2048 + (a.bits / HIDDEN_BIT) % 2048);
    assert(b.bits / HIDDEN_BIT == (b.bits / SIGN_BIT) * 2048 + (b.bits / HIDDEN_BIT) % 2048);
    assert(a.bits == b.bits);
}

proof fn lemma_scaled_apart(m1: nat, k1: nat, m2: nat, k2: nat)
    requires
        k1 < k2,
        m1 < EXACT_LIMIT,
        m2 >= HIDDEN_BIT,
    ensures
        m1 * pow2(k1) < m2 * pow2(k2),
{
    lemma_pow2_adds(k1, (k2 - k1) as nat);
    lemma_pow2_pos(k1);
    let d = (k2 - k1) as nat;
    lemma_pow2_unfold(d);
    lemma_pow2_pos((d - 1) as nat);
    assert(pow2(d) >= 2);
    assert(m2 * pow2(d) >= EXACT_LIMIT) by (nonlinear_arith)
        requires
            m2 >= HIDDEN_BIT,
            pow2(d) >= 2,
    ;
    assert(m2 * pow2(k2) == m2 * pow2(d) * pow2(k1)) by (nonlinear_arith)
        requires
            pow2(k2) == pow2(k1) * pow2(d),
    ;
    let x = m2 * pow2(d);
    let p = pow2(k1);
    assert(m1 * p < x * p) by (nonlinear_arith)
        requires
            m1 < x,
            p > 0,
    ;
}

/// Finite numbers with the same magnitude have the same exponent and fraction.
proof fn lemma_magnitude_determines(a: Binary64, b: Binary64)
    requires
        a.magnitude() == b.magnitude(),
    ensures
        a.exponent() == b.exponent(),
        a.fraction() == b.fraction(),
{
    if a.scale() < b.scale() {
        lemma_scaled_apart(a.significand(), a.scale(), b.significand(), b.scale());
    } else if b.scale() < a.scale() {
        lemma_scaled_apart(b.significand(), b.scale(), a.significand(), a.scale());
    } else {
        lemma_pow2_pos(a.scale());
        lemma_multiple_unique(
            a.significand() as int,
            b.significand() as int,
            pow2(a.scale()) as int,
        );
    }
}

proof fn lemma_encodes_unique(a: Binary64, b: Binary64, n: int)
    requires
        a.encodes(n),
        b.encodes(n),
    ensures
        a == b,
{
    lemma_magnitude_determines(a, b);
    lemma_parts_determine(a, b);
}

/// Some number has this sign and this magnitude.
proof fn lemma_magnitude_is_held(negative: bool, significand: nat, exponent: nat) -> (b: Binary64)
    requires
        0 < significand < EXACT_LIMIT,
        1 <= exponent <= 1076,
        exponent == 1076 ==> significand >= HIDDEN_BIT,
        exponent <= 1075 ==> significand >= pow2((1075 - exponent) as nat),
    ensures
        b.is_finite(),
        b.is_signed() == negative,
        b.magnitude() == significand * pow2((exponent - 1) as nat),
    decreases exponent,
{
    lemma_powers_of_two();
    if significand >= HIDDEN_BIT {
        let sign = if negative {
            SIGN_BIT as int
        } else {
            0
        };
        let bits = (sign + exponent * HIDDEN_BIT + (significand - HIDDEN_BIT)) as u64;
        let b = Binary64 { bits };
        assert(bits % HIDDEN_BIT == significand - HIDDEN_BIT);
        assert(bits / HIDDEN_BIT == sign / HIDDEN_BIT as int + exponent);
        b
    } else {
        let k = (exponent - 1) as nat;
        let d = (1075 - exponent) as nat;
        if d >= 52 {
            if d > 52 {
                lemma_pow2_strictly_increases(52, d);
            }
            assert(false);
        }
        lemma_pow2_unfold(k);
        lemma_pow2_unfold(d + 1);
        let p = pow2((k - 1) as nat);
        assert(significand * (2 * p) == (significand * 2) * p) by (nonlinear_arith);
        lemma_magnitude_is_held(negative, significand * 2, k)
    }
}

/// An integer of at most 53 bits is a double-precision number, and that number holds it exactly.
pub proof fn lemma_exact_double(n: int)
    requires
        -(EXACT_LIMIT as int) <= n <= EXACT_LIMIT,
    ensures
        double_of(n).encodes(n),
        exact_integer(double_of(n)) == Some(n),
{
    lemma_powers_of_two();
    let size = if n < 0 {
        (-n) as nat
    } else {
        n as nat
    };
    let b = if n == 0 {
        assert(0 * pow2(0) == 0 && 0 * pow2(1074) == 0) by (nonlinear_arith);
        Binary64 { bits: 0 }
    } else if size == EXACT_LIMIT {
        lemma_pow2_unfold(1075);
        let p = pow2(1074);
        assert(HIDDEN_BIT * (2 * p) == EXACT_LIMIT * p) by (nonlinear_arith);
        lemma_magnitude_is_held(n < 0, HIDDEN_BIT as nat, 1076)
    } else {
        lemma_magnitude_is_held(n < 0, size, 1075)
    };
    if n < 0 {
        assert(-(size * pow2(1074)) == n * pow2(1074)) by (nonlinear_arith)
            requires
                n == -size,
        ;
    }
    assert(b.encodes(n));
    lemma_exact_integer(double_of(n), n);
}

proof fn lemma_powers_of_two()
    ensures
        pow2(52) == HIDDEN_BIT,
        pow2(53) == EXACT_LIMIT,
        pow2(0) == 1,
        pow2(1) == 2,
        pow2(64) == 0x1_0000_0000_0000_0000,
{
    lemma2_to64();
    lemma2_to64_rest();
}

/// Two to the power of `k`.
fn power_of_two(k: u32) -> (p: u128)
    requires
        k < 127,
    ensures
        p == pow2(k as nat),
{
    proof {
        lemma_powers_of_two();
    }
    let mut p: u128 = 1;
    let mut i: u32 = 0;
    while i < k
        invariant
            i <= k < 127,
            p == pow2(i as nat),
            p >= 1,
        decreases k - i,
    {
        proof {
            lemma_pow2_unfold((i + 1) as nat);
            lemma_pow2_small((i + 1) as nat);
        }
        p = p * 2;
        i += 1;
    }
    p
}

proof fn lemma_pow2_small(k: nat)
    requires
        k < 127,
    ensures
        pow2(k) <= 0x4000_0000_0000_0000_0000_0000_0000_0000,
{
    lemma_pow2_adds(63, 63);
    lemma2_to64_rest();
    assert(pow2(126) == 0x4000_0000_0000_0000_0000_0000_0000_0000) by (nonlinear_arith)
        requires
            pow2(126) == pow2(63) * pow2(63),
            pow2(63) == 0x8000_0000_0000_0000,
    ;
    if k < 126 {
        lemma_pow2_strictly_increases(k, 126);
    }
}

/// The magnitude of a number whose scale is below that of the integers, taken apart.
proof fn lemma_below_integers(m: nat, k: nat, n: int)
    requires
        k <= 1074,
    ensures
        m * pow2(k) == n * pow2(1074) <==> m == n * pow2((1074 - k) as nat),
{
    let d = (1074 - k) as nat;
    lemma_pow2_adds(k, d);
    lemma_pow2_pos(k);
    assert(n * pow2(1074) == (n * pow2(d)) * pow2(k)) by (nonlinear_arith)
        requires
            pow2(1074) == pow2(k) * pow2(d),
    ;
    if m * pow2(k) == n * pow2(1074) {
        lemma_multiple_unique(m as int, n * pow2(d), pow2(k) as int);
    }
}

/// The magnitude of a number whose scale is at or above that of the integers, taken apart.
proof fn lemma_above_integers(m: nat, k: nat, n: int)
    requires
        k >= 1074,
    ensures
        m * pow2(k) == n * pow2(1074) <==> m * pow2((k - 1074) as nat) == n,
{
    let d = (k - 1074) as nat;
    lemma_pow2_adds(1074, d);
    lemma_pow2_pos(1074);
    assert(m * pow2(k) == (m * pow2(d)) * pow2(1074)) by (nonlinear_arith)
        requires
            pow2(k) == pow2(1074) * pow2(d),
    ;
    if m * pow2(k) == n * pow2(1074) {
        lemma_multiple_unique((m * pow2(d)) as int, n, pow2(1074) as int);
    }
}

/// The integer of a magnitude: its multiple of two to the power of -1074 divided by two to the
/// power of 1074, where that leaves no remainder and at most 53 bits.
fn integral_magnitude(b: Binary64) -> (value: Option<u64>)
    requires
        b.is_finite(),
    ensures
        match value {
            Some(n) => b.magnitude() == n * pow2(1074) && n <= EXACT_LIMIT,
            None => forall|n: int| b.magnitude() == #[trigger] (n * pow2(1074)) ==> n > EXACT_LIMIT,
        },
{
    proof {
        lemma_powers_of_two();
        lemma_pow2_pos(1074);
    }
    let exponent: u64 = (b.bits / HIDDEN_BIT) % 2048;
    let fraction: u64 = b.bits % HIDDEN_BIT;
    if exponent == 0 {
        proof {
            lemma_pow2_strictly_increases(52, 1074);
        }
        if fraction == 0 {
            assert(b.magnitude() == 0 * pow2(1074)) by {
                assert(0 * pow2(0) == 0 && 0 * pow2(1074) == 0) by (nonlinear_arith);
            }
            return Some(0);
        }
        assert forall|n: int| b.magnitude() == #[trigger] (n * pow2(1074)) implies n
            > EXACT_LIMIT by {
            lemma_below_integers(b.significand(), 0, n);
            lemma_not_a_multiple(b.significand() as int, n, pow2(1074) as int);
        }
        return None;
    }
    let significand: u64 = fraction + HIDDEN_BIT;
    let ghost scale = (exponent - 1) as nat;
    if exponent > 1076 {
        assert forall|n: int| b.magnitude() == #[trigger] (n * pow2(1074)) implies n
            > EXACT_LIMIT by {
            lemma_above_integers(significand as nat, scale, n);
            let d = (scale - 1074) as nat;
            lemma_pow2_unfold(d);
            lemma_pow2_unfold((d - 1) as nat);
            lemma_pow2_pos((d - 2) as nat);
            assert(significand * pow2(d) > EXACT_LIMIT) by (nonlinear_arith)
                requires
                    significand >= HIDDEN_BIT,
                    pow2(d) >= 4,
            ;
        }
        return None;
    }
    if exponent == 1076 {
        proof {
            assert(significand * pow2(1) == significand * 2) by (nonlinear_arith)
                requires
                    pow2(1) == 2,
            ;
            lemma_above_integers(significand as nat, scale, 2 * significand);
        }
        if significand == HIDDEN_BIT {
            return Some(EXACT_LIMIT);
        }
        assert forall|n: int| b.magnitude() == #[trigger] (n * pow2(1074)) implies n
            > EXACT_LIMIT by {
            lemma_above_integers(significand as nat, scale, n);
            assert(significand * pow2(1) == significand * 2) by (nonlinear_arith)
                requires
                    pow2(1) == 2,
            ;
        }
        return None;
    }
    let shift: u64 = 1075 - exponent;
    if shift > 52 {
        assert forall|n: int| b.magnitude() == #[trigger] (n * pow2(1074)) implies n
            > EXACT_LIMIT by {
            lemma_below_integers(significand as nat, scale, n);
            if shift > 53 {
                lemma_pow2_strictly_increases(53, shift as nat);
            }
            lemma_not_a_multiple(significand as int, n, pow2(shift as nat) as int);
        }
        return None;
    }
    let unit: u64 = power_of_two(shift as u32) as u64;
    proof {
        lemma_pow2_pos(shift as nat);
        if shift < 52 {
            lemma_pow2_strictly_increases(shift as nat, 52);
        }
    }
    let quotient: u64 = significand / unit;
    assert(quotient <= significand) by (nonlinear_arith)
        requires
            quotient == significand / unit,
            unit >= 1,
    ;
    proof {
        lemma_fundamental_div_mod(significand as int, unit as int);
    }
    if significand % unit == 0 {
        assert(significand == quotient * unit) by (nonlinear_arith)
            requires
                significand == unit * quotient + 0,
        ;
        proof {
            lemma_below_integers(significand as nat, scale, quotient as int);
        }
        return Some(quotient);
    }
    assert forall|n: int| b.magnitude() == #[trigger] (n * pow2(1074)) implies n
        > EXACT_LIMIT by {
        lemma_below_integers(significand as nat, scale, n);
        lemma_multiple_has_no_remainder(significand as int, n, unit as int);
    }
    None
}

proof fn lemma_not_a_multiple(m: int, n: int, p: int)
    requires
        0 < m < p,
    ensures
        m != n * p,
{
    assert(m != n * p) by (nonlinear_arith)
        requires
            0 < m < p,
    ;
}

proof fn lemma_multiple_has_no_remainder(m: int, n: int, p: int)
    requires
        p > 0,
        m == n * p,
    ensures
        m % p == 0,
{
    vstd::arithmetic::div_mod::lemma_mod_multiples_basic(n, p);
}

impl Binary64 {
    /// Whether the number is neither infinite nor a NaN.
    pub fn is_finite_number(self) -> (finite: bool)
        ensures
            finite == self.is_finite(),
    {
        (self.bits / HIDDEN_BIT) % 2048 != 2047
    }

    /// The integer of at most 53 bits that the number holds exactly.
    pub fn exact_integer(self) -> (value: Option<i64>)
        ensures
            match value {
                Some(n) => exact_integer(self) == Some(n as int),
                None => exact_integer(self) is None,
            },
    {
        if (self.bits / HIDDEN_BIT) % 2048 == 2047 {
            return None;
        }
        match integral_magnitude(self) {
            Some(n) => {
                let value: i64 = if self.bits / SIGN_BIT == 1 {
                    -(n as i64)
                } else {
                    n as i64
                };
                proof {
                    if self.is_signed() {
                        assert(-(n * pow2(1074)) == value * pow2(1074)) by (nonlinear_arith)
                            requires
                                value == -n,
                        ;
                    }
                    lemma_exact_integer(self, value as int);
                }
                Some(value)
            },
            None => {
                assert forall|n: int| self.denotes(n) implies !(-(EXACT_LIMIT as int) <= n
                    <= EXACT_LIMIT) by {
                    if self.is_signed() {
                        assert(self.magnitude() == (-n) * pow2(1074)) by (nonlinear_arith)
                            requires
                                -(self.magnitude() as int) == n * pow2(1074),
                        ;
                    } else {
                        assert(self.magnitude() == n * pow2(1074));
                    }
                }
                None
            },
        }
    }

    /// The number of an integer of at most 53 bits.
    pub fn from_integer(n: i64) -> (b: Binary64)
        requires
            -(EXACT_LIMIT as int) <= n <= EXACT_LIMIT,
        ensures
            b.encodes(n as int),
            b == double_of(n as int),
            exact_integer(b) == Some(n as int),
    {
        proof {
            lemma_powers_of_two();
            lemma_pow2_pos(1074);
        }
        if n == 0 {
            let b = Binary64 { bits: 0 };
            assert(b.encodes(0)) by {
                assert(0 * pow2(0) == 0 && 0 * pow2(1074) == 0) by (nonlinear_arith);
            }
            proof {
                lemma_encodes_unique(b, double_of(0), 0);
                lemma_exact_integer(b, 0);
            }
            return b;
        }
        let size: u64 = if n < 0 {
            (-n) as u64
        } else {
            n as u64
        };
        let mut significand: u64 = size;
        let mut exponent: u64 = 1075;
        if size == EXACT_LIMIT {
            significand = HIDDEN_BIT;
            exponent = 1076;
        }
        assert(significand * pow2((exponent - 1) as nat) == size * pow2(1074)) by {
            if size == EXACT_LIMIT {
                lemma_above_integers(significand as nat, 1075, size as int);
            }
        }
        while significand < HIDDEN_BIT
            invariant
                0 < significand < EXACT_LIMIT,
                significand < HIDDEN_BIT ==> exponent <= 1075,
                exponent <= 1076,
                exponent + 53 >= 1075,
                significand * pow2((exponent - 1) as nat) == size * pow2(1074),
                pow2(52) == HIDDEN_BIT,
                significand >= pow2((1075 - exponent) as nat) || exponent == 1076,
                pow2(1) == 2,
            decreases exponent,
        {
            proof {
                let k = (exponent - 1) as nat;
                lemma_pow2_unfold(k);
                let p = pow2((k - 1) as nat);
                assert(significand * (2 * p) == (significand * 2) * p) by (nonlinear_arith);
                lemma_pow2_unfold((1075 - exponent + 1) as nat);
                if 1075 - exponent >= 52 {
                    if 1075 - exponent > 52 {
                        lemma_pow2_strictly_increases(52, (1075 - exponent) as nat);
                    }
                    assert(false);
                }
            }
            significand = significand * 2;
            exponent = exponent - 1;
        }
        let sign: u64 = if n < 0 {
            SIGN_BIT
        } else {
            0
        };
        let bits: u64 = sign + exponent * HIDDEN_BIT + (significand - HIDDEN_BIT);
        let b = Binary64 { bits };
        proof {
            assert(bits % HIDDEN_BIT == significand - HIDDEN_BIT);
            assert(bits / HIDDEN_BIT == sign / HIDDEN_BIT + exponent);
            assert(b.exponent() == exponent);
            assert(b.magnitude() == size * pow2(1074));
            if n < 0 {
                assert(-(size * pow2(1074)) == n * pow2(1074)) by (nonlinear_arith)
                    requires
                        n == -size,
                ;
            }
            assert(b.encodes(n as int));
            lemma_encodes_unique(b, double_of(n as int), n as int);
            lemma_exact_integer(b, n as int);
        }
        b
    }
}

/// How many low bits a number loses when it keeps its 53 highest.
pub open spec fn excess_bits(x: nat) -> nat
    decreases x,
{
    if x < EXACT_LIMIT {
        0
    } else {
        1 + excess_bits(x / 2)
    }
}

/// The double-precision number that is nearest to a whole number; of two, the even one.
pub open spec fn nearest_double(x: nat) -> nat {
    let unit = pow2(excess_bits(x));
    let kept = x / unit;
    let lost = x % unit;
    if 2 * lost > unit || (2 * lost == unit && kept % 2 == 1) {
        (kept + 1) * unit
    } else {
        kept * unit
    }
}

/// A fraction `x / d` rounded to the nearest whole number, one half upward.
pub open spec fn rounded_quotient(x: nat, d: nat) -> nat {
    (2 * x + d) / (2 * d)
}

proof fn lemma_double_divided(x: nat, k: nat)
    ensures
        x / pow2(k) / 2 == x / pow2(k + 1),
{
    lemma_pow2_pos(k);
    lemma_pow2_unfold(k + 1);
    lemma_div_denominator(x as int, pow2(k) as int, 2);
    assert(pow2(k) * 2 == pow2(k + 1));
}

proof fn lemma_nearest_double_bound(x: nat, limit: nat)
    requires
        x <= pow2(limit),
        limit >= 53,
    ensures
        nearest_double(x) <= pow2(limit),
        excess_bits(x) <= limit - 52,
    decreases x,
{
    lemma_excess(x, limit);
    let k = excess_bits(x);
    let unit = pow2(k);
    lemma_pow2_pos(k);
    let kept = (x / unit) as int;
    let u = unit as int;
    lemma_fundamental_div_mod(x as int, u);
    lemma_pow2_adds(k, (limit - k) as nat);
    let q = pow2((limit - k) as nat) as int;
    let whole = x as int;
    assert(kept <= q) by (nonlinear_arith)
        requires
            whole == u * kept + whole % u,
            whole % u >= 0,
            whole <= u * q,
            u > 0,
    ;
    if kept == q {
        assert(whole % u == 0) by (nonlinear_arith)
            requires
                whole == u * kept + whole % u,
                whole % u >= 0,
                whole <= u * q,
                kept == q,
                u > 0,
        ;
        assert(kept * u == q * u);
        assert(u * q == q * u) by (nonlinear_arith);
    } else {
        assert((kept + 1) * u <= u * q && kept * u <= u * q) by (nonlinear_arith)
            requires
                kept + 1 <= q,
                u > 0,
        ;
    }
}

proof fn lemma_excess(x: nat, limit: nat)
    requires
        x <= pow2(limit),
        limit >= 53,
    ensures
        excess_bits(x) <= limit - 52,
    decreases x,
{
    lemma_powers_of_two();
    if x >= EXACT_LIMIT {
        if limit == 53 {
            assert(x / 2 < EXACT_LIMIT);
            assert(excess_bits(x / 2) == 0);
        } else {
            lemma_pow2_unfold(limit);
            lemma_excess(x / 2, (limit - 1) as nat);
        }
    }
}

/// Rounds a whole number of at most 117 bits to double precision.
fn to_nearest_double(x: u128) -> (y: u128)
    requires
        x <= pow2(117),
    ensures
        y == nearest_double(x as nat),
        y <= pow2(117),
{
    proof {
        lemma_powers_of_two();
        lemma_nearest_double_bound(x as nat, 117);
        lemma_pow2_small(117);
    }
    let mut kept: u128 = x;
    let mut unit: u128 = 1;
    let ghost mut k: nat = 0;
    assert(x as nat / pow2(0) == x);
    while kept >= EXACT_LIMIT as u128
        invariant
            x <= pow2(117),
            kept == x as nat / pow2(k),
            unit == pow2(k),
            excess_bits(x as nat) == k + excess_bits(kept as nat),
            excess_bits(x as nat) <= 65,
        decreases kept,
    {
        proof {
            lemma_double_divided(x as nat, k);
            lemma_pow2_unfold(k + 1);
            lemma_pow2_small(k + 1);
            k = k + 1;
        }
        kept = kept / 2;
        unit = unit * 2;
    }
    proof {
        lemma_pow2_pos(k);
        lemma_fundamental_div_mod(x as int, unit as int);
        assert(kept * unit <= x) by (nonlinear_arith)
            requires
                x == unit * kept + x % unit,
                unit > 0,
        ;
        lemma_pow2_small(k + 1);
        lemma_pow2_unfold(k + 1);
        lemma_pow2_small(k + 2);
        lemma_pow2_unfold(k + 2);
    }
    let lost: u128 = x % unit;
    let whole: u128 = kept * unit;
    assert((kept + 1) * unit == kept * unit + unit) by (nonlinear_arith);
    if 2 * lost > unit || (2 * lost == unit && kept % 2 == 1) {
        whole + unit
    } else {
        whole
    }
}

/// The share of `total` blocks that a usage between nothing and all of them amounts to.
///
/// The product of the usage and the total is taken in double precision and rounded to whole
/// blocks, one half upward. Nothing is known from a usage that is negative or not finite.
pub open spec fn blocks_in_use(total: u64, usage: Option<Binary64>) -> Option<u64> {
    match usage {
        None => None,
        Some(usage) => if !usage.is_finite() || (usage.is_signed() && usage.magnitude() > 0) {
            None
        } else {
            let count = if usage.magnitude() >= pow2(1074) {
                nearest_double(total as nat)
            } else {
                rounded_quotient(
                    nearest_double(usage.significand() * nearest_double(total as nat)),
                    pow2((1074 - usage.scale()) as nat),
                )
            };
            if count > u64::MAX {
                Some(u64::MAX)
            } else {
                Some(count as u64)
            }
        },
    }
}

proof fn lemma_small_quotient(x: nat, d: nat)
    requires
        2 * x < d,
    ensures
        rounded_quotient(x, d) == 0,
{
    assert((2 * x + d) / (2 * d) == 0) by (nonlinear_arith)
        requires
            2 * x < d,
    ;
}

/// The number of blocks in use, of which `usage` is the share.
pub fn used_kv_blocks(total_blocks: u64, usage: Option<Binary64>) -> (used: Option<u64>)
    ensures
        used == blocks_in_use(total_blocks, usage),
{
    let usage = match usage {
        Some(usage) => usage,
        None => {
            return None;
        },
    };
    let exponent: u64 = (usage.bits / HIDDEN_BIT) % 2048;
    let fraction: u64 = usage.bits % HIDDEN_BIT;
    proof {
        lemma_powers_of_two();
        lemma_pow2_pos(usage.scale());
        lemma_pow2_small(117);
        lemma_pow2_small(64);
        lemma_nearest_double_bound(total_blocks as nat, 64);
        lemma_pow2_adds(53, 64);
        lemma_pow2_strictly_increases(64, 117);
    }
    if exponent == 2047 {
        return None;
    }
    let zero: bool = exponent == 0 && fraction == 0;
    proof {
        let m = usage.significand();
        let p = pow2(usage.scale());
        assert(m * p > 0 <==> m > 0) by (nonlinear_arith)
            requires
                p > 0,
        ;
    }
    if usage.bits / SIGN_BIT == 1 && !zero {
        return None;
    }
    let total: u128 = to_nearest_double(total_blocks as u128);
    let count: u128 = if exponent >= 1023 {
        proof {
            lemma_above_or_equal_one(usage);
        }
        total
    } else {
        proof {
            lemma_below_one(usage);
        }
        let significand: u64 = if exponent == 0 {
            fraction
        } else {
            fraction + HIDDEN_BIT
        };
        assert(significand * total <= pow2(53) * pow2(64)) by (nonlinear_arith)
            requires
                significand <= pow2(53),
                total <= pow2(64),
        ;
        assert(significand * total <= pow2(117));
        let product: u128 = to_nearest_double(significand as u128 * total);
        let shift: u64 = if exponent == 0 {
            1074
        } else {
            1075 - exponent
        };
        proof {
            lemma_pow2_unfold(118);
            lemma_pow2_unfold(119);
        }
        if shift > 119 {
            proof {
                lemma_pow2_strictly_increases(119, shift as nat);
                lemma_small_quotient(product as nat, pow2(shift as nat));
            }
            0
        } else {
            let unit: u128 = power_of_two(shift as u32);
            proof {
                lemma_pow2_pos(shift as nat);
                lemma_pow2_small(119);
                if shift < 119 {
                    lemma_pow2_strictly_increases(shift as nat, 119);
                }
                lemma_pow2_small(120);
                lemma_pow2_unfold(120);
            }
            (2 * product + unit) / (2 * unit)
        }
    };
    if count > u64::MAX as u128 {
        Some(u64::MAX)
    } else {
        Some(count as u64)
    }
}

proof fn lemma_above_or_equal_one(usage: Binary64)
    requires
        usage.exponent() >= 1023,
    ensures
        usage.magnitude() >= pow2(1074),
{
    lemma_powers_of_two();
    lemma_pow2_adds(52, 1022);
    if usage.scale() > 1022 {
        lemma_pow2_strictly_increases(1022, usage.scale());
    }
    let m = usage.significand();
    let p = pow2(usage.scale());
    assert(m * p >= pow2(52) * pow2(1022)) by (nonlinear_arith)
        requires
            m >= pow2(52),
            p >= pow2(1022),
    ;
}

proof fn lemma_below_one(usage: Binary64)
    requires
        usage.exponent() < 1023,
    ensures
        usage.magnitude() < pow2(1074),
{
    lemma_powers_of_two();
    lemma_pow2_adds(53, 1021);
    if usage.scale() < 1021 {
        lemma_pow2_strictly_increases(usage.scale(), 1021);
    }
    lemma_pow2_pos(usage.scale());
    let m = usage.significand();
    let p = pow2(usage.scale());
    assert(m * p < pow2(53) * pow2(1021)) by (nonlinear_arith)
        requires
            m < pow2(53),
            0 < p <= pow2(1021),
    ;
}

proof fn lemma_excess_unit(x: nat)
    requires
        x >= EXACT_LIMIT,
    ensures
        pow2(excess_bits(x)) * HIDDEN_BIT <= x,
    decreases x,
{
    lemma_powers_of_two();
    lemma_pow2_unfold(excess_bits(x));
    if x / 2 >= EXACT_LIMIT {
        lemma_excess_unit(x / 2);
        let unit = pow2(excess_bits(x / 2));
        assert((2 * unit) * HIDDEN_BIT == 2 * (unit * HIDDEN_BIT)) by (nonlinear_arith);
    } else {
        assert(excess_bits(x / 2) == 0);
        assert(excess_bits(x) == 1);
    }
}

/// Up to the limit, every whole number is its own nearest.
proof fn lemma_small_is_exact(x: nat)
    requires
        x <= EXACT_LIMIT,
    ensures
        nearest_double(x) == x,
{
    lemma_powers_of_two();
    let unit = pow2(excess_bits(x));
    if x < EXACT_LIMIT {
        assert(unit == 1);
    } else {
        assert(excess_bits(x / 2) == 0);
        assert(excess_bits(x) == 1);
        assert(unit == 2);
    }
    assert(x % unit == 0);
    assert((x / unit) * unit == x) by {
        lemma_fundamental_div_mod(x as int, unit as int);
        assert((x / unit) * unit == unit * (x / unit)) by (nonlinear_arith);
    }
}

/// What is kept of a number has at most 53 bits.
proof fn lemma_kept_is_small(x: nat)
    ensures
        x / pow2(excess_bits(x)) < EXACT_LIMIT,
    decreases x,
{
    lemma_powers_of_two();
    if x < EXACT_LIMIT {
        assert(x / 1 == x);
    } else {
        let k = excess_bits(x / 2);
        lemma_kept_is_small(x / 2);
        lemma_pow2_pos(k);
        lemma_pow2_unfold(k + 1);
        lemma_div_denominator(x as int, 2, pow2(k) as int);
        assert(2 * pow2(k) == pow2(k + 1));
        assert(excess_bits(x) == k + 1);
    }
}

/// A larger number loses no fewer bits.
proof fn lemma_excess_grows(x: nat, y: nat)
    requires
        x <= y,
    ensures
        excess_bits(x) <= excess_bits(y),
    decreases y,
{
    if x >= EXACT_LIMIT {
        lemma_excess_grows(x / 2, y / 2);
    }
}

/// A number lies between the multiple of its unit that is kept and the next one.
proof fn lemma_nearest_between(x: nat)
    ensures
        ({
            let unit = pow2(excess_bits(x));
            let kept = x / unit;
            &&& unit > 0
            &&& x == kept * unit + x % unit
            &&& x % unit < unit
            &&& kept * unit <= nearest_double(x) <= (kept + 1) * unit
        }),
{
    let unit = pow2(excess_bits(x));
    let kept = x / unit;
    lemma_pow2_pos(excess_bits(x));
    lemma_fundamental_div_mod(x as int, unit as int);
    assert(unit * kept == kept * unit) by (nonlinear_arith);
    assert((kept + 1) * unit == kept * unit + unit) by (nonlinear_arith);
}

/// Rounding keeps the order of numbers.
proof fn lemma_nearest_keeps_order(x: nat, y: nat)
    requires
        x <= y,
    ensures
        nearest_double(x) <= nearest_double(y),
{
    lemma_nearest_between(x);
    lemma_nearest_between(y);
    lemma_excess_grows(x, y);
    let u = pow2(excess_bits(x));
    let v = pow2(excess_bits(y));
    let p = x / u;
    let q = y / v;
    if excess_bits(x) == excess_bits(y) {
        assert(p <= q) by (nonlinear_arith)
            requires
                p * u <= x,
                x <= y,
                y < q * u + u,
                u > 0,
        ;
        if p < q {
            assert((p + 1) * u <= q * u) by (nonlinear_arith)
                requires
                    p + 1 <= q,
            ;
        }
    } else {
        lemma_kept_is_small(x);
        if y < EXACT_LIMIT {
            assert(excess_bits(y) == 0);
        }
        lemma_excess_unit(y);
        lemma_pow2_unfold(excess_bits(x) + 1);
        if excess_bits(x) + 1 < excess_bits(y) {
            lemma_pow2_strictly_increases(excess_bits(x) + 1, excess_bits(y));
        }
        assert(2 * u <= v);
        assert(q >= HIDDEN_BIT) by (nonlinear_arith)
            requires
                v * HIDDEN_BIT <= y,
                y < q * v + v,
        ;
        assert((p + 1) * u <= q * v) by (nonlinear_arith)
            requires
                p + 1 <= 2 * HIDDEN_BIT,
                2 * u <= v,
                q >= HIDDEN_BIT,
        {
            assert((p + 1) * u <= 2 * HIDDEN_BIT * u);
            assert(HIDDEN_BIT * v <= q * v);
        }
    }
}

/// Twice a number is rounded to twice what the number is rounded to.
proof fn lemma_nearest_doubles(x: nat)
    ensures
        nearest_double(2 * x) == 2 * nearest_double(x),
{
    lemma_powers_of_two();
    if 2 * x < EXACT_LIMIT {
        lemma_small_is_exact(2 * x);
        lemma_small_is_exact(x);
    } else {
        let k = excess_bits(x);
        let unit = pow2(k);
        let kept = x / unit;
        assert((2 * x) / 2 == x);
        assert(excess_bits(2 * x) == k + 1);
        lemma_pow2_unfold(k + 1);
        lemma_nearest_between(x);
        assert((2 * x) / (2 * unit) == kept && (2 * x) % (2 * unit) == 2 * (x % unit)) by {
            assert(2 * (kept * unit) == kept * (2 * unit)) by (nonlinear_arith);
            lemma_fundamental_div_mod_converse(
                (2 * x) as int,
                (2 * unit) as int,
                kept as int,
                (2 * (x % unit)) as int,
            );
        }
        assert(kept * (2 * unit) == 2 * (kept * unit)) by (nonlinear_arith);
        assert((kept + 1) * (2 * unit) == 2 * ((kept + 1) * unit)) by (nonlinear_arith);
    }
}

/// A number times a power of two is rounded to the same power times what it is rounded to.
proof fn lemma_nearest_scales(x: nat, k: nat)
    ensures
        nearest_double(x * pow2(k)) == nearest_double(x) * pow2(k),
    decreases k,
{
    lemma_powers_of_two();
    if k > 0 {
        let p = pow2((k - 1) as nat);
        lemma_pow2_unfold(k);
        lemma_nearest_scales(x, (k - 1) as nat);
        lemma_nearest_doubles(x * p);
        assert(x * (2 * p) == 2 * (x * p)) by (nonlinear_arith);
        let n = nearest_double(x);
        assert(n * (2 * p) == 2 * (n * p)) by (nonlinear_arith);
    } else {
        assert(x * 1 == x && nearest_double(x) * 1 == nearest_double(x));
    }
}

/// What a number is rounded to is a double-precision number.
proof fn lemma_nearest_is_exact(x: nat)
    ensures
        nearest_double(nearest_double(x)) == nearest_double(x),
{
    let k = excess_bits(x);
    let kept = x / pow2(k);
    lemma_kept_is_small(x);
    lemma_nearest_scales(kept, k);
    lemma_small_is_exact(kept);
    lemma_nearest_scales(kept + 1, k);
    lemma_small_is_exact(kept + 1);
}

/// A quotient does not change when both sides are scaled.
proof fn lemma_quotient_scales(x: nat, d: nat, p: nat)
    requires
        d > 0,
        p > 0,
    ensures
        rounded_quotient(x * p, d * p) == rounded_quotient(x, d),
{
    let a = (2 * x + d) as int;
    let c = (2 * d) as int;
    let q = a / c;
    let r = a % c;
    lemma_fundamental_div_mod(a, c);
    assert(2 * (x * p) + d * p == a * p && 2 * (d * p) == c * p) by (nonlinear_arith)
        requires
            a == 2 * x + d,
            c == 2 * d,
    ;
    assert(a * p == q * (c * p) + r * p) by (nonlinear_arith)
        requires
            a == c * q + r,
    ;
    assert(0 <= r * p < c * p) by (nonlinear_arith)
        requires
            0 <= r < c,
            p > 0,
    ;
    lemma_fundamental_div_mod_converse(a * p, c * p, q, r * p);
}

proof fn lemma_quotient_keeps_order(x: nat, y: nat, d: nat)
    requires
        x <= y,
        d > 0,
    ensures
        rounded_quotient(x, d) <= rounded_quotient(y, d),
{
    lemma_div_is_ordered((2 * x + d) as int, (2 * y + d) as int, (2 * d) as int);
}

/// The share of a rounded total that a magnitude amounts to, in whole blocks.
spec fn share_of(magnitude: nat, t: nat) -> nat {
    rounded_quotient(nearest_double(magnitude * t), pow2(1074))
}

/// A usage below one amounts to its share of the total.
proof fn lemma_share(m: nat, k: nat, t: nat)
    requires
        k <= 1074,
    ensures
        rounded_quotient(nearest_double(m * t), pow2((1074 - k) as nat)) == share_of(
            m * pow2(k),
            t,
        ),
{
    let x = nearest_double(m * t);
    let d = pow2((1074 - k) as nat);
    let p = pow2(k);
    lemma_pow2_pos(k);
    lemma_pow2_pos((1074 - k) as nat);
    lemma_pow2_adds((1074 - k) as nat, k);
    lemma_quotient_scales(x, d, p);
    lemma_nearest_scales(m * t, k);
    assert((m * t) * p == (m * p) * t) by (nonlinear_arith);
}

/// All of the total is the share of a usage of one.
proof fn lemma_whole_share(total: nat)
    ensures
        share_of(pow2(1074), nearest_double(total)) == nearest_double(total),
{
    let t = nearest_double(total);
    let p = pow2(1074);
    lemma_pow2_pos(1074);
    lemma_nearest_is_exact(total);
    lemma_nearest_scales(t, 1074);
    assert(p * t == t * p) by (nonlinear_arith);
    assert((2 * (t * p) + p) / (2 * p) as nat == t) by {
        assert(2 * (t * p) == t * (2 * p)) by (nonlinear_arith);
        lemma_fundamental_div_mod_converse(
            (2 * (t * p) + p) as int,
            (2 * p) as int,
            t as int,
            p as int,
        );
    }
}

proof fn lemma_share_keeps_order(a: nat, b: nat, t: nat)
    requires
        a <= b,
    ensures
        share_of(a, t) <= share_of(b, t),
{
    assert(a * t <= b * t) by (nonlinear_arith)
        requires
            a <= b,
    ;
    lemma_pow2_pos(1074);
    lemma_nearest_keeps_order(a * t, b * t);
    lemma_quotient_keeps_order(nearest_double(a * t), nearest_double(b * t), pow2(1074));
}

/// The usage is a number from zero upward.
pub open spec fn is_usage(usage: Binary64) -> bool {
    usage.is_finite() && !(usage.is_signed() && usage.magnitude() > 0)
}

/// The blocks in use before they are cut to 64 bits.
spec fn unbounded_blocks(total: u64, usage: Binary64) -> nat {
    if usage.magnitude() >= pow2(1074) {
        nearest_double(total as nat)
    } else {
        share_of(usage.magnitude(), nearest_double(total as nat))
    }
}

proof fn lemma_blocks(total: u64, usage: Binary64)
    requires
        is_usage(usage),
    ensures
        blocks_in_use(total, Some(usage)) == Some(
            if unbounded_blocks(total, usage) > u64::MAX {
                u64::MAX
            } else {
                unbounded_blocks(total, usage) as u64
            },
        ),
        unbounded_blocks(total, usage) <= nearest_double(total as nat),
{
    let t = nearest_double(total as nat);
    let m = usage.significand();
    let k = usage.scale();
    lemma_whole_share(total as nat);
    if usage.magnitude() < pow2(1074) {
        if k > 1074 {
            lemma_pow2_strictly_increases(1074, k);
            assert(m * pow2(k) >= pow2(k)) by (nonlinear_arith)
                requires
                    m >= 1,
            ;
        }
        lemma_share(m, k, t);
        lemma_share_keeps_order(usage.magnitude(), pow2(1074), t);
    }
}

/// The blocks in use are known from every usage from zero upward and from no other. As long as
/// the number of blocks is a double-precision number, no more are in use than there are, and a
/// usage of one or more is all of them.
pub proof fn usage_is_bounded(total: u64, usage: Option<Binary64>)
    requires
        total <= EXACT_LIMIT,
    ensures
        blocks_in_use(total, usage) is Some <==> (usage matches Some(usage) && is_usage(usage)),
        blocks_in_use(total, usage) matches Some(used) ==> used <= total,
        usage is Some && is_usage(usage->Some_0) && usage->Some_0.magnitude() >= pow2(1074)
            ==> blocks_in_use(total, usage) == Some(total),
{
    lemma_small_is_exact(total as nat);
    if let Some(usage) = usage {
        if is_usage(usage) {
            lemma_blocks(total, usage);
        }
    }
}

/// More usage never means that fewer blocks are in use.
pub proof fn usage_keeps_order(total: u64, a: Binary64, b: Binary64)
    requires
        is_usage(a),
        is_usage(b),
        a.magnitude() <= b.magnitude(),
    ensures
        blocks_in_use(total, Some(a))->Some_0 <= blocks_in_use(total, Some(b))->Some_0,
{
    lemma_blocks(total, a);
    lemma_blocks(total, b);
    if b.magnitude() < pow2(1074) {
        lemma_share_keeps_order(a.magnitude(), b.magnitude(), nearest_double(total as nat));
    }
}

/// A whole number and the double-precision number nearest to it differ by at most one part in two
/// to the power of 53.
pub proof fn nearest_double_is_near(x: nat)
    ensures
        EXACT_LIMIT * (nearest_double(x) - x) <= x,
        EXACT_LIMIT * (x - nearest_double(x)) <= x,
{
    if x < EXACT_LIMIT {
        lemma_small_is_exact(x);
    } else {
        let unit = pow2(excess_bits(x));
        let kept = x / unit;
        lemma_nearest_between(x);
        lemma_excess_unit(x);
        assert((kept + 1) * unit == kept * unit + unit) by (nonlinear_arith);
        let off = nearest_double(x) - x;
        assert(2 * off <= unit && -2 * off <= unit);
        assert(EXACT_LIMIT * off <= unit * HIDDEN_BIT) by (nonlinear_arith)
            requires
                2 * off <= unit,
                EXACT_LIMIT == 2 * HIDDEN_BIT,
        ;
        assert(EXACT_LIMIT * (-off) <= unit * HIDDEN_BIT) by (nonlinear_arith)
            requires
                -2 * off <= unit,
                EXACT_LIMIT == 2 * HIDDEN_BIT,
        ;
    }
}

proof fn lemma_quotient_is_near(y: nat, d: nat)
    requires
        d > 0,
    ensures
        2 * (d * rounded_quotient(y, d)) <= 2 * y + d,
        2 * y < 2 * (d * rounded_quotient(y, d)) + d,
{
    let a = (2 * y + d) as int;
    let c = (2 * d) as int;
    let q = a / c;
    lemma_fundamental_div_mod(a, c);
    assert(c * q == 2 * (d * q)) by (nonlinear_arith)
        requires
            c == 2 * d,
    ;
    assert(0 <= a % c < c);
}

/// The blocks in use differ from the exact share of the total by at most half a block and the
/// precision of the product.
pub proof fn usage_is_rounded(total: u64, usage: Binary64)
    requires
        is_usage(usage),
        usage.magnitude() <= pow2(1074),
        total <= EXACT_LIMIT,
    ensures
        ({
            let used = blocks_in_use(total, Some(usage))->Some_0;
            let off = pow2(1074) * used - usage.magnitude() * total;
            &&& EXACT_LIMIT * (2 * off) <= EXACT_LIMIT * pow2(1074) + 2 * (usage.magnitude()
                * total)
            &&& EXACT_LIMIT * (-2 * off) <= EXACT_LIMIT * pow2(1074) + 2 * (usage.magnitude()
                * total)
        }),
{
    let d = pow2(1074);
    lemma_pow2_pos(1074);
    lemma_small_is_exact(total as nat);
    lemma_blocks(total, usage);
    lemma_whole_share(total as nat);
    let x = usage.magnitude() * (total as nat);
    let y = nearest_double(x);
    let used = blocks_in_use(total, Some(usage))->Some_0;
    assert(used == rounded_quotient(y, d));
    nearest_double_is_near(x);
    lemma_quotient_is_near(y, d);
    let off = d * used - x;
    let limit = EXACT_LIMIT as int;
    assert(limit * (2 * off) <= limit * d + 2 * x) by (nonlinear_arith)
        requires
            2 * off <= 2 * (y - x) + d,
            limit * (y - x) <= x,
            limit > 0,
    ;
    assert(limit * (-2 * off) <= limit * d + 2 * x) by (nonlinear_arith)
        requires
            -2 * off <= 2 * (x - y) + d,
            limit * (x - y) <= x,
            limit > 0,
    ;
}

/// A share that ends with one half of a block is rounded up.
pub proof fn half_a_block_counts(total: u64, usage: Binary64, k: nat)
    requires
        is_usage(usage),
        usage.magnitude() < pow2(1074),
        total <= EXACT_LIMIT,
        2 * k + 1 <= EXACT_LIMIT,
        2 * (usage.magnitude() * total) == (2 * k + 1) * pow2(1074),
    ensures
        blocks_in_use(total, Some(usage)) == Some((k + 1) as u64),
{
    let d = pow2(1074);
    let h = pow2(1073);
    lemma_pow2_unfold(1074);
    lemma_pow2_pos(1073);
    lemma_small_is_exact(total as nat);
    lemma_blocks(total, usage);
    let x = usage.magnitude() * (total as nat);
    assert(x == (2 * k + 1) * h) by (nonlinear_arith)
        requires
            2 * x == (2 * k + 1) * d,
            d == 2 * h,
    ;
    lemma_nearest_scales((2 * k + 1) as nat, 1073);
    lemma_small_is_exact((2 * k + 1) as nat);
    assert(2 * x + d == (k + 1) * (2 * d)) by (nonlinear_arith)
        requires
            2 * x == (2 * k + 1) * d,
    ;
    lemma_fundamental_div_mod_converse((2 * x + d) as int, (2 * d) as int, (k + 1) as int, 0);
}

/// A whole number midway between two double-precision numbers goes to the one whose last bit is
/// zero.
pub proof fn midway_goes_to_even(x: nat)
    requires
        EXACT_LIMIT <= x < 2 * EXACT_LIMIT,
        x % 2 == 1,
    ensures
        nearest_double(x) % 4 == 0,
        nearest_double(x) == x + 1 || nearest_double(x) == x - 1,
{
    lemma_powers_of_two();
    assert(excess_bits(x / 2) == 0);
    assert(excess_bits(x) == 1);
    assert(pow2(excess_bits(x)) == 2);
}

} // verus!

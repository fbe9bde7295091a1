//! Binary64 quantities held by their bit pattern: their ordering, and the
//! numbers that the patterns stand for.
use vstd::arithmetic::power2::{
    lemma2_to64, lemma2_to64_rest, lemma_pow2_adds, lemma_pow2_pos, lemma_pow2_strictly_increases,
    lemma_pow2_unfold, pow2,
};
use vstd::prelude::*;

verus! {

/// Mask of the 63 magnitude bits (exponent and fraction) of a binary64 pattern.
pub const MAGNITUDE_MASK: u64 = 0x7fff_ffff_ffff_ffff;

/// Magnitude of positive infinity: every pattern with a larger magnitude is not a number.
pub const INFINITY_MAGNITUDE: u64 = 0x7ff0_0000_0000_0000;

/// Mask of the 52 fraction bits of a binary64 pattern.
pub const FRACTION_MASK: u64 = 0x000f_ffff_ffff_ffff;

/// The bit that stands before the fraction of a normal number: 2 to the power 52.
pub const HIDDEN_BIT: u64 = 0x0010_0000_0000_0000;

/// The integers below this, in absolute value, are binary64 numbers: 2 to the power 53.
pub const EXACT_LIMIT: i64 = 0x0020_0000_0000_0000;

/// A real quantity, stored as the bit pattern of an IEEE 754 binary64 number.
///
/// Two scalars are the same value of this type where their patterns are the
/// same; whether they are equal as numbers is told by `eq_value`, which
/// takes the two zeros for one number and nothing for equal to what is not
/// a number.
#[derive(Clone, Copy, Debug, PartialEq, Eq, Structural)]
pub struct Scalar {
    pub bits: u64,
}

impl Scalar {
    /// The 63 low bits: exponent and fraction, without the sign.
    pub open spec fn magnitude(self) -> u64 {
        self.bits & MAGNITUDE_MASK
    }

    /// The sign bit is set.
    pub open spec fn sign_bit(self) -> bool {
        self.bits > MAGNITUDE_MASK
    }

    /// The pattern encodes no number.
    pub open spec fn nan(self) -> bool {
        self.magnitude() > INFINITY_MAGNITUDE
    }

    /// Position on the number line, for patterns that encode a number: the
    /// magnitude bits grow with the absolute value, and both zeros sit at 0.
    pub open spec fn rank(self) -> int {
        if self.sign_bit() {
            -(self.magnitude() as int)
        } else {
            self.magnitude() as int
        }
    }

    /// The exponent field of the pattern.
    pub open spec fn exponent(self) -> nat {
        (self.magnitude() >> 52) as nat
    }

    /// The fraction field of the pattern.
    pub open spec fn fraction(self) -> nat {
        (self.magnitude() & FRACTION_MASK) as nat
    }

    /// The pattern encodes a real number: neither an infinity nor something
    /// that is not a number.
    pub open spec fn finite(self) -> bool {
        self.magnitude() < INFINITY_MAGNITUDE
    }

    /// The absolute value of the number that the pattern encodes, times 2
    /// to the power 1074: every binary64 number is a whole multiple of 2 to
    /// the power -1074. A subnormal number is its fraction; a normal one is
    /// its fraction behind the hidden bit, doubled once per step of the
    /// exponent.
    pub open spec fn scaled_magnitude(self) -> nat {
        if self.exponent() == 0 {
            self.fraction()
        } else {
            ((HIDDEN_BIT + self.fraction()) * pow2((self.exponent() - 1) as nat)) as nat
        }
    }

    /// The number that the pattern encodes, times 2 to the power 1074.
    pub open spec fn scaled(self) -> int {
        if self.sign_bit() {
            -(self.scaled_magnitude() as int)
        } else {
            self.scaled_magnitude() as int
        }
    }

    /// The pattern is the one that the integer `n` is written as: it
    /// encodes `n`, and zero is written without a sign.
    pub open spec fn is_integer(self, n: int) -> bool {
        self.finite() && self.scaled() == n * pow2(1074) && self.sign_bit() == (n < 0)
    }

    /// `self < rhs` as binary64 numbers: false as soon as either is not a number.
    pub open spec fn lt_spec(self, rhs: Scalar) -> bool {
        !self.nan() && !rhs.nan() && self.rank() < rhs.rank()
    }

    /// `self <= rhs` as binary64 numbers.
    pub open spec fn le_spec(self, rhs: Scalar) -> bool {
        !self.nan() && !rhs.nan() && self.rank() <= rhs.rank()
    }

    /// `self == rhs` as binary64 numbers: the two zeros are equal, and
    /// something that is not a number equals nothing.
    pub open spec fn same_value(self, rhs: Scalar) -> bool {
        !self.nan() && !rhs.nan() && self.rank() == rhs.rank()
    }

    /// Wraps a bit pattern.
    pub fn from_bits(bits: u64) -> (s: Scalar)
        ensures
            s.bits == bits,
    {
        Scalar { bits }
    }

    /// The bit pattern.
    pub fn to_bits(&self) -> (bits: u64)
        ensures
            bits == self.bits,
    {
        self.bits
    }

    /// Positive zero.
    pub fn zero() -> (s: Scalar)
        ensures
            s.bits == 0,
            !s.nan(),
            s.rank() == 0,
    {
        assert(0u64 & MAGNITUDE_MASK == 0) by (bit_vector);
        Scalar { bits: 0 }
    }

    /// The binary64 number that is the integer `n`, where there is one for
    /// sure: below 2 to the power 53 in absolute value.
    pub fn from_i64(n: i64) -> (r: Option<Scalar>)
        ensures
            r is Some <==> -EXACT_LIMIT < n < EXACT_LIMIT,
            r matches Some(s) ==> s.is_integer(n as int),
    {
        if n <= -EXACT_LIMIT || n >= EXACT_LIMIT {
            None
        } else if n == 0 {
            let s = Scalar::zero();
            proof {
                lemma_zero_is_zero();
            }
            Some(s)
        } else if n > 0 {
            let bits: u64 = encode(n as u64);
            Some(Scalar { bits })
        } else {
            let positive: u64 = encode((-n) as u64);
            let bits: u64 = positive + 0x8000_0000_0000_0000;
            let s = Scalar { bits };
            assert(bits & 0x7fff_ffff_ffff_ffff == positive && bits > 0x7fff_ffff_ffff_ffff)
                by (bit_vector)
                requires
                    positive <= 0x7fff_ffff_ffff_ffff,
                    bits == positive + 0x8000_0000_0000_0000,
            ;
            assert(s.magnitude() == (Scalar { bits: positive }).magnitude());
            assert(s.scaled_magnitude() == (Scalar { bits: positive }).scaled_magnitude());
            let ghost unit = pow2(1074);
            assert(-((-n) * unit) == n * unit) by (nonlinear_arith);
            Some(s)
        }
    }

    /// The binary64 number that is the integer `n`.
    pub fn from_i32(n: i32) -> (s: Scalar)
        ensures
            s.is_integer(n as int),
    {
        match Scalar::from_i64(n as i64) {
            Some(s) => s,
            None => Scalar::zero(),
        }
    }

    /// Tells whether the pattern encodes no number.
    pub fn is_nan(&self) -> (r: bool)
        ensures
            r == self.nan(),
    {
        (self.bits & MAGNITUDE_MASK) > INFINITY_MAGNITUDE
    }

    /// Whether the value is one of the two zeros.
    pub fn is_zero(&self) -> (r: bool)
        ensures
            r == (self.magnitude() == 0),
            r == (!self.nan() && self.rank() == 0),
    {
        (self.bits & MAGNITUDE_MASK) == 0
    }

    /// The rank as a machine integer.
    pub fn position(&self) -> (k: i64)
        ensures
            k == self.rank(),
    {
        let bits: u64 = self.bits;
        let mag: u64 = bits & MAGNITUDE_MASK;
        assert(mag <= 0x7fff_ffff_ffff_ffff) by (bit_vector)
            requires
                mag == bits & 0x7fff_ffff_ffff_ffff,
        ;
        let m: i64 = mag as i64;
        if bits > MAGNITUDE_MASK {
            -m
        } else {
            m
        }
    }

    /// `self < rhs`, as the binary64 comparison decides it.
    pub fn lt(&self, rhs: &Scalar) -> (r: bool)
        ensures
            r == self.lt_spec(*rhs),
    {
        !self.is_nan() && !rhs.is_nan() && self.position() < rhs.position()
    }

    /// `self <= rhs`, as the binary64 comparison decides it.
    pub fn le(&self, rhs: &Scalar) -> (r: bool)
        ensures
            r == self.le_spec(*rhs),
    {
        !self.is_nan() && !rhs.is_nan() && self.position() <= rhs.position()
    }

    /// `self > rhs`, as the binary64 comparison decides it.
    pub fn gt(&self, rhs: &Scalar) -> (r: bool)
        ensures
            r == rhs.lt_spec(*self),
    {
        rhs.lt(self)
    }

    /// `self >= rhs`, as the binary64 comparison decides it.
    pub fn ge(&self, rhs: &Scalar) -> (r: bool)
        ensures
            r == rhs.le_spec(*self),
    {
        rhs.le(self)
    }

    /// `self == rhs`, as the binary64 comparison decides it.
    pub fn eq_value(&self, rhs: &Scalar) -> (r: bool)
        ensures
            r == self.same_value(*rhs),
    {
        !self.is_nan() && !rhs.is_nan() && self.position() == rhs.position()
    }

    /// The absolute value: the same pattern with the sign bit cleared.
    pub fn abs(&self) -> (r: Scalar)
        ensures
            r.bits == self.magnitude(),
            !r.sign_bit(),
            r.magnitude() == self.magnitude(),
            r.nan() == self.nan(),
            r.rank() == self.magnitude(),
            r.scaled() == self.scaled_magnitude(),
    {
        let bits: u64 = self.bits;
        let mag: u64 = bits & MAGNITUDE_MASK;
        assert(mag <= 0x7fff_ffff_ffff_ffff && mag & 0x7fff_ffff_ffff_ffff == mag) by (bit_vector)
            requires
                mag == bits & 0x7fff_ffff_ffff_ffff,
        ;
        Scalar { bits: mag }
    }
}

/// The order of two numbers is decided one way or the other: of two scalars
/// that encode numbers, exactly one of `a < b`, `a == b`, `b < a` holds.
pub proof fn lemma_trichotomy(a: Scalar, b: Scalar)
    requires
        !a.nan(),
        !b.nan(),
    ensures
        a.lt_spec(b) || a.same_value(b) || b.lt_spec(a),
        !(a.lt_spec(b) && b.lt_spec(a)),
        !(a.lt_spec(b) && a.same_value(b)),
        a.le_spec(b) <==> !b.lt_spec(a),
{
}

/// The order is transitive.
pub proof fn lemma_lt_transitive(a: Scalar, b: Scalar, c: Scalar)
    requires
        a.lt_spec(b),
        b.lt_spec(c),
    ensures
        a.lt_spec(c),
{
}

/// The pattern of the positive integer `a`, which is below 2 to the power 53.
fn encode(a: u64) -> (bits: u64)
    requires
        0 < a < 0x0020_0000_0000_0000,
    ensures
        bits <= MAGNITUDE_MASK,
        bits < INFINITY_MAGNITUDE,
        (Scalar { bits }).magnitude() == bits,
        (Scalar { bits }).scaled_magnitude() == a * pow2(1074),
{
    let mut sig: u64 = a;
    let mut e: u64 = 1075;
    proof {
        lemma2_to64();
        lemma2_to64_rest();
    }
    while sig < HIDDEN_BIT
        invariant
            0 < sig < 0x0020_0000_0000_0000,
            1023 <= e <= 1075,
            sig * pow2((e - 1) as nat) == a * pow2(1074),
            sig >= pow2((1075 - e) as nat),
            pow2(52) == 0x0010_0000_0000_0000,
        decreases e,
    {
        proof {
            assert(e > 1023) by {
                if e == 1023 {
                    assert(sig >= pow2(52));
                }
            }
            lemma_pow2_unfold((e - 1) as nat);
            lemma_pow2_unfold((1076 - e) as nat);
            let p = pow2((e - 1) as nat);
            let q = pow2((e - 2) as nat);
            assert((2 * sig) * q == sig * p) by (nonlinear_arith)
                requires
                    p == 2 * q,
            ;
        }
        sig = sig * 2;
        e = e - 1;
    }
    let f: u64 = sig - HIDDEN_BIT;
    let bits: u64 = e * HIDDEN_BIT + f;
    assert(bits <= 0x7fff_ffff_ffff_ffff && bits < 0x7ff0_0000_0000_0000 && (bits
        & 0x7fff_ffff_ffff_ffff) == bits && ((bits & 0x7fff_ffff_ffff_ffff) >> 52) == e && ((bits
        & 0x7fff_ffff_ffff_ffff) & 0x000f_ffff_ffff_ffff) == f) by (bit_vector)
        requires
            e <= 1075,
            f < 0x0010_0000_0000_0000,
            bits == e * 0x0010_0000_0000_0000 + f,
    ;
    bits
}

/// Both zeros stand for the number zero.
pub proof fn lemma_zero_is_zero()
    ensures
        (Scalar { bits: 0 }).finite(),
        (Scalar { bits: 0 }).scaled() == 0,
        (Scalar { bits: 0x8000_0000_0000_0000 }).finite(),
        (Scalar { bits: 0x8000_0000_0000_0000 }).scaled() == 0,
{
    assert(0u64 & 0x7fff_ffff_ffff_ffff == 0 && (0u64 >> 52) == 0 && (0u64 & 0x000f_ffff_ffff_ffff)
        == 0 && 0x8000_0000_0000_0000u64 & 0x7fff_ffff_ffff_ffff == 0) by (bit_vector);
}

/// A magnitude is its exponent field times 2 to the power 52, plus its fraction field.
proof fn lemma_fields(m: u64)
    by (bit_vector)
    requires
        m <= 0x7fff_ffff_ffff_ffff,
    ensures
        m == (m >> 52) * 0x0010_0000_0000_0000 + (m & 0x000f_ffff_ffff_ffff),
        (m & 0x000f_ffff_ffff_ffff) < 0x0010_0000_0000_0000,
        (m >> 52) < 2048,
        m & 0x7fff_ffff_ffff_ffff == m,
{
}

/// The larger the magnitude bits, the larger the absolute value.
pub proof fn lemma_magnitude_order(a: Scalar, b: Scalar)
    requires
        a.magnitude() < b.magnitude(),
    ensures
        a.scaled_magnitude() < b.scaled_magnitude(),
{
    let ma = a.magnitude();
    let mb = b.magnitude();
    let abits = a.bits;
    let bbits = b.bits;
    assert(ma <= 0x7fff_ffff_ffff_ffff && mb <= 0x7fff_ffff_ffff_ffff) by (bit_vector)
        requires
            ma == abits & 0x7fff_ffff_ffff_ffff,
            mb == bbits & 0x7fff_ffff_ffff_ffff,
    ;
    lemma_fields(ma);
    lemma_fields(mb);
    let ea = a.exponent();
    let eb = b.exponent();
    let fa = a.fraction();
    let fb = b.fraction();
    let h = HIDDEN_BIT as nat;
    assert(ea < eb || (ea == eb && fa < fb));
    if ea == eb {
        if ea > 0 {
            let p = pow2((ea - 1) as nat);
            lemma_pow2_pos((ea - 1) as nat);
            assert((h + fa) * p < (h + fb) * p) by (nonlinear_arith)
                requires
                    fa < fb,
                    p > 0,
            ;
        }
    } else {
        let pb = pow2((eb - 1) as nat);
        lemma_pow2_pos((eb - 1) as nat);
        assert(h * 1 <= h * pb) by (nonlinear_arith)
            requires
                pb >= 1,
        ;
        assert(h * pb <= (h + fb) * pb) by (nonlinear_arith)
            requires
                pb >= 1,
        ;
        if ea > 0 {
            let pa = pow2((ea - 1) as nat);
            lemma_pow2_pos((ea - 1) as nat);
            lemma_pow2_unfold(ea);
            if ea < eb - 1 {
                lemma_pow2_strictly_increases(ea, (eb - 1) as nat);
            }
            assert((h + fa) * pa < h * (2 * pa)) by (nonlinear_arith)
                requires
                    fa < h,
                    pa > 0,
            ;
            assert(h * pow2(ea) <= h * pb) by (nonlinear_arith)
                requires
                    pow2(ea) <= pb,
            ;
        }
    }
}

/// The order of the patterns is the order of the numbers they stand for:
/// of two patterns that encode numbers, one is below the other where its
/// number is, and the two are equal as numbers where their numbers are.
pub proof fn lemma_order_is_value_order(a: Scalar, b: Scalar)
    requires
        !a.nan(),
        !b.nan(),
    ensures
        a.lt_spec(b) <==> a.scaled() < b.scaled(),
        a.le_spec(b) <==> a.scaled() <= b.scaled(),
        a.same_value(b) <==> a.scaled() == b.scaled(),
{
    let zero = Scalar { bits: 0 };
    lemma_zero_is_zero();
    lemma_positive(a);
    lemma_positive(b);
    if a.magnitude() < b.magnitude() {
        lemma_magnitude_order(a, b);
    }
    if b.magnitude() < a.magnitude() {
        lemma_magnitude_order(b, a);
    }
}

/// The absolute value is zero where the magnitude bits are, and above zero elsewhere.
proof fn lemma_positive(a: Scalar)
    ensures
        a.magnitude() == 0 ==> a.scaled_magnitude() == 0,
        a.magnitude() > 0 ==> a.scaled_magnitude() > 0,
{
    let zero = Scalar { bits: 0 };
    lemma_zero_is_zero();
    let m = a.magnitude();
    let bits = a.bits;
    assert(m <= 0x7fff_ffff_ffff_ffff) by (bit_vector)
        requires
            m == bits & 0x7fff_ffff_ffff_ffff,
    ;
    lemma_fields(m);
    assert(zero.magnitude() == 0) by {
        assert(0u64 & 0x7fff_ffff_ffff_ffff == 0) by (bit_vector);
    }
    if m > 0 {
        lemma_magnitude_order(zero, a);
    }
}

/// An integer is written as one pattern only.
pub proof fn lemma_integer_is_unique(a: Scalar, b: Scalar, n: int)
    requires
        a.is_integer(n),
        b.is_integer(n),
    ensures
        a == b,
{
    if a.magnitude() < b.magnitude() {
        lemma_magnitude_order(a, b);
    }
    if b.magnitude() < a.magnitude() {
        lemma_magnitude_order(b, a);
    }
    let x = a.bits;
    let y = b.bits;
    assert(x == y) by (bit_vector)
        requires
            x & 0x7fff_ffff_ffff_ffff == y & 0x7fff_ffff_ffff_ffff,
            (x > 0x7fff_ffff_ffff_ffff) == (y > 0x7fff_ffff_ffff_ffff),
    ;
}

/// The numbers that the library sets by itself: 10, 15, 30 and 360, and
/// three quarters.
pub proof fn lemma_constants()
    ensures
        (Scalar { bits: 0x4024_0000_0000_0000 }).scaled() == 10 * pow2(1074),
        (Scalar { bits: 0x402E_0000_0000_0000 }).scaled() == 15 * pow2(1074),
        (Scalar { bits: 0x403E_0000_0000_0000 }).scaled() == 30 * pow2(1074),
        (Scalar { bits: 0x4076_8000_0000_0000 }).scaled() == 360 * pow2(1074),
        (Scalar { bits: 0x3FE8_0000_0000_0000 }).scaled() * 4 == 3 * pow2(1074),
{
    lemma2_to64();
    lemma2_to64_rest();
    lemma_pow2_adds(49, 1025);
    lemma_pow2_adds(48, 1026);
    lemma_pow2_adds(44, 1030);
    lemma_pow2_adds(51, 1021);
    lemma_pow2_unfold(1074);
    lemma_pow2_unfold(1073);
    lemma_pow2_unfold(1072);
    lemma_pow2_unfold(1075);
    lemma_pow2_unfold(1076);
    assert(0x4024_0000_0000_0000u64 & 0x7fff_ffff_ffff_ffff == 0x4024_0000_0000_0000
        && 0x4024_0000_0000_0000u64 >> 52 == 1026 && 0x4024_0000_0000_0000u64
        & 0x000f_ffff_ffff_ffff == 0x0004_0000_0000_0000) by (bit_vector);
    assert(0x402E_0000_0000_0000u64 & 0x7fff_ffff_ffff_ffff == 0x402E_0000_0000_0000
        && 0x402E_0000_0000_0000u64 >> 52 == 1026 && 0x402E_0000_0000_0000u64
        & 0x000f_ffff_ffff_ffff == 0x000E_0000_0000_0000) by (bit_vector);
    assert(0x403E_0000_0000_0000u64 & 0x7fff_ffff_ffff_ffff == 0x403E_0000_0000_0000
        && 0x403E_0000_0000_0000u64 >> 52 == 1027 && 0x403E_0000_0000_0000u64
        & 0x000f_ffff_ffff_ffff == 0x000E_0000_0000_0000) by (bit_vector);
    assert(0x4076_8000_0000_0000u64 & 0x7fff_ffff_ffff_ffff == 0x4076_8000_0000_0000
        && 0x4076_8000_0000_0000u64 >> 52 == 1031 && 0x4076_8000_0000_0000u64
        & 0x000f_ffff_ffff_ffff == 0x0006_8000_0000_0000) by (bit_vector);
    assert(0x3FE8_0000_0000_0000u64 & 0x7fff_ffff_ffff_ffff == 0x3FE8_0000_0000_0000
        && 0x3FE8_0000_0000_0000u64 >> 52 == 1022 && 0x3FE8_0000_0000_0000u64
        & 0x000f_ffff_ffff_ffff == 0x0008_0000_0000_0000) by (bit_vector);
    let two_1021 = pow2(1021);
    let two_1025 = pow2(1025);
    let two_1026 = pow2(1026);
    let two_1030 = pow2(1030);
    let two_1074 = pow2(1074);
    assert(pow2(49) == 0x0002_0000_0000_0000);
    assert(pow2(48) == 0x0001_0000_0000_0000);
    assert(pow2(44) == 0x0000_1000_0000_0000);
    assert(pow2(51) == 0x0008_0000_0000_0000);
    // 10 = 1.25 * 2^3: (2^52 + 2^50) * 2^1025 = 5 * 2^50 * 2^1025 = 10 * 2^49 * 2^1025
    assert((0x0010_0000_0000_0000 + 0x0004_0000_0000_0000) * two_1025 == 10 * two_1074)
        by (nonlinear_arith)
        requires
            0x0002_0000_0000_0000 * two_1025 == two_1074,
    ;
    // 15 = 1.875 * 2^3
    assert((0x0010_0000_0000_0000 + 0x000E_0000_0000_0000) * two_1025 == 15 * two_1074)
        by (nonlinear_arith)
        requires
            0x0002_0000_0000_0000 * two_1025 == two_1074,
    ;
    // 30 = 1.875 * 2^4
    assert((0x0010_0000_0000_0000 + 0x000E_0000_0000_0000) * two_1026 == 30 * two_1074)
        by (nonlinear_arith)
        requires
            0x0001_0000_0000_0000 * two_1026 == two_1074,
    ;
    // 360 = 1.40625 * 2^8
    assert((0x0010_0000_0000_0000 + 0x0006_8000_0000_0000) * two_1030 == 360 * two_1074)
        by (nonlinear_arith)
        requires
            0x0000_1000_0000_0000 * two_1030 == two_1074,
    ;
    // 3/4 = 1.5 * 2^-1
    assert(((0x0010_0000_0000_0000 + 0x0008_0000_0000_0000) * two_1021) * 4 == 3 * two_1074)
        by (nonlinear_arith)
        requires
            0x0008_0000_0000_0000 * two_1021 == pow2(1072),
            two_1074 == 4 * pow2(1072),
    ;
}

} // verus!

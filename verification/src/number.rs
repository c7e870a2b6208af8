//! Numbers of the command stream.
//!
//! A number is a binary64 value, carried as its bit pattern. Everything this
//! module decides about a number (whether it is finite, whether two numbers
//! are equal, which one comes first, which whole number it is) is decided on
//! the bit pattern with integer arithmetic. Arithmetic on the values and the
//! reading of decimal text are left to the caller.
use vstd::arithmetic::power2::*;
use vstd::prelude::*;

verus! {

/// The sign bit of a bit pattern.
pub const SIGN_BIT: u64 = 0x8000_0000_0000_0000;

/// The magnitude of an infinity; larger magnitudes are not numbers.
pub const INFINITY_BITS: u64 = 0x7ff0_0000_0000_0000;

/// Two to the power 52: the size of the fraction field.
pub const FRACTION_SIZE: u64 = 0x0010_0000_0000_0000;

/// The bit pattern of the number one.
pub const ONE_BITS: u64 = 0x3ff0_0000_0000_0000;

/// The bit pattern of the number one thousand.
pub const THOUSAND_BITS: u64 = 0x408f_4000_0000_0000;

/// The bit pattern of minus one.
pub const MINUS_ONE_BITS: u64 = 0xbff0_0000_0000_0000;

/// A binary64 number, held as its bit pattern.
#[derive(Clone, Copy, Debug, PartialEq, Eq, Structural)]
pub struct Number {
    pub bits: u64,
}

impl Number {
    /// The bit pattern without its sign bit.
    pub open spec fn magnitude(self) -> u64 {
        if self.bits >= SIGN_BIT {
            (self.bits - SIGN_BIT) as u64
        } else {
            self.bits
        }
    }

    /// The sign bit is set.
    pub open spec fn is_negative(self) -> bool {
        self.bits >= SIGN_BIT
    }

    /// Not a number.
    pub open spec fn is_nan(self) -> bool {
        self.magnitude() > INFINITY_BITS
    }

    /// Neither an infinity nor a NaN.
    pub open spec fn finite(self) -> bool {
        self.magnitude() < INFINITY_BITS
    }

    /// An integer that orders the numbers as their values do: for two numbers
    /// that are not NaN, the smaller value has the smaller key, and the two
    /// zeros share the key 0.
    pub open spec fn key(self) -> int {
        if self.is_negative() {
            -(self.magnitude() as int)
        } else {
            self.magnitude() as int
        }
    }

    /// Equality of values: a NaN equals nothing, the two zeros are equal.
    pub open spec fn equals(self, other: Number) -> bool {
        !self.is_nan() && !other.is_nan() && self.key() == other.key()
    }

    /// The value of `self` is smaller than that of `other`.
    pub open spec fn precedes(self, other: Number) -> bool {
        !self.is_nan() && !other.is_nan() && self.key() < other.key()
    }

    /// A total ranking that agrees with `key` on numbers and puts every NaN
    /// behind the positive infinity.
    pub open spec fn rank(self) -> int {
        if self.is_nan() {
            INFINITY_BITS + 1
        } else {
            self.key()
        }
    }

    /// The bit pattern with the sign of a zero removed. Two bit patterns stand
    /// for the same number exactly when their canonical patterns agree.
    pub open spec fn canonical(self) -> u64 {
        if self.magnitude() == 0 {
            0
        } else {
            self.bits
        }
    }

    /// The exponent field.
    pub open spec fn exponent(self) -> int {
        self.magnitude() as int / FRACTION_SIZE as int
    }

    /// The significand as an integer: the fraction field, with the hidden
    /// bit for a normal number.
    pub open spec fn significand(self) -> int {
        if self.exponent() == 0 {
            self.magnitude() as int % FRACTION_SIZE as int
        } else {
            FRACTION_SIZE as int + self.magnitude() as int % FRACTION_SIZE as int
        }
    }

    /// The power of two that scales the significand, as an offset from 1075:
    /// the value of a finite number is `significand * 2^(scale - 1075)`.
    pub open spec fn scale(self) -> int {
        if self.exponent() == 0 {
            1
        } else {
            self.exponent()
        }
    }

    /// The value of the magnitude rounded toward zero to a whole number,
    /// for a finite number.
    pub open spec fn whole_part(self) -> nat {
        if self.scale() >= 1075 {
            (self.significand() * pow2((self.scale() - 1075) as nat)) as nat
        } else {
            (self.significand() / pow2((1075 - self.scale()) as nat) as int) as nat
        }
    }

    /// The value is exactly the whole number `n`.
    pub open spec fn is_whole(self, n: nat) -> bool {
        if n == 0 {
            self.magnitude() == 0
        } else {
            &&& !self.is_negative()
            &&& self.finite()
            &&& if self.scale() >= 1075 {
                self.significand() * pow2((self.scale() - 1075) as nat) == n
            } else {
                self.significand() == n * pow2((1075 - self.scale()) as nat)
            }
        }
    }

    /// The number as a count: rounded toward zero, a NaN or a negative
    /// number counting as 0, and anything beyond the largest `u64` as that.
    pub open spec fn count(self) -> nat {
        if self.is_nan() || self.is_negative() {
            0
        } else if !self.finite() || self.whole_part() > u64::MAX {
            u64::MAX as nat
        } else {
            self.whole_part()
        }
    }

    pub fn from_bits(bits: u64) -> (r: Number)
        ensures
            r.bits == bits,
    {
        Number { bits }
    }

    pub fn to_bits(&self) -> (r: u64)
        ensures
            r == self.bits,
    {
        self.bits
    }

    /// The number zero.
    pub fn zero() -> (r: Number)
        ensures
            r.bits == 0,
    {
        Number { bits: 0 }
    }

    /// The number one.
    pub fn one() -> (r: Number)
        ensures
            r.bits == ONE_BITS,
            r.is_whole(1),
    {
        proof {
            lemma2_to64();
            lemma2_to64_rest();
        }
        assert(ONE_BITS as int / FRACTION_SIZE as int == 1023);
        assert(ONE_BITS as int % FRACTION_SIZE as int == 0);
        Number { bits: ONE_BITS }
    }

    /// The number one thousand.
    pub fn thousand() -> (r: Number)
        ensures
            r.bits == THOUSAND_BITS,
            r.is_whole(1000),
    {
        proof {
            lemma2_to64();
            lemma2_to64_rest();
        }
        assert(THOUSAND_BITS as int / FRACTION_SIZE as int == 1032);
        assert(THOUSAND_BITS as int % FRACTION_SIZE as int == 0xf_4000_0000_0000);
        Number { bits: THOUSAND_BITS }
    }

    fn magnitude_bits(&self) -> (r: u64)
        ensures
            r == self.magnitude(),
    {
        if self.bits >= SIGN_BIT {
            self.bits - SIGN_BIT
        } else {
            self.bits
        }
    }

    /// Whether the bit pattern is a NaN.
    pub fn is_nan_value(&self) -> (r: bool)
        ensures
            r == self.is_nan(),
    {
        self.magnitude_bits() > INFINITY_BITS
    }

    /// Whether the number is neither an infinity nor a NaN.
    pub fn is_finite(&self) -> (r: bool)
        ensures
            r == self.finite(),
    {
        self.magnitude_bits() < INFINITY_BITS
    }

    /// The ranking of `rank`, as a machine integer.
    pub fn sort_rank(&self) -> (r: i128)
        ensures
            r == self.rank(),
    {
        let m: u64 = self.magnitude_bits();
        if m > INFINITY_BITS {
            INFINITY_BITS as i128 + 1
        } else if self.bits >= SIGN_BIT {
            -(m as i128)
        } else {
            m as i128
        }
    }

    /// Equality of values.
    pub fn same_value(&self, other: &Number) -> (r: bool)
        ensures
            r == self.equals(*other),
    {
        !self.is_nan_value() && !other.is_nan_value() && self.sort_rank() == other.sort_rank()
    }

    /// Whether the value of `self` is smaller than that of `other`.
    pub fn less_than(&self, other: &Number) -> (r: bool)
        ensures
            r == self.precedes(*other),
    {
        !self.is_nan_value() && !other.is_nan_value() && self.sort_rank() < other.sort_rank()
    }

    /// The larger of two numbers. A NaN gives way to the other argument; of
    /// two equal numbers the first is returned.
    pub fn max(self, other: Number) -> (r: Number)
        ensures
            r == if other.is_nan() {
                self
            } else if self.is_nan() || self.precedes(other) {
                other
            } else {
                self
            },
    {
        if other.is_nan_value() {
            self
        } else if self.is_nan_value() || self.less_than(&other) {
            other
        } else {
            self
        }
    }

    /// The number as a count, as `count` defines it.
    pub fn to_count(&self) -> (r: u64)
        ensures
            r == self.count(),
    {
        let m: u64 = self.magnitude_bits();
        if m > INFINITY_BITS || self.bits >= SIGN_BIT {
            return 0;
        }
        if m == INFINITY_BITS {
            return u64::MAX;
        }
        let e: u64 = m / FRACTION_SIZE;
        let fraction: u64 = m % FRACTION_SIZE;
        proof {
            lemma2_to64();
            lemma2_to64_rest();
        }
        if e < 1023 {
            proof {
                let shift: nat = (1075 - self.scale()) as nat;
                lemma_pow2_monotone(53, shift);
                lemma_small_quotient(self.significand(), pow2(shift) as int);
            }
            0
        } else if e >= 1087 {
            proof {
                let shift: nat = (self.scale() - 1075) as nat;
                lemma_pow2_monotone(12, shift);
                lemma_scaled_product(self.significand(), pow2(shift) as int);
            }
            u64::MAX
        } else if e >= 1075 {
            let p: u64 = power_of_two((e - 1075) as u32);
            proof {
                let shift: nat = (self.scale() - 1075) as nat;
                lemma_pow2_monotone(shift, 11);
                lemma_bounded_product(self.significand(), pow2(shift) as int);
            }
            (FRACTION_SIZE + fraction) * p
        } else {
            let p: u64 = power_of_two((1075 - e) as u32);
            proof {
                lemma_pow2_pos((1075 - self.scale()) as nat);
            }
            (FRACTION_SIZE + fraction) / p
        }
    }

    /// Whether the value is exactly the whole number `n`.
    pub fn is_whole_number(&self, n: u64) -> (r: bool)
        ensures
            r == self.is_whole(n as nat),
    {
        let m: u64 = self.magnitude_bits();
        if n == 0 {
            return m == 0;
        }
        if self.bits >= SIGN_BIT || m >= INFINITY_BITS {
            return false;
        }
        let e: u64 = m / FRACTION_SIZE;
        let fraction: u64 = m % FRACTION_SIZE;
        proof {
            lemma2_to64();
            lemma2_to64_rest();
        }
        if e < 1023 {
            proof {
                let shift: nat = (1075 - self.scale()) as nat;
                lemma_pow2_monotone(53, shift);
                lemma_large_product(n as int, pow2(shift) as int);
            }
            false
        } else if e >= 1087 {
            proof {
                let shift: nat = (self.scale() - 1075) as nat;
                lemma_pow2_monotone(12, shift);
                lemma_scaled_product(self.significand(), pow2(shift) as int);
            }
            false
        } else if e >= 1075 {
            let p: u64 = power_of_two((e - 1075) as u32);
            proof {
                let shift: nat = (self.scale() - 1075) as nat;
                lemma_pow2_monotone(shift, 11);
                lemma_bounded_product(self.significand(), pow2(shift) as int);
            }
            (FRACTION_SIZE + fraction) * p == n
        } else {
            let p: u64 = power_of_two((1075 - e) as u32);
            let sig: u64 = FRACTION_SIZE + fraction;
            proof {
                lemma_pow2_pos((1075 - self.scale()) as nat);
                lemma_exact_quotient(sig as int, p as int, n as int);
            }
            sig % p == 0 && sig / p == n
        }
    }
}

/// Two to the power `k`.
pub fn power_of_two(k: u32) -> (r: u64)
    requires
        k < 64,
    ensures
        r == pow2(k as nat),
{
    let mut r: u64 = 1;
    let mut i: u32 = 0;
    proof {
        lemma2_to64();
    }
    while i < k
        invariant
            i <= k,
            k < 64,
            r == pow2(i as nat),
        decreases k - i,
    {
        proof {
            lemma_pow2_unfold((i + 1) as nat);
            lemma2_to64_rest();
            if i + 1 < 63 {
                lemma_pow2_strictly_increases((i + 1) as nat, 63);
            }
        }
        r = r * 2;
        i = i + 1;
    }
    r
}

proof fn lemma_pow2_monotone(a: nat, b: nat)
    requires
        a <= b,
    ensures
        pow2(a) <= pow2(b),
{
    if a < b {
        lemma_pow2_strictly_increases(a, b);
    }
}

proof fn lemma_scaled_product(a: int, b: int)
    requires
        a >= 0x10_0000_0000_0000,
        b >= 0x1000,
    ensures
        a * b >= 0x1_0000_0000_0000_0000,
{
    assert(a * b >= 0x1_0000_0000_0000_0000) by (nonlinear_arith)
        requires
            a >= 0x10_0000_0000_0000,
            b >= 0x1000,
    ;
}

proof fn lemma_small_quotient(a: int, b: int)
    requires
        0 <= a < b,
    ensures
        a / b == 0,
{
    vstd::arithmetic::div_mod::lemma_basic_div(a, b);
}

proof fn lemma_large_product(a: int, b: int)
    requires
        a >= 1,
        b >= 0,
    ensures
        a * b >= b,
{
    assert(a * b >= b) by (nonlinear_arith)
        requires
            a >= 1,
            b >= 0,
    ;
}

proof fn lemma_bounded_product(a: int, b: int)
    requires
        0 <= a < 0x20_0000_0000_0000,
        0 <= b <= 0x800,
    ensures
        0 <= a * b < 0x1_0000_0000_0000_0000,
{
    assert(0 <= a * b < 0x1_0000_0000_0000_0000) by (nonlinear_arith)
        requires
            0 <= a < 0x20_0000_0000_0000,
            0 <= b <= 0x800,
    ;
}

proof fn lemma_exact_quotient(a: int, b: int, n: int)
    requires
        a >= 0,
        b > 0,
    ensures
        (a == n * b) <==> (a % b == 0 && a / b == n),
{
    vstd::arithmetic::div_mod::lemma_fundamental_div_mod(a, b);
    if a == n * b {
        vstd::arithmetic::div_mod::lemma_fundamental_div_mod_converse(a, b, n, 0);
    }
    if a % b == 0 && a / b == n {
        assert(b * (a / b) == n * b) by (nonlinear_arith)
            requires
                a / b == n,
        ;
    }
}

} // verus!

//! Exact decimal numbers: an unbounded integer mantissa and a count of
//! decimal places.
//!
//! The value of a `Decimal` is `mantissa / 10^scale`. Sums, products and
//! comparisons are exact, whatever the size of the numbers; integers are
//! those of `num-bigint`, as `bigdecimal` re-exports it.
use bigdecimal::num_bigint::{BigInt, Sign};
use bigdecimal::{BigDecimal, ToPrimitive};
use vstd::prelude::*;

verus! {

/// The value of base-2^32 digits, least significant first.
pub open spec fn limbs_value(s: Seq<u32>) -> nat
    decreases s.len(),
{
    if s.len() == 0 {
        0
    } else {
        (s[0] + 4294967296 * limbs_value(s.subrange(1, s.len() as int))) as nat
    }
}

/// An integer of any size: a sign and base-2^32 digits, least significant
/// first (as `BigInt::to_u32_digits` gives them).
#[derive(Debug)]
pub struct BigNum {
    negative: bool,
    limbs: Vec<u32>,
}

impl View for BigNum {
    type V = int;

    closed spec fn view(&self) -> int {
        if self.negative {
            -limbs_value(self.limbs@)
        } else {
            limbs_value(self.limbs@) as int
        }
    }
}

impl Clone for BigNum {
    fn clone(&self) -> (r: Self)
        ensures
            r@ == self@,
    {
        let limbs = self.limbs.clone();
        assert(limbs@ =~= self.limbs@);
        BigNum { negative: self.negative, limbs }
    }
}

impl BigNum {
    /// The sign and digits, least significant first.
    pub fn to_parts(&self) -> (r: (bool, Vec<u32>)) {
        (self.negative, self.limbs.clone())
    }

    /// The integer with this sign and these digits.
    pub fn from_parts(negative: bool, limbs: Vec<u32>) -> (r: BigNum)
        ensures
            r@ == (if negative {
                -limbs_value(limbs@)
            } else {
                limbs_value(limbs@) as int
            }),
    {
        BigNum { negative, limbs }
    }
}

/// `BigInt::from(n)` in digit form. Claimed: it is the integer `n`.
#[verifier::external_body]
fn bignum_from_i128(n: i128) -> (r: BigNum)
    ensures
        r@ == n,
{
    let (sign, limbs) = BigInt::from(n).to_u32_digits();
    let negative = match sign {
        Sign::Minus => true,
        Sign::NoSign => false,
        Sign::Plus => false,
    };
    BigNum { negative, limbs }
}

/// `BigInt` addition. Claimed: the exact sum.
#[verifier::external_body]
fn bignum_add(a: &BigNum, b: &BigNum) -> (r: BigNum)
    ensures
        r@ == a@ + b@,
{
    let x = BigInt::new(if a.negative { Sign::Minus } else { Sign::Plus }, a.limbs.clone());
    let y = BigInt::new(if b.negative { Sign::Minus } else { Sign::Plus }, b.limbs.clone());
    let (sign, limbs) = (x + y).to_u32_digits();
    let negative = match sign {
        Sign::Minus => true,
        Sign::NoSign => false,
        Sign::Plus => false,
    };
    BigNum { negative, limbs }
}

/// `BigInt` multiplication. Claimed: the exact product.
#[verifier::external_body]
fn bignum_mul(a: &BigNum, b: &BigNum) -> (r: BigNum)
    ensures
        r@ == a@ * b@,
{
    let x = BigInt::new(if a.negative { Sign::Minus } else { Sign::Plus }, a.limbs.clone());
    let y = BigInt::new(if b.negative { Sign::Minus } else { Sign::Plus }, b.limbs.clone());
    let (sign, limbs) = (x * y).to_u32_digits();
    let negative = match sign {
        Sign::Minus => true,
        Sign::NoSign => false,
        Sign::Plus => false,
    };
    BigNum { negative, limbs }
}

/// `BigInt`'s `<`. Claimed: it compares the integers.
#[verifier::external_body]
fn bignum_lt(a: &BigNum, b: &BigNum) -> (r: bool)
    ensures
        r == (a@ < b@),
{
    let x = BigInt::new(if a.negative { Sign::Minus } else { Sign::Plus }, a.limbs.clone());
    let y = BigInt::new(if b.negative { Sign::Minus } else { Sign::Plus }, b.limbs.clone());
    x < y
}

/// The decimal `mantissa / 10^scale`.
#[derive(Debug)]
pub struct Decimal {
    pub mantissa: BigNum,
    pub scale: u32,
}

/// A decimal as numbers: its mantissa and its scale.
pub type DecimalView = (int, nat);

impl View for Decimal {
    type V = DecimalView;

    open spec fn view(&self) -> DecimalView {
        (self.mantissa@, self.scale as nat)
    }
}

impl Clone for Decimal {
    fn clone(&self) -> (r: Self)
        ensures
            r@ == self@,
    {
        Decimal { mantissa: self.mantissa.clone(), scale: self.scale }
    }
}

/// `10^n`.
pub open spec fn pow10(n: nat) -> int
    decreases n,
{
    if n == 0 {
        1
    } else {
        10 * pow10((n - 1) as nat)
    }
}

/// The larger of the two scales.
pub open spec fn common_scale(a: DecimalView, b: DecimalView) -> nat {
    if a.1 >= b.1 {
        a.1
    } else {
        b.1
    }
}

/// The mantissa of `d` written with `s` decimal places (`s >= d.1`).
pub open spec fn aligned(d: DecimalView, s: nat) -> int {
    d.0 * pow10((s - d.1) as nat)
}

/// `a` and `b` stand for the same number.
pub open spec fn same_value(a: DecimalView, b: DecimalView) -> bool {
    aligned(a, common_scale(a, b)) == aligned(b, common_scale(a, b))
}

/// The number `a` is smaller than the number `b`.
pub open spec fn less_than(a: DecimalView, b: DecimalView) -> bool {
    aligned(a, common_scale(a, b)) < aligned(b, common_scale(a, b))
}

/// The exact sum, written with the larger of the two scales.
pub open spec fn sum_of(a: DecimalView, b: DecimalView) -> DecimalView {
    let s = common_scale(a, b);
    (aligned(a, s) + aligned(b, s), s)
}

/// The exact product, with the scales added; `None` when the scale would
/// not fit in 32 bits.
pub open spec fn product_of(a: DecimalView, b: DecimalView) -> Option<DecimalView> {
    if a.1 + b.1 <= u32::MAX {
        Some((a.0 * b.0, a.1 + b.1))
    } else {
        None
    }
}

/// `d` restricted to the range from `lo` to `hi`.
pub open spec fn clamped(d: DecimalView, lo: DecimalView, hi: DecimalView) -> DecimalView {
    if less_than(d, lo) {
        lo
    } else if less_than(hi, d) {
        hi
    } else {
        d
    }
}

/// The decimal holding the integer `n`.
pub open spec fn int_decimal(n: int) -> DecimalView {
    (n, 0)
}

/// `m / 10^s`, rounded toward zero, when it fits in 64 bits.
pub open spec fn truncated_in_i64(m: int, s: nat) -> Option<i64> {
    let q = if m >= 0 {
        m / pow10(s)
    } else {
        -((-m) / pow10(s))
    };
    if i64::MIN <= q <= i64::MAX {
        Some(q as i64)
    } else {
        None
    }
}

/// What `BigDecimal::new(mantissa, scale) / BigDecimal::from(divisor)` gives,
/// as mantissa and scale, when its scale is neither negative nor wider than
/// 32 bits.
pub uninterp spec fn decimal_quotient(a: DecimalView, divisor: i64) -> Option<DecimalView>;

/// `m * 10^k`.
fn scale_up(m: &BigNum, k: u32) -> (r: BigNum)
    ensures
        r@ == m@ * pow10(k as nat),
{
    let ten = bignum_from_i128(10);
    let mut acc = m.clone();
    let mut i: u32 = 0;
    while i < k
        invariant
            i <= k,
            ten@ == 10,
            acc@ == m@ * pow10(i as nat),
        decreases k - i,
    {
        let next = bignum_mul(&acc, &ten);
        assert(m@ * pow10((i + 1) as nat) == 10 * (m@ * pow10(i as nat))) by (nonlinear_arith)
            requires
                pow10((i + 1) as nat) == 10 * pow10(i as nat),
        ;
        acc = next;
        i = i + 1;
    }
    acc
}

/// Converts to `BigDecimal` and calls `ToPrimitive::to_i64`. Claimed: the
/// value truncated toward zero (`to_i64` drops the fractional digits of the
/// magnitude), when it fits in 64 bits.
#[verifier::external_body]
fn decimal_to_i64(d: &Decimal) -> (r: Option<i64>)
    ensures
        r == truncated_in_i64(d@.0, d@.1),
{
    let m = &d.mantissa;
    let x = BigInt::new(if m.negative { Sign::Minus } else { Sign::Plus }, m.limbs.clone());
    BigDecimal::new(x, d.scale as i64).to_i64()
}

/// Divides with `bigdecimal` (`BigDecimal / BigDecimal`) by the integer
/// `divisor`, and takes the quotient's mantissa and scale back. Claimed: the
/// result is `decimal_quotient` of the arguments; when the dividend is a
/// whole number that `divisor` divides, the quotient is exact and written
/// with scale 0 (`impl_division` returns at once when the remainder is zero,
/// and the shortcuts for zero, one and equal operands agree). Other
/// quotients are rounded at a precision that the crate fixes when it is
/// built, and nothing more is stated of them. Division by zero panics, so
/// `divisor` is not zero.
#[verifier::external_body]
fn decimal_div_int(a: &Decimal, divisor: i64) -> (r: Option<Decimal>)
    requires
        divisor != 0,
    ensures
        r is None <==> decimal_quotient(a@, divisor) is None,
        r matches Some(q) ==> decimal_quotient(a@, divisor) == Some(q@),
        r matches Some(q) ==> (a@.1 == 0 && a@.0 % (divisor as int) == 0 ==> q@.0 == a@.0 / (divisor as int)
            && q@.1 == 0),
        r is None ==> !(a@.1 == 0 && a@.0 % (divisor as int) == 0),
{
    let m = &a.mantissa;
    let x = BigInt::new(if m.negative { Sign::Minus } else { Sign::Plus }, m.limbs.clone());
    let (q, exp) = (BigDecimal::new(x, a.scale as i64) / BigDecimal::from(divisor)).as_bigint_and_exponent();
    let (sign, limbs) = q.to_u32_digits();
    let negative = match sign {
        Sign::Minus => true,
        Sign::NoSign => false,
        Sign::Plus => false,
    };
    match u32::try_from(exp) {
        Ok(scale) => Some(Decimal { mantissa: BigNum { negative, limbs }, scale }),
        Err(_) => None,
    }
}

impl Decimal {
    /// The decimal holding the integer `n`.
    pub fn from_int(n: i64) -> (d: Decimal)
        ensures
            d@ == int_decimal(n as int),
    {
        Decimal { mantissa: bignum_from_i128(n as i128), scale: 0 }
    }

    /// The decimal `mantissa / 10^scale`.
    pub fn new(mantissa: i128, scale: u32) -> (d: Decimal)
        ensures
            d@ == (mantissa as int, scale as nat),
    {
        Decimal { mantissa: bignum_from_i128(mantissa), scale }
    }

    /// The exact sum of `self` and `other`, written with the larger scale.
    pub fn sum(&self, other: &Decimal) -> (r: Decimal)
        ensures
            r@ == sum_of(self@, other@),
    {
        let s = if self.scale >= other.scale {
            self.scale
        } else {
            other.scale
        };
        let x = scale_up(&self.mantissa, s - self.scale);
        let y = scale_up(&other.mantissa, s - other.scale);
        Decimal { mantissa: bignum_add(&x, &y), scale: s }
    }

    /// The exact product of `self` and `other`; `None` when the scale would
    /// not fit in 32 bits.
    pub fn checked_mul(&self, other: &Decimal) -> (r: Option<Decimal>)
        ensures
            match product_of(self@, other@) {
                Some(v) => r matches Some(d) && d@ == v,
                None => r is None,
            },
    {
        match self.scale.checked_add(other.scale) {
            Some(s) => Some(Decimal { mantissa: bignum_mul(&self.mantissa, &other.mantissa), scale: s }),
            None => None,
        }
    }

    /// Whether `self` is a smaller number than `other`.
    pub fn lt(&self, other: &Decimal) -> (b: bool)
        ensures
            b == less_than(self@, other@),
    {
        if self.scale >= other.scale {
            let y = scale_up(&other.mantissa, self.scale - other.scale);
            proof {
                assert(pow10(0) == 1);
                assert(self@.0 * pow10(0) == self@.0);
            }
            bignum_lt(&self.mantissa, &y)
        } else {
            let x = scale_up(&self.mantissa, other.scale - self.scale);
            proof {
                assert(other@.0 * pow10(0) == other@.0);
            }
            bignum_lt(&x, &other.mantissa)
        }
    }

    /// Whether `self` and `other` stand for the same number.
    pub fn same_value(&self, other: &Decimal) -> (b: bool)
        ensures
            b == same_value(self@, other@),
    {
        !self.lt(other) && !other.lt(self)
    }

    /// `self` restricted to the range from `lo` to `hi`, as `Ord::clamp` does.
    pub fn clamp(self, lo: Decimal, hi: Decimal) -> (d: Decimal)
        requires
            !less_than(hi@, lo@),
        ensures
            d@ == clamped(self@, lo@, hi@),
    {
        if self.lt(&lo) {
            lo
        } else if hi.lt(&self) {
            hi
        } else {
            self
        }
    }

    /// The value truncated toward zero, when it fits in 64 bits.
    pub fn to_i64(&self) -> (r: Option<i64>)
        ensures
            r == truncated_in_i64(self@.0, self@.1),
    {
        decimal_to_i64(self)
    }

    /// `self / divisor` as `bigdecimal` divides; see `decimal_quotient`.
    pub fn div_int(&self, divisor: i64) -> (r: Option<Decimal>)
        requires
            divisor != 0,
        ensures
            match r {
                Some(q) => decimal_quotient(self@, divisor) == Some(q@),
                None => decimal_quotient(self@, divisor) is None,
            },
            self@.1 == 0 && self@.0 % (divisor as int) == 0 ==> (r matches Some(q) && q@.0 == self@.0
                / (divisor as int) && q@.1 == 0),
    {
        decimal_div_int(self, divisor)
    }
}

} // verus!

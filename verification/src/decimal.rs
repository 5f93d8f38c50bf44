//! Money amounts as `bigdecimal::BigDecimal` holds them: an integer
//! mantissa and a scale, the value being `mantissa × 10^(−scale)`.
//!
//! The arithmetic that the services perform on amounts (comparison, sign,
//! absolute value, sums and differences) is carried out here on the two
//! integers, with the scales `BigDecimal` gives its results; parsing and
//! printing go through `BigDecimal` itself.
use vstd::prelude::*;
use bigdecimal::BigDecimal;
use bigdecimal::num_bigint::BigInt;
use bigdecimal::ToPrimitive;
use crate::text::{lemma_pow10_mono, pow10};

verus! {

/// A decimal number: `mantissa × 10^(−scale)`.
#[derive(Debug, Clone, Copy, PartialEq, Eq, Structural)]
pub struct Decimal {
    pub mantissa: i128,
    pub scale: i64,
}

pub open spec fn max_int(a: int, b: int) -> int {
    if a >= b {
        a
    } else {
        b
    }
}

pub open spec fn fits_i128(x: int) -> bool {
    i128::MIN <= x <= i128::MAX
}

/// The mantissa of `d` rewritten at scale `s` (for `s >= d.scale`).
pub open spec fn aligned(d: Decimal, s: int) -> int {
    d.mantissa * pow10((s - d.scale) as nat)
}

/// The scale at which two decimals are compared and combined.
pub open spec fn common_scale(a: Decimal, b: Decimal) -> int {
    max_int(a.scale as int, b.scale as int)
}

/// −1, 0 or 1 as the value of `a` is below, equal to or above that of `b`.
pub open spec fn value_order(a: Decimal, b: Decimal) -> int {
    let s = common_scale(a, b);
    if aligned(a, s) < aligned(b, s) {
        -1
    } else if aligned(a, s) == aligned(b, s) {
        0
    } else {
        1
    }
}

/// Whether two decimals have the same value (`BigDecimal`'s `==`).
pub open spec fn same_value(a: Decimal, b: Decimal) -> bool {
    value_order(a, b) == 0
}

/// −1, 0 or 1 as the value of `d` is negative, zero or positive.
pub open spec fn sign_of(d: Decimal) -> int {
    if d.mantissa < 0 {
        -1
    } else if d.mantissa == 0 {
        0
    } else {
        1
    }
}

/// The decimal zero, as `BigDecimal::from(0)` builds it.
pub open spec fn zero_spec() -> Decimal {
    Decimal { mantissa: 0, scale: 0 }
}

/// The absolute value (`BigDecimal::abs` keeps the scale).
pub open spec fn abs_spec(d: Decimal) -> Decimal {
    Decimal {
        mantissa: if d.mantissa < 0 {
            (-d.mantissa) as i128
        } else {
            d.mantissa
        },
        scale: d.scale,
    }
}

/// The text `BigDecimal`'s `Display` gives for `mantissa × 10^(−scale)`.
pub uninterp spec fn decimal_text(mantissa: int, scale: int) -> Seq<char>;

/// The text `format!("{:.2}", ..)` gives for `mantissa × 10^(−scale)`.
pub uninterp spec fn decimal_text_2dp(mantissa: int, scale: int) -> Seq<char>;

/// The (mantissa, scale) pair `BigDecimal::from_str` reads from the
/// characters `s`, or `None` where it refuses them.
pub uninterp spec fn parsed_decimal(s: Seq<char>) -> Option<(int, int)>;

/// Whether `s` is an amount this library can hold: `bigdecimal` parses it
/// and its mantissa lies strictly inside the `i128` range.
pub open spec fn readable_decimal(s: Seq<char>) -> bool {
    match parsed_decimal(s) {
        Some(p) => i128::MIN < p.0 <= i128::MAX,
        None => false,
    }
}

/// The value of a readable amount.
pub open spec fn read_decimal(s: Seq<char>) -> Decimal {
    let p = parsed_decimal(s).unwrap();
    Decimal { mantissa: p.0 as i128, scale: p.1 as i64 }
}

/// `BigDecimal::from_str`, its mantissa held as an `i128`.
///
/// The mantissa and scale are named by `parsed_decimal`; the grammar of
/// decimal literals that `bigdecimal` accepts (signs, exponents) is not
/// restated. `None` also comes back for a literal whose mantissa does not
/// fit in an `i128`.
#[verifier::external_body]
pub(crate) fn parse_decimal(s: &str) -> (res: Option<Decimal>)
    ensures
        match res {
            Some(d) => parsed_decimal(s@) == Some((d.mantissa as int, d.scale as int)),
            None => match parsed_decimal(s@) {
                None => true,
                Some(p) => !fits_i128(p.0),
            },
        },
{
    let parsed: BigDecimal = match s.parse::<BigDecimal>() {
        Ok(v) => v,
        Err(_) => return None,
    };
    let (digits, scale) = parsed.into_bigint_and_exponent();
    digits.to_i128().map(|mantissa| Decimal { mantissa, scale })
}

/// The (mantissa, scale) of the `BigDecimal` product of two decimals.
pub uninterp spec fn decimal_product(a_mantissa: int, a_scale: int, b_mantissa: int, b_scale: int) -> (int, int);

/// A decimal whose mantissa is held, of any size, as its big-endian
/// two's-complement bytes (`BigInt::to_signed_bytes_be`): the value is
/// `be_signed(digits) × 10^(−scale)`.
#[derive(Debug, Clone, PartialEq, Eq)]
pub struct WideDecimal {
    pub digits: Vec<u8>,
    pub scale: i64,
}

/// The unsigned value of big-endian bytes.
pub open spec fn be_unsigned(b: Seq<u8>) -> nat
    decreases b.len(),
{
    if b.len() == 0 {
        0
    } else {
        be_unsigned(b.drop_last()) * 256 + b.last() as nat
    }
}

/// The value of big-endian two's-complement bytes: negative where the
/// first byte's top bit is set.
pub open spec fn be_signed(b: Seq<u8>) -> int {
    if b.len() > 0 && b[0] >= 128 {
        be_unsigned(b) - vstd::arithmetic::power::pow(256, b.len())
    } else {
        be_unsigned(b) as int
    }
}

/// The mantissa of a wide decimal.
pub open spec fn wide_mantissa(w: WideDecimal) -> int {
    be_signed(w.digits@)
}

/// Whether `d` is one written at a scale of at least zero
/// (`10^scale × 10^(−scale)`), the operand that `bigdecimal`'s product
/// answers by normalizing the other one.
pub open spec fn unit_decimal(d: Decimal) -> bool {
    d.scale >= 0 && d.mantissa == pow10(d.scale as nat)
}

/// The inputs on which `bigdecimal`'s product computes its scale without
/// overflow: the sum of the scales fits in an `i64`, and where one side is
/// one, the other (a nonzero `i128` mantissa has at most 38 trailing zeros)
/// can drop its trailing zeros from its scale.
pub open spec fn product_defined(a: Decimal, b: Decimal) -> bool {
    &&& i64::MIN <= a.scale + b.scale <= i64::MAX
    &&& unit_decimal(b) ==> i64::MIN + 38 <= a.scale
    &&& unit_decimal(a) ==> i64::MIN + 38 <= b.scale
}

/// `d` as a wide decimal (`BigInt::from(mantissa).to_signed_bytes_be()`),
/// the same mantissa and scale.
#[verifier::external_body]
pub(crate) fn widen(d: &Decimal) -> (res: WideDecimal)
    ensures
        wide_mantissa(res) == d.mantissa,
        res.scale == d.scale,
{
    WideDecimal { digits: BigInt::from(d.mantissa).to_signed_bytes_be(), scale: d.scale }
}

/// `&a * &b` on `BigDecimal`s. The representation is named by
/// `decimal_product` (`bigdecimal` returns a normalized operand when the
/// other is one); for scales of at least zero its value is the product of
/// the values.
#[verifier::external_body]
pub(crate) fn multiply(a: &Decimal, b: &Decimal) -> (res: WideDecimal)
    requires
        product_defined(*a, *b),
    ensures
        decimal_product(a.mantissa as int, a.scale as int, b.mantissa as int, b.scale as int) == (
            wide_mantissa(res),
            res.scale as int,
        ),
        a.scale >= 0 && b.scale >= 0 ==> res.scale <= a.scale + b.scale && wide_mantissa(res) * pow10(
            (a.scale + b.scale - res.scale) as nat,
        ) == a.mantissa * b.mantissa,
{
    let x = BigDecimal::new(BigInt::from(a.mantissa), a.scale);
    let y = BigDecimal::new(BigInt::from(b.mantissa), b.scale);
    let (digits, scale) = (&x * &y).into_bigint_and_exponent();
    WideDecimal { digits: digits.to_signed_bytes_be(), scale }
}

/// `BigDecimal`'s `Display` (what `to_string()` gives).
#[verifier::external_body]
pub(crate) fn decimal_to_string(d: &Decimal) -> (res: String)
    ensures
        res@ == decimal_text(d.mantissa as int, d.scale as int),
{
    BigDecimal::new(BigInt::from(d.mantissa), d.scale).to_string()
}

/// `format!("{:.2}", ..)` of a `BigDecimal`.
#[verifier::external_body]
pub(crate) fn decimal_to_string_2dp(d: &Decimal) -> (res: String)
    ensures
        res@ == decimal_text_2dp(d.mantissa as int, d.scale as int),
{
    format!("{:.2}", BigDecimal::new(BigInt::from(d.mantissa), d.scale))
}

pub proof fn lemma_pow10_add(a: nat, b: nat)
    ensures
        pow10(a + b) == pow10(a) * pow10(b),
    decreases a,
{
    reveal_with_fuel(pow10, 2);
    if a == 0 {
        assert(a + b == b);
        assert(pow10(0) == 1);
    }
    if a > 0 {
        lemma_pow10_add((a - 1) as nat, b);
        assert((a + b) as nat - 1 == (a - 1 + b) as nat);
        assert(pow10(a + b) == 10 * pow10((a - 1 + b) as nat));
        let x = pow10((a - 1) as nat);
        let y = pow10(b);
        let am1: nat = (a - 1) as nat;
        assert(pow10(am1 + b) == x * y);
        assert(am1 + b == (a - 1 + b) as nat);
        assert(pow10(a) == 10 * x);
        assert((10 * x) * y == 10 * (x * y)) by (nonlinear_arith);
        assert(pow10(a + b) == pow10(a) * pow10(b));
    }
}

/// Rewriting at a higher scale multiplies by the right power of ten.
pub proof fn lemma_aligned_shift(d: Decimal, s: int, t: int)
    requires
        d.scale <= s <= t,
    ensures
        aligned(d, t) == aligned(d, s) * pow10((t - s) as nat),
{
    lemma_pow10_add((s - d.scale) as nat, (t - s) as nat);
    assert(((s - d.scale) as nat + (t - s) as nat) as nat == (t - d.scale) as nat);
    assert(d.mantissa * (pow10((s - d.scale) as nat) * pow10((t - s) as nat)) == (d.mantissa
        * pow10((s - d.scale) as nat)) * pow10((t - s) as nat)) by (nonlinear_arith);
}

/// The order of values is transitive and antisymmetric.
pub proof fn lemma_value_order_transitive(a: Decimal, b: Decimal, c: Decimal)
    ensures
        value_order(a, b) <= 0 && value_order(b, c) <= 0 ==> value_order(a, c) <= 0,
        value_order(a, b) < 0 && value_order(b, c) <= 0 ==> value_order(a, c) < 0,
        value_order(a, b) <= 0 && value_order(b, c) < 0 ==> value_order(a, c) < 0,
        value_order(a, b) == -value_order(b, a),
{
    let t = max_int(max_int(a.scale as int, b.scale as int), c.scale as int);
    lemma_order_any_scale(a, b, t);
    lemma_order_any_scale(b, c, t);
    lemma_order_any_scale(a, c, t);
    lemma_order_any_scale(b, a, t);
}

/// The order of two values does not depend on the common scale chosen.
pub proof fn lemma_order_any_scale(a: Decimal, b: Decimal, t: int)
    requires
        a.scale <= t,
        b.scale <= t,
    ensures
        value_order(a, b) == (if aligned(a, t) < aligned(b, t) {
            -1int
        } else if aligned(a, t) == aligned(b, t) {
            0
        } else {
            1
        }),
{
    let s = common_scale(a, b);
    lemma_aligned_shift(a, s, t);
    lemma_aligned_shift(b, s, t);
    let p = pow10((t - s) as nat);
    lemma_pow10_mono(0, (t - s) as nat);
    let x = aligned(a, s);
    let y = aligned(b, s);
    assert(x < y ==> x * p < y * p) by (nonlinear_arith)
        requires
            p >= 1,
    ;
    assert(x == y ==> x * p == y * p);
    assert(x > y ==> x * p > y * p) by (nonlinear_arith)
        requires
            p >= 1,
    ;
}

fn magnitude(x: i128) -> (r: u128)
    ensures
        r as int == (if x < 0 {
            -x
        } else {
            x as int
        }),
{
    if x < 0 {
        ((-(x + 1)) as u128) + 1
    } else {
        x as u128
    }
}

fn order_i128(x: i128, y: i128) -> (res: i8)
    ensures
        res == (if x < y {
            -1int
        } else if x == y {
            0
        } else {
            1
        }),
{
    if x < y {
        -1
    } else if x == y {
        0
    } else {
        1
    }
}

/// The order of `x · 10^k` against `y`.
fn order_scaled(x: i128, k: u128, y: i128) -> (res: i8)
    ensures
        res == (if x * pow10(k as nat) < y {
            -1int
        } else if x * pow10(k as nat) == y {
            0
        } else {
            1
        }),
{
    let ym = magnitude(y);
    let mut v = x;
    let mut i: u128 = 0;
    assert(pow10(0) == 1);
    while i < k
        invariant
            i <= k,
            v as int == x * pow10(i as nat),
            ym as int == (if y < 0 {
                -y
            } else {
                y as int
            }),
        decreases k - i,
    {
        let vm = magnitude(v);
        proof {
            lemma_pow10_add(i as nat, (k - i) as nat);
            lemma_pow10_mono(1, (k - i) as nat);
            assert(x * pow10(k as nat) == (v as int) * pow10((k - i) as nat)) by (nonlinear_arith)
                requires
                    pow10(k as nat) == pow10(i as nat) * pow10((k - i) as nat),
                    v as int == x * pow10(i as nat),
            ;
        }
        if v == 0 {
            proof {
                assert(x * pow10(k as nat) == 0) by (nonlinear_arith)
                    requires
                        x * pow10(k as nat) == (v as int) * pow10((k - i) as nat),
                        v == 0,
                ;
            }
            return order_i128(0, y);
        }
        if vm > ym / 10 {
            proof {
                let p = pow10((k - i) as nat);
                let w = x * pow10(k as nat);
                if v > 0 {
                    assert(w >= (v as int) * 10) by (nonlinear_arith)
                        requires
                            w == (v as int) * p,
                            p >= 10,
                            v > 0,
                    ;
                } else {
                    assert(w <= (v as int) * 10) by (nonlinear_arith)
                        requires
                            w == (v as int) * p,
                            p >= 10,
                            v < 0,
                    ;
                }
            }
            if v > 0 {
                return 1;
            } else {
                return -1;
            }
        }
        proof {
            assert((v as int) * 10 == x * pow10((i + 1) as nat)) by (nonlinear_arith)
                requires
                    v as int == x * pow10(i as nat),
                    pow10((i + 1) as nat) == 10 * pow10(i as nat),
            ;
        }
        v = v * 10;
        i = i + 1;
    }
    order_i128(v, y)
}

impl Decimal {
    /// `BigDecimal::from_str`: the amount written in `s`, when `bigdecimal`
    /// reads it and its mantissa lies strictly inside the `i128` range.
    pub fn parse(s: &str) -> (res: Option<Decimal>)
        ensures
            match res {
                Some(d) => parsed_decimal(s@) == Some((d.mantissa as int, d.scale as int))
                    && d.mantissa != i128::MIN,
                None => match parsed_decimal(s@) {
                    None => true,
                    Some(p) => !(i128::MIN < p.0 <= i128::MAX),
                },
            },
    {
        match parse_decimal(s) {
            Some(d) => if d.mantissa == i128::MIN {
                None
            } else {
                Some(d)
            },
            None => None,
        }
    }

    /// `BigDecimal::from(0)`.
    pub fn zero() -> (res: Decimal)
        ensures
            res == zero_spec(),
    {
        Decimal { mantissa: 0, scale: 0 }
    }

    /// −1, 0 or 1 with the sign of the value.
    pub fn signum(&self) -> (res: i8)
        ensures
            res == sign_of(*self),
    {
        if self.mantissa < 0 {
            -1
        } else if self.mantissa == 0 {
            0
        } else {
            1
        }
    }

    pub fn is_zero(&self) -> (res: bool)
        ensures
            res == (sign_of(*self) == 0),
    {
        self.mantissa == 0
    }

    /// `BigDecimal::abs`.
    pub fn abs(&self) -> (res: Decimal)
        requires
            self.mantissa != i128::MIN,
        ensures
            res == abs_spec(*self),
    {
        if self.mantissa < 0 {
            Decimal { mantissa: -self.mantissa, scale: self.scale }
        } else {
            *self
        }
    }

    /// Negation (`-x` keeps the scale).
    pub fn neg(&self) -> (res: Decimal)
        requires
            self.mantissa != i128::MIN,
        ensures
            res.mantissa == -self.mantissa,
            res.scale == self.scale,
    {
        Decimal { mantissa: -self.mantissa, scale: self.scale }
    }

    /// Order of the two values: −1, 0 or 1.
    pub fn order(&self, other: &Decimal) -> (res: i8)
        ensures
            res == value_order(*self, *other),
    {
        if self.scale == other.scale {
            order_i128(self.mantissa, other.mantissa)
        } else if self.scale < other.scale {
            let k = (other.scale as i128 - self.scale as i128) as u128;
            proof {
                assert(pow10(0) == 1);
                assert(aligned(*other, other.scale as int) == other.mantissa * pow10(0));
            }
            order_scaled(self.mantissa, k, other.mantissa)
        } else {
            let k = (self.scale as i128 - other.scale as i128) as u128;
            proof {
                assert(pow10(0) == 1);
                assert(aligned(*self, self.scale as int) == self.mantissa * pow10(0));
            }
            let r = order_scaled(other.mantissa, k, self.mantissa);
            -r
        }
    }

    /// Value equality (`BigDecimal`'s `==`).
    pub fn same_value_as(&self, other: &Decimal) -> (res: bool)
        ensures
            res == same_value(*self, *other),
    {
        self.order(other) == 0
    }
}

/// `m · 10^k`, or `None` when it leaves the `i128` range.
fn scale_up(m: i128, k: u128) -> (res: Option<i128>)
    ensures
        match res {
            Some(v) => v as int == m * pow10(k as nat),
            None => !fits_i128(m * pow10(k as nat)),
        },
{
    let mut v = m;
    let mut i: u128 = 0;
    assert(pow10(0) == 1);
    while i < k
        invariant
            i <= k,
            v as int == m * pow10(i as nat),
        decreases k - i,
    {
        if v == 0 {
            proof {
                lemma_pow10_mono(0, k as nat);
                lemma_pow10_mono(0, i as nat);
                assert(m == 0) by (nonlinear_arith)
                    requires
                        v as int == m * pow10(i as nat),
                        v == 0,
                        pow10(i as nat) >= 1,
                ;
            }
            return Some(0);
        }
        match v.checked_mul(10) {
            Some(w) => {
                proof {
                    assert((v as int) * 10 == m * pow10((i + 1) as nat)) by (nonlinear_arith)
                        requires
                            v as int == m * pow10(i as nat),
                            pow10((i + 1) as nat) == 10 * pow10(i as nat),
                    ;
                }
                v = w;
                i = i + 1;
            },
            None => {
                proof {
                    lemma_pow10_add((i + 1) as nat, (k - i - 1) as nat);
                    lemma_pow10_mono(0, (k - i - 1) as nat);
                    let big = (v as int) * 10;
                    let p = pow10((k - i - 1) as nat);
                    assert(m * pow10(k as nat) == big * p) by (nonlinear_arith)
                        requires
                            pow10(k as nat) == pow10((i + 1) as nat) * p,
                            pow10((i + 1) as nat) == 10 * pow10(i as nat),
                            v as int == m * pow10(i as nat),
                            big == (v as int) * 10,
                    ;
                    if big > 0 {
                        assert(big * p >= big) by (nonlinear_arith)
                            requires
                                big > 0,
                                p >= 1,
                        ;
                    } else {
                        assert(big * p <= big) by (nonlinear_arith)
                            requires
                                big <= 0,
                                p >= 1,
                        ;
                    }
                }
                return None;
            },
        }
    }
    Some(v)
}

/// Both mantissas rewritten at the common scale, or `None` when one leaves
/// the `i128` range.
fn align_pair(a: &Decimal, b: &Decimal) -> (res: Option<(i128, i128, i64)>)
    ensures
        match res {
            Some(t) => t.2 == common_scale(*a, *b) && t.0 == aligned(*a, t.2 as int) && t.1
                == aligned(*b, t.2 as int),
            None => !fits_i128(aligned(*a, common_scale(*a, *b))) || !fits_i128(
                aligned(*b, common_scale(*a, *b)),
            ),
        },
{
    let s = if a.scale >= b.scale {
        a.scale
    } else {
        b.scale
    };
    let ka = (s as i128 - a.scale as i128) as u128;
    let kb = (s as i128 - b.scale as i128) as u128;
    let x = scale_up(a.mantissa, ka);
    let y = scale_up(b.mantissa, kb);
    match (x, y) {
        (Some(x), Some(y)) => Some((x, y, s)),
        _ => None,
    }
}

/// What `a + b` gives when the result has an `i128` mantissa.
pub open spec fn sum_fits(a: Decimal, b: Decimal) -> bool {
    let s = common_scale(a, b);
    fits_i128(aligned(a, s)) && fits_i128(aligned(b, s)) && fits_i128(aligned(a, s) + aligned(b, s))
}

/// What `&a - &b` gives when the result has an `i128` mantissa.
pub open spec fn difference_fits(a: Decimal, b: Decimal) -> bool {
    let s = common_scale(a, b);
    fits_i128(aligned(a, s)) && fits_i128(aligned(b, s)) && fits_i128(aligned(a, s) - aligned(b, s))
}

/// `a + b`: the exact sum at the larger of the two scales.
pub fn add(a: &Decimal, b: &Decimal) -> (res: Option<Decimal>)
    ensures
        match res {
            Some(r) => sum_fits(*a, *b) && r.scale == common_scale(*a, *b) && r.mantissa == aligned(
                *a,
                r.scale as int,
            ) + aligned(*b, r.scale as int),
            None => !sum_fits(*a, *b),
        },
{
    match align_pair(a, b) {
        Some((x, y, s)) => match x.checked_add(y) {
            Some(m) => Some(Decimal { mantissa: m, scale: s }),
            None => None,
        },
        None => None,
    }
}

/// `&a - &b`: the exact difference at the larger of the two scales.
pub fn sub(a: &Decimal, b: &Decimal) -> (res: Option<Decimal>)
    ensures
        match res {
            Some(r) => difference_fits(*a, *b) && r.scale == common_scale(*a, *b) && r.mantissa
                == aligned(*a, r.scale as int) - aligned(*b, r.scale as int),
            None => !difference_fits(*a, *b),
        },
{
    match align_pair(a, b) {
        Some((x, y, s)) => match x.checked_sub(y) {
            Some(m) => Some(Decimal { mantissa: m, scale: s }),
            None => None,
        },
        None => None,
    }
}

/// The scale of a sum of `items` (`Iterator::sum` folds from
/// `BigDecimal::from(0)`, and each addition keeps the larger scale).
pub open spec fn sum_scale(items: Seq<Decimal>) -> int
    decreases items.len(),
{
    if items.len() == 0 {
        0
    } else {
        max_int(sum_scale(items.drop_last()), items.last().scale as int)
    }
}

/// The sum of the mantissas of `items`, each rewritten at scale `t`.
pub open spec fn sum_aligned(items: Seq<Decimal>, t: int) -> int
    decreases items.len(),
{
    if items.len() == 0 {
        0
    } else {
        sum_aligned(items.drop_last(), t) + aligned(items.last(), t)
    }
}

/// Whether the sum of `items` and every partial sum have an `i128` mantissa.
pub open spec fn sum_in_range(items: Seq<Decimal>) -> bool {
    let t = sum_scale(items);
    &&& forall|i: int| 0 <= i < items.len() ==> fits_i128(#[trigger] aligned(items[i], t))
    &&& forall|j: int| 0 <= j <= items.len() ==> fits_i128(#[trigger] sum_aligned(items.take(j), t))
}

proof fn lemma_sum_scale_bound(items: Seq<Decimal>)
    ensures
        sum_scale(items) >= 0,
        forall|i: int| 0 <= i < items.len() ==> (#[trigger] items[i]).scale <= sum_scale(items),
    decreases items.len(),
{
    if items.len() > 0 {
        lemma_sum_scale_bound(items.drop_last());
        assert forall|i: int| 0 <= i < items.len() implies (#[trigger] items[i]).scale <= sum_scale(
            items,
        ) by {
            if i < items.len() - 1 {
                assert(items[i] == items.drop_last()[i]);
            }
        }
    }
}

/// `items.iter().sum()`: the exact total at the largest scale (at least 0).
pub fn sum(items: &Vec<Decimal>) -> (res: Option<Decimal>)
    ensures
        match res {
            Some(r) => sum_in_range(items@) && r.scale == sum_scale(items@) && r.mantissa
                == sum_aligned(items@, r.scale as int),
            None => !sum_in_range(items@),
        },
{
    let n = items.len();
    let mut t: i64 = 0;
    let mut i: usize = 0;
    while i < n
        invariant
            n == items@.len(),
            i <= n,
            t == sum_scale(items@.take(i as int)),
        decreases n - i,
    {
        assert(items@.take(i + 1).drop_last() == items@.take(i as int));
        if items[i].scale > t {
            t = items[i].scale;
        }
        i = i + 1;
    }
    assert(items@.take(n as int) == items@);
    proof {
        lemma_sum_scale_bound(items@);
    }
    let mut acc: i128 = 0;
    let mut j: usize = 0;
    assert(items@.take(0) == Seq::<Decimal>::empty());
    while j < n
        invariant
            n == items@.len(),
            j <= n,
            t == sum_scale(items@),
            forall|k: int| 0 <= k < n ==> (#[trigger] items@[k]).scale <= t,
            acc == sum_aligned(items@.take(j as int), t as int),
            forall|k: int| 0 <= k <= j ==> fits_i128(#[trigger] sum_aligned(items@.take(k), t as int)),
            forall|k: int| 0 <= k < j ==> fits_i128(#[trigger] aligned(items@[k], t as int)),
        decreases n - j,
    {
        let d = items[j];
        let k = (t as i128 - d.scale as i128) as u128;
        let x = match scale_up(d.mantissa, k) {
            Some(x) => x,
            None => {
                assert(!fits_i128(aligned(items@[j as int], t as int)));
                return None;
            },
        };
        assert(items@.take(j + 1).drop_last() == items@.take(j as int));
        assert(items@.take(j + 1).last() == d);
        match acc.checked_add(x) {
            Some(a) => {
                acc = a;
            },
            None => {
                assert(!fits_i128(sum_aligned(items@.take(j + 1), t as int)));
                return None;
            },
        }
        j = j + 1;
    }
    Some(Decimal { mantissa: acc, scale: t })
}

/// `|d|` of every item.
pub open spec fn abs_all(items: Seq<Decimal>) -> Seq<Decimal> {
    items.map_values(|d: Decimal| abs_spec(d))
}

/// The sum of `items` (`Iterator::sum`), as `sum` computes it.
pub open spec fn total_of(items: Seq<Decimal>) -> Decimal {
    let t = sum_scale(items);
    Decimal { mantissa: sum_aligned(items, t) as i128, scale: t as i64 }
}

/// `|total| - Σ |part|`: what remains of a total once the parts are taken.
pub open spec fn remainder_of(total: Decimal, parts: Seq<Decimal>) -> Decimal {
    let a = abs_spec(total);
    let b = total_of(abs_all(parts));
    let s = common_scale(a, b);
    Decimal { mantissa: (aligned(a, s) - aligned(b, s)) as i128, scale: s as i64 }
}

/// Whether `remainder_of(total, parts)` is computed with `i128` mantissas.
pub open spec fn remainder_fits(total: Decimal, parts: Seq<Decimal>) -> bool {
    &&& total.mantissa != i128::MIN
    &&& forall|k: int| 0 <= k < parts.len() ==> (#[trigger] parts[k]).mantissa != i128::MIN
    &&& sum_in_range(abs_all(parts))
    &&& difference_fits(abs_spec(total), total_of(abs_all(parts)))
}

/// The sum of `items`, which is known to fit.
pub fn total(items: &Vec<Decimal>) -> (res: Decimal)
    requires
        sum_in_range(items@),
    ensures
        res == total_of(items@),
{
    match sum(items) {
        Some(t) => t,
        None => {
            assert(false);
            Decimal::zero()
        },
    }
}

/// `|total| - Σ |part|` (`remainder_of`).
pub fn remainder(total_amount: &Decimal, parts: &Vec<Decimal>) -> (res: Decimal)
    requires
        remainder_fits(*total_amount, parts@),
    ensures
        res == remainder_of(*total_amount, parts@),
{
    let mut amounts: Vec<Decimal> = Vec::new();
    let mut k: usize = 0;
    while k < parts.len()
        invariant
            k <= parts@.len(),
            remainder_fits(*total_amount, parts@),
            amounts@ == abs_all(parts@).take(k as int),
        decreases parts@.len() - k,
    {
        let a = parts[k].abs();
        amounts.push(a);
        k = k + 1;
    }
    assert(amounts@ == abs_all(parts@));
    let t = total(&amounts);
    let abs_amount = total_amount.abs();
    match self::sub(&abs_amount, &t) {
        Some(p) => p,
        None => {
            assert(false);
            Decimal::zero()
        },
    }
}

/// Whether `|total| - Σ |part|` is computed with `i128` mantissas
/// (`remainder_fits`).
pub fn remainder_in_range(total_amount: &Decimal, parts: &Vec<Decimal>) -> (res: bool)
    ensures
        res == remainder_fits(*total_amount, parts@),
{
    if total_amount.mantissa == i128::MIN {
        return false;
    }
    let mut amounts: Vec<Decimal> = Vec::new();
    let mut k: usize = 0;
    while k < parts.len()
        invariant
            k <= parts@.len(),
            forall|j: int| 0 <= j < k ==> (#[trigger] parts@[j]).mantissa != i128::MIN,
            amounts@ == abs_all(parts@).take(k as int),
        decreases parts@.len() - k,
    {
        if parts[k].mantissa == i128::MIN {
            return false;
        }
        let a = parts[k].abs();
        amounts.push(a);
        k = k + 1;
    }
    assert(amounts@ == abs_all(parts@));
    let t = match sum(&amounts) {
        Some(t) => t,
        None => {
            return false;
        },
    };
    assert(t == total_of(abs_all(parts@)));
    let abs_amount = total_amount.abs();
    self::sub(&abs_amount, &t).is_some()
}

/// Whether `d` is one written at a scale of at least zero (`unit_decimal`).
pub fn is_unit(d: &Decimal) -> (res: bool)
    ensures
        res == unit_decimal(*d),
{
    if d.scale < 0 {
        return false;
    }
    let one = Decimal { mantissa: 1, scale: 0 };
    proof {
        reveal_with_fuel(pow10, 1);
        assert(pow10(0) == 1);
        assert(common_scale(*d, one) == d.scale);
        assert(((d.scale - d.scale) as nat) == 0nat);
        assert(d.mantissa * pow10(0) == d.mantissa);
        assert(aligned(*d, d.scale as int) == d.mantissa);
        assert(aligned(one, d.scale as int) == pow10(d.scale as nat));
    }
    d.same_value_as(&one)
}

/// Whether the product of `a` and `b` is defined (`product_defined`).
pub fn product_in_range(a: &Decimal, b: &Decimal) -> (res: bool)
    ensures
        res == product_defined(*a, *b),
{
    let sum_ok = a.scale.checked_add(b.scale).is_some();
    let a_unit = is_unit(a);
    let b_unit = is_unit(b);
    sum_ok && (!b_unit || a.scale >= i64::MIN + 38) && (!a_unit || b.scale >= i64::MIN + 38)
}

} // verus!

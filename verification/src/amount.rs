//! Exact decimal amounts.
//!
//! An [`Amount`] is a decimal number `mantissa / 10^scale` with a mantissa of
//! at most 96 bits and a scale of at most 28, the numbers that
//! `rust_decimal::Decimal` can hold. The arithmetic itself is done by
//! `rust_decimal`; this module states when its results are exact and only
//! asks for them then.

use rust_decimal::Decimal;
use std::cmp::Ordering;
use std::str::FromStr;
use vstd::arithmetic::div_mod::{lemma_div_multiples_vanish_quotient, lemma_truncate_middle};
use vstd::prelude::*;
use vstd::string::StringExecFns;

verus! {

/// The largest scale of an amount.
pub const MAX_SCALE: u32 = 28;

/// The largest magnitude of a mantissa, `2^96 - 1`.
pub const MAX_MANTISSA: i128 = 0xFFFF_FFFF_FFFF_FFFF_FFFF_FFFF;

/// `10^n`.
pub open spec fn pow10(n: nat) -> int
    decreases n,
{
    if n == 0 {
        1
    } else {
        10 * pow10((n - 1) as nat)
    }
}

/// Whether `m` is a mantissa that an amount can hold.
pub open spec fn mantissa_in_range(m: int) -> bool {
    -MAX_MANTISSA <= m <= MAX_MANTISSA
}

/// `m / 10^k`, rounded to the nearest integer, a tie going to the even one.
pub open spec fn round_half_even(m: int, k: nat) -> int {
    let magnitude = if m < 0 {
        -m
    } else {
        m
    };
    let quotient = magnitude / pow10(k);
    let rest = magnitude % pow10(k);
    let rounded = if 2 * rest > pow10(k) || (2 * rest == pow10(k) && quotient % 2 == 1) {
        quotient + 1
    } else {
        quotient
    };
    if m < 0 {
        -rounded
    } else {
        rounded
    }
}

/// The character of a decimal digit.
pub open spec fn digit(d: int) -> char {
    seq!['0', '1', '2', '3', '4', '5', '6', '7', '8', '9'][d]
}

/// The digits of `n` without leading zeros; of zero, one `0`.
pub open spec fn digits(n: nat) -> Seq<char>
    decreases n,
{
    if n < 10 {
        seq![digit(n as int)]
    } else {
        digits(n / 10).push(digit(n as int % 10))
    }
}

/// The last `places` digits of `n`, with leading zeros.
pub open spec fn last_digits(n: nat, places: nat) -> Seq<char>
    decreases places,
{
    if places == 0 {
        seq![]
    } else {
        last_digits(n / 10, (places - 1) as nat).push(digit(n as int % 10))
    }
}

/// The decimal `mantissa / 10^scale` in decimal notation: a minus sign where
/// it is negative, the digits before the decimal point, and, where the scale
/// is not zero, the point and `scale` digits behind it.
pub open spec fn decimal_text(mantissa: int, scale: nat) -> Seq<char> {
    let magnitude = if mantissa < 0 {
        -mantissa
    } else {
        mantissa
    };
    let sign = if mantissa < 0 {
        seq!['-']
    } else {
        seq![]
    };
    let whole = digits((magnitude / pow10(scale)) as nat);
    if scale == 0 {
        sign + whole
    } else {
        sign + whole + seq!['.'] + last_digits((magnitude % pow10(scale)) as nat, scale)
    }
}

/// Writing a decimal with one more decimal place appends a `0` to its text,
/// and before it the point, where there was none.
pub proof fn lemma_text_one_more_place(mantissa: int, scale: nat)
    ensures
        decimal_text(10 * mantissa, scale + 1) == if scale == 0 {
            decimal_text(mantissa, scale) + seq!['.', '0']
        } else {
            decimal_text(mantissa, scale).push('0')
        },
{
    let magnitude = if mantissa < 0 {
        -mantissa
    } else {
        mantissa
    };
    let p = pow10(scale);
    lemma_pow10_positive(scale);
    if magnitude > 0 {
        lemma_div_multiples_vanish_quotient(10, magnitude, p);
    }
    lemma_truncate_middle(magnitude, 10, p);
    if scale == 0 {
        assert(decimal_text(10 * mantissa, scale + 1) =~= decimal_text(mantissa, scale) + seq![
            '.',
            '0',
        ]);
    }
}

/// The mantissa and scale of the decimal that `rust_decimal` reads from `text`,
/// or `None` where it reads none.
pub uninterp spec fn decimal_parse(text: Seq<char>) -> Option<(int, nat)>;

/// A power of ten is positive.
pub proof fn lemma_pow10_positive(n: nat)
    ensures
        pow10(n) > 0,
    decreases n,
{
    if n > 0 {
        lemma_pow10_positive((n - 1) as nat);
    }
}

/// `10^(a + b)` is `10^a * 10^b`.
pub proof fn lemma_pow10_add(a: nat, b: nat)
    ensures
        pow10(a + b) == pow10(a) * pow10(b),
    decreases a,
{
    if a > 0 {
        lemma_pow10_add((a - 1) as nat, b);
        assert(10 * (pow10((a - 1) as nat) * pow10(b)) == (10 * pow10((a - 1) as nat)) * pow10(b))
            by (nonlinear_arith);
    }
}

/// A larger exponent gives no smaller power of ten.
pub proof fn lemma_pow10_monotonic(a: nat, b: nat)
    requires
        a <= b,
    ensures
        pow10(a) <= pow10(b),
    decreases b,
{
    if a < b {
        lemma_pow10_monotonic(a, (b - 1) as nat);
        lemma_pow10_positive((b - 1) as nat);
    }
}

/// The value of `10^28`.
pub proof fn lemma_pow10_28()
    ensures
        pow10(28) == 10_000_000_000_000_000_000_000_000_000,
{
    reveal_with_fuel(pow10, 29);
}

/// A decimal number `mantissa / 10^scale`.
#[derive(Debug, Clone, Copy)]
pub struct Amount {
    mantissa: i128,
    scale: u32,
}

impl View for Amount {
    type V = int;

    /// The number, counted in units of `10^-28`.
    open spec fn view(&self) -> int {
        self.mantissa() * pow10((MAX_SCALE - self.scale()) as nat)
    }
}

impl Amount {
    /// Every amount has a mantissa of at most 96 bits and a scale of at most 28.
    #[verifier::type_invariant]
    pub open spec fn wf(self) -> bool {
        &&& mantissa_in_range(self.mantissa() as int)
        &&& self.scale() <= MAX_SCALE
    }

    /// The mantissa.
    pub closed spec fn spec_mantissa(&self) -> i128 {
        self.mantissa
    }

    /// The scale.
    pub closed spec fn spec_scale(&self) -> u32 {
        self.scale
    }

    /// The amount with the given mantissa and scale.
    pub closed spec fn from_parts(mantissa: int, scale: int) -> Amount {
        Amount { mantissa: mantissa as i128, scale: scale as u32 }
    }

    /// Zero, with scale 0.
    pub open spec fn spec_zero() -> Amount {
        Amount::from_parts(0, 0)
    }

    /// The scale of a sum or difference of `self` and `rhs`: the larger of the
    /// two scales, or the scale of the other where one of them is zero.
    pub open spec fn sum_scale(self, rhs: Amount) -> u32 {
        if self.mantissa() == 0 {
            rhs.scale()
        } else if rhs.mantissa() == 0 || self.scale() >= rhs.scale() {
            self.scale()
        } else {
            rhs.scale()
        }
    }

    /// The mantissa of `self` written with `scale`, which is at least its own.
    pub open spec fn scaled_to(self, scale: u32) -> int {
        self.mantissa() * pow10((scale - self.scale()) as nat)
    }

    /// The mantissa of `self + rhs` at `sum_scale`.
    pub open spec fn sum_mantissa(self, rhs: Amount) -> int {
        self.scaled_to(self.sum_scale(rhs)) + rhs.scaled_to(self.sum_scale(rhs))
    }

    /// The mantissa of `self - rhs` at `sum_scale`.
    pub open spec fn diff_mantissa(self, rhs: Amount) -> int {
        self.scaled_to(self.sum_scale(rhs)) - rhs.scaled_to(self.sum_scale(rhs))
    }

    /// Whether `self + rhs` can be held at `sum_scale`: whether its mantissa
    /// there has at most 96 bits. A sum that has such a mantissa only at a
    /// smaller scale does not fit: `10^28 + 1.0` does not, `10^28 + 1` does.
    pub open spec fn sum_fits(self, rhs: Amount) -> bool {
        mantissa_in_range(self.sum_mantissa(rhs))
    }

    /// Whether `self - rhs` can be held at `sum_scale`: whether its mantissa
    /// there has at most 96 bits.
    pub open spec fn diff_fits(self, rhs: Amount) -> bool {
        mantissa_in_range(self.diff_mantissa(rhs))
    }

    /// `self + rhs`, where `sum_fits`.
    pub open spec fn plus(self, rhs: Amount) -> Amount {
        Amount::from_parts(self.sum_mantissa(rhs), self.sum_scale(rhs) as int)
    }

    /// `self - rhs`, where `diff_fits`.
    pub open spec fn minus(self, rhs: Amount) -> Amount {
        Amount::from_parts(self.diff_mantissa(rhs), self.sum_scale(rhs) as int)
    }

    /// `self` rounded to `dp` decimal places, a tie going to the even digit.
    pub open spec fn rounded(self, dp: u32) -> Amount {
        if self.scale() <= dp {
            self
        } else {
            Amount::from_parts(
                round_half_even(self.mantissa() as int, (self.scale() - dp) as nat),
                dp as int,
            )
        }
    }

    /// The mantissa: the number without its decimal point.
    #[verifier::when_used_as_spec(spec_mantissa)]
    pub fn mantissa(&self) -> (m: i128)
        ensures
            m == self.mantissa(),
            mantissa_in_range(m as int),
    {
        proof {
            use_type_invariant(self);
        }
        self.mantissa
    }

    /// The scale: the number of digits behind the decimal point.
    #[verifier::when_used_as_spec(spec_scale)]
    pub fn scale(&self) -> (s: u32)
        ensures
            s == self.scale(),
            s <= MAX_SCALE,
    {
        proof {
            use_type_invariant(self);
        }
        self.scale
    }

    /// The amount `num / 10^scale`.
    pub fn new(num: i64, scale: u32) -> (r: Amount)
        requires
            scale <= MAX_SCALE,
        ensures
            r == Amount::from_parts(num as int, scale as int),
            r.mantissa() == num,
            r.scale() == scale,
    {
        Amount { mantissa: num as i128, scale }
    }

    /// The amount `num / 10^scale`, where the mantissa has at most 96 bits and
    /// the scale is at most 28.
    pub fn try_from_i128_with_scale(num: i128, scale: u32) -> (r: Option<Amount>)
        ensures
            r == if mantissa_in_range(num as int) && scale <= MAX_SCALE {
                Some(Amount::from_parts(num as int, scale as int))
            } else {
                None
            },
            r matches Some(a) ==> a.mantissa() == num && a.scale() == scale,
    {
        if -MAX_MANTISSA <= num && num <= MAX_MANTISSA && scale <= MAX_SCALE {
            Some(Amount { mantissa: num, scale })
        } else {
            None
        }
    }

    /// Zero.
    pub fn zero() -> (r: Amount)
        ensures
            r == Amount::spec_zero(),
            r.mantissa() == 0,
            r.scale() == 0,
            r@ == 0,
    {
        Amount { mantissa: 0, scale: 0 }
    }

    /// `self + rhs`, or `None` where the sum cannot be held at `sum_scale`.
    /// The sum is never rounded: it is exact or it is `None`.
    pub fn checked_add(self, rhs: Amount) -> (r: Option<Amount>)
        ensures
            r == if self.sum_fits(rhs) {
                Some(self.plus(rhs))
            } else {
                None
            },
            r matches Some(sum) ==> sum@ == self@ + rhs@,
    {
        proof {
            use_type_invariant(&self);
            use_type_invariant(&rhs);
        }
        match self.aligned(&rhs) {
            Some((x, y)) => match x.checked_add(y) {
                Some(m) => if -MAX_MANTISSA <= m && m <= MAX_MANTISSA {
                    proof {
                        self.lemma_plus(rhs);
                    }
                    decimal_add(self, rhs)
                } else {
                    None
                },
                None => None,
            },
            None => None,
        }
    }

    /// `self - rhs`, or `None` where the difference cannot be held at
    /// `sum_scale`. The difference is never rounded: it is exact or it is
    /// `None`.
    pub fn checked_sub(self, rhs: Amount) -> (r: Option<Amount>)
        ensures
            r == if self.diff_fits(rhs) {
                Some(self.minus(rhs))
            } else {
                None
            },
            r matches Some(difference) ==> difference@ == self@ - rhs@,
    {
        proof {
            use_type_invariant(&self);
            use_type_invariant(&rhs);
        }
        match self.aligned(&rhs) {
            Some((x, y)) => match x.checked_sub(y) {
                Some(m) => if -MAX_MANTISSA <= m && m <= MAX_MANTISSA {
                    proof {
                        self.lemma_minus(rhs);
                    }
                    decimal_sub(self, rhs)
                } else {
                    None
                },
                None => None,
            },
            None => None,
        }
    }

    /// `self` with at most `dp` decimal places, rounded to the nearest such
    /// number, a tie going to the even digit.
    pub fn round_dp(&self, dp: u32) -> (r: Amount)
        ensures
            r == self.rounded(dp),
            r.scale() == if self.scale() <= dp {
                self.scale()
            } else {
                dp
            },
    {
        proof {
            use_type_invariant(self);
        }
        decimal_round_dp(*self, dp)
    }

    /// The amount in decimal notation, with `scale` digits behind the point.
    pub fn to_string(&self) -> (r: String)
        ensures
            r@ == decimal_text(self.mantissa() as int, self.scale() as nat),
    {
        proof {
            use_type_invariant(self);
        }
        decimal_to_string(*self)
    }

    /// The amount rounded to `places` decimal places, in decimal notation with
    /// exactly `places` digits behind the point.
    pub fn to_fixed(&self, places: u32) -> (r: String)
        ensures
            r@ == decimal_text(
                self.rounded(places).mantissa() * pow10(
                    (places - self.rounded(places).scale()) as nat,
                ),
                places as nat,
            ),
    {
        let rounded = self.round_dp(places);
        let mut text = rounded.to_string();
        let mut written = rounded.scale();
        while written < places
            invariant
                rounded.scale() <= written <= places,
                text@ == decimal_text(
                    rounded.mantissa() * pow10((written - rounded.scale()) as nat),
                    written as nat,
                ),
            decreases places - written,
        {
            proof {
                let more = (written - rounded.scale()) as nat;
                lemma_text_one_more_place(rounded.mantissa() * pow10(more), written as nat);
                assert(rounded.mantissa() * (10 * pow10(more)) == 10 * (rounded.mantissa() * pow10(
                    more,
                ))) by (nonlinear_arith);
                reveal_strlit(".0");
                reveal_strlit("0");
            }
            if written == 0 {
                text.append(".0");
            } else {
                text.append("0");
            }
            written = written + 1;
        }
        text
    }

    /// The amount that `text` denotes, if it denotes one.
    pub fn from_str(text: &str) -> (r: Option<Amount>)
        ensures
            match r {
                Some(a) => decimal_parse(text@) == Some((a.mantissa() as int, a.scale() as nat)),
                None => decimal_parse(text@) is None,
            },
    {
        decimal_from_str(text)
    }

    /// The mantissas of `self` and `rhs` at `sum_scale`, or `None` where one
    /// of them is too large for neither sum nor difference to fit.
    fn aligned(&self, rhs: &Amount) -> (r: Option<(i128, i128)>)
        ensures
            match r {
                Some((x, y)) => x == self.scaled_to(self.sum_scale(*rhs)) && y == rhs.scaled_to(
                    self.sum_scale(*rhs),
                ),
                None => !self.sum_fits(*rhs) && !self.diff_fits(*rhs),
            },
    {
        proof {
            use_type_invariant(self);
            use_type_invariant(rhs);
        }
        if self.mantissa == 0 {
            Some((0, rhs.mantissa))
        } else if rhs.mantissa == 0 {
            Some((self.mantissa, 0))
        } else if self.scale >= rhs.scale {
            match rhs.mantissa.checked_mul(pow10_exec(self.scale - rhs.scale)) {
                Some(y) => Some((self.mantissa, y)),
                None => None,
            }
        } else {
            match self.mantissa.checked_mul(pow10_exec(rhs.scale - self.scale)) {
                Some(x) => Some((x, rhs.mantissa)),
                None => None,
            }
        }
    }

    /// The mantissa and scale that `from_parts` was given come back, and two
    /// amounts with the same mantissa and scale are the same amount.
    pub proof fn lemma_parts(mantissa: int, scale: int)
        requires
            mantissa_in_range(mantissa),
            0 <= scale <= MAX_SCALE,
        ensures
            Amount::from_parts(mantissa, scale).mantissa() == mantissa,
            Amount::from_parts(mantissa, scale).scale() == scale,
            Amount::from_parts(mantissa, scale).wf(),
            forall|a: Amount|
                a.mantissa() == mantissa && a.scale() == scale ==> a == Amount::from_parts(
                    mantissa,
                    scale,
                ),
    {
    }

    /// Zero is a valid amount with mantissa 0, scale 0 and value 0.
    pub proof fn lemma_zero()
        ensures
            Amount::spec_zero().wf(),
            Amount::spec_zero().mantissa() == 0,
            Amount::spec_zero().scale() == 0,
            Amount::spec_zero()@ == 0,
    {
    }

    /// Where the sum fits it is a valid amount and its value is the sum of the
    /// two values.
    pub proof fn lemma_plus(self, rhs: Amount)
        requires
            self.wf(),
            rhs.wf(),
            self.sum_fits(rhs),
        ensures
            self.plus(rhs).wf(),
            self.plus(rhs).mantissa() == self.sum_mantissa(rhs),
            self.plus(rhs).scale() == self.sum_scale(rhs),
            self.plus(rhs)@ == self@ + rhs@,
    {
        let s = self.sum_scale(rhs);
        self.lemma_scaled_value(s);
        rhs.lemma_scaled_value(s);
        let p = pow10((MAX_SCALE - s) as nat);
        assert((self.scaled_to(s) + rhs.scaled_to(s)) * p == self.scaled_to(s) * p + rhs.scaled_to(
            s,
        ) * p) by (nonlinear_arith);
    }

    /// Where the difference fits it is a valid amount and its value is the
    /// difference of the two values.
    pub proof fn lemma_minus(self, rhs: Amount)
        requires
            self.wf(),
            rhs.wf(),
            self.diff_fits(rhs),
        ensures
            self.minus(rhs).wf(),
            self.minus(rhs).mantissa() == self.diff_mantissa(rhs),
            self.minus(rhs).scale() == self.sum_scale(rhs),
            self.minus(rhs)@ == self@ - rhs@,
    {
        let s = self.sum_scale(rhs);
        self.lemma_scaled_value(s);
        rhs.lemma_scaled_value(s);
        let p = pow10((MAX_SCALE - s) as nat);
        assert((self.scaled_to(s) - rhs.scaled_to(s)) * p == self.scaled_to(s) * p - rhs.scaled_to(
            s,
        ) * p) by (nonlinear_arith);
    }

    /// Writing a mantissa with a larger scale keeps the value; zero has the
    /// value 0 at any scale.
    proof fn lemma_scaled_value(self, scale: u32)
        requires
            self.wf(),
            scale <= MAX_SCALE,
            self.mantissa() == 0 || self.scale() <= scale,
        ensures
            self.scaled_to(scale) * pow10((MAX_SCALE - scale) as nat) == self@,
    {
        let m = self.mantissa as int;
        if m == 0 {
            assert(0 * pow10((MAX_SCALE - scale) as nat) == 0);
        } else {
            let a = (scale - self.scale) as nat;
            let b = (MAX_SCALE - scale) as nat;
            lemma_pow10_add(a, b);
            assert((m * pow10(a)) * pow10(b) == m * (pow10(a) * pow10(b))) by (nonlinear_arith);
        }
    }
}

impl PartialEq for Amount {
    /// Two amounts are equal where they are the same number, whatever their
    /// scales.
    fn eq(&self, other: &Amount) -> (r: bool) {
        proof {
            use_type_invariant(self);
            use_type_invariant(other);
        }
        decimal_eq(*self, *other)
    }
}

impl vstd::std_specs::cmp::PartialEqSpecImpl for Amount {
    open spec fn obeys_eq_spec() -> bool {
        true
    }

    open spec fn eq_spec(&self, other: &Amount) -> bool {
        self@ == other@
    }
}

impl PartialOrd for Amount {
    /// Amounts are ordered as numbers, whatever their scales.
    fn partial_cmp(&self, other: &Amount) -> (r: Option<Ordering>) {
        proof {
            use_type_invariant(self);
            use_type_invariant(other);
        }
        if decimal_lt(*self, *other) {
            Some(Ordering::Less)
        } else if decimal_lt(*other, *self) {
            Some(Ordering::Greater)
        } else {
            Some(Ordering::Equal)
        }
    }
}

impl vstd::std_specs::cmp::PartialOrdSpecImpl for Amount {
    open spec fn obeys_partial_cmp_spec() -> bool {
        true
    }

    open spec fn partial_cmp_spec(&self, other: &Amount) -> Option<Ordering> {
        if self@ < other@ {
            Some(Ordering::Less)
        } else if self@ > other@ {
            Some(Ordering::Greater)
        } else {
            Some(Ordering::Equal)
        }
    }
}

impl Default for Amount {
    fn default() -> (r: Amount)
        ensures
            r == Amount::spec_zero(),
    {
        Amount::zero()
    }
}

/// `10^n`.
fn pow10_exec(n: u32) -> (r: i128)
    requires
        n <= MAX_SCALE,
    ensures
        r == pow10(n as nat),
{
    let mut r: i128 = 1;
    let mut i: u32 = 0;
    while i < n
        invariant
            i <= n <= MAX_SCALE,
            r == pow10(i as nat),
        decreases n - i,
    {
        proof {
            lemma_pow10_monotonic((i + 1) as nat, 28);
            lemma_pow10_28();
            lemma_pow10_positive(i as nat);
        }
        r = r * 10;
        i = i + 1;
    }
    r
}

/// Calls `rust_decimal::Decimal::checked_add`. Where the sum of the two
/// mantissas, both written with the larger of the two scales, has at most 96
/// bits, that function returns this sum with that scale; where one operand is
/// zero it returns the other.
#[verifier::external_body]
fn decimal_add(a: Amount, b: Amount) -> (r: Option<Amount>)
    requires
        a.wf(),
        b.wf(),
        a.sum_fits(b),
    ensures
        r == Some(a.plus(b)),
{
    let x = Decimal::from_i128_with_scale(a.mantissa, a.scale);
    let y = Decimal::from_i128_with_scale(b.mantissa, b.scale);
    match x.checked_add(y) {
        Some(d) => Some(Amount { mantissa: d.mantissa(), scale: d.scale() }),
        None => None,
    }
}

/// Calls `rust_decimal::Decimal::checked_sub`. Where the difference of the two
/// mantissas, both written with the larger of the two scales, has at most 96
/// bits, that function returns this difference with that scale; where the
/// first operand is zero it returns the second with its sign changed, and
/// where the second is zero the first.
#[verifier::external_body]
fn decimal_sub(a: Amount, b: Amount) -> (r: Option<Amount>)
    requires
        a.wf(),
        b.wf(),
        a.diff_fits(b),
    ensures
        r == Some(a.minus(b)),
{
    let x = Decimal::from_i128_with_scale(a.mantissa, a.scale);
    let y = Decimal::from_i128_with_scale(b.mantissa, b.scale);
    match x.checked_sub(y) {
        Some(d) => Some(Amount { mantissa: d.mantissa(), scale: d.scale() }),
        None => None,
    }
}

/// Calls `<` of `rust_decimal::Decimal`, its `PartialOrd::lt`, which orders
/// decimals as numbers, whatever their scales.
#[verifier::external_body]
fn decimal_lt(a: Amount, b: Amount) -> (r: bool)
    requires
        a.wf(),
        b.wf(),
    ensures
        r == (a@ < b@),
{
    let x = Decimal::from_i128_with_scale(a.mantissa, a.scale);
    let y = Decimal::from_i128_with_scale(b.mantissa, b.scale);
    x < y
}

/// Calls `==` of `rust_decimal::Decimal`, its `PartialEq::eq`, which holds of
/// two decimals that are the same number, whatever their scales.
#[verifier::external_body]
fn decimal_eq(a: Amount, b: Amount) -> (r: bool)
    requires
        a.wf(),
        b.wf(),
    ensures
        r == (a@ == b@),
{
    let x = Decimal::from_i128_with_scale(a.mantissa, a.scale);
    let y = Decimal::from_i128_with_scale(b.mantissa, b.scale);
    x == y
}

/// Calls `rust_decimal::Decimal::round_dp`. A decimal with at most `dp`
/// decimal places comes back as it is. Any other is divided by the power of
/// ten that leaves `dp` places and rounded to the nearest integer, a tie going
/// to the even one; the result has scale `dp`.
#[verifier::external_body]
fn decimal_round_dp(a: Amount, dp: u32) -> (r: Amount)
    requires
        a.wf(),
    ensures
        r == a.rounded(dp),
{
    let d = Decimal::from_i128_with_scale(a.mantissa, a.scale).round_dp(dp);
    Amount { mantissa: d.mantissa(), scale: d.scale() }
}

/// Calls `to_string` of `rust_decimal::Decimal`, which goes by its `Display`
/// and writes the decimal in decimal notation: a minus sign where it is
/// negative, the digits before the point, of which there is at least one, and,
/// where the scale is not zero, the point and as many digits as the scale
/// says.
#[verifier::external_body]
fn decimal_to_string(a: Amount) -> (r: String)
    requires
        a.wf(),
    ensures
        r@ == decimal_text(a.mantissa() as int, a.scale() as nat),
{
    Decimal::from_i128_with_scale(a.mantissa, a.scale).to_string()
}

/// Calls `from_str` of `rust_decimal::Decimal`. What it reads depends on the
/// text alone; a decimal that it reads has, as every decimal, a mantissa of at
/// most 96 bits and a scale of at most 28.
#[verifier::external_body]
fn decimal_from_str(text: &str) -> (r: Option<Amount>)
    ensures
        match r {
            Some(a) => a.wf() && decimal_parse(text@) == Some(
                (a.mantissa() as int, a.scale() as nat),
            ),
            None => decimal_parse(text@) is None,
        },
{
    match Decimal::from_str(text) {
        Ok(d) => Some(Amount { mantissa: d.mantissa(), scale: d.scale() }),
        Err(_) => None,
    }
}

} // verus!

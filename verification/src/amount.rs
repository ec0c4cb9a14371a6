//! Exact decimal amounts.
//!
//! An [`Amount`] holds the two numbers that a `rust_decimal::Decimal` is made of: a
//! mantissa and a scale, with the value `mantissa * 10^-scale`. All arithmetic on
//! amounts is done by `rust_decimal`; this module states what it does.
use rust_decimal::Decimal;
use thousands::Separable;
use vstd::prelude::*;

verus! {

/// Largest magnitude of a decimal mantissa: 2^96 - 1.
pub open spec fn max_mantissa() -> int {
    79228162514264337593543950335
}

/// Largest scale of a decimal.
pub open spec fn max_scale() -> int {
    28
}

/// A (mantissa, scale) pair that `rust_decimal` can hold.
pub open spec fn is_decimal(p: (int, int)) -> bool {
    &&& -max_mantissa() <= p.0 <= max_mantissa()
    &&& 0 <= p.1 <= max_scale()
}

/// `10^n`.
pub open spec fn pow10(n: nat) -> int
    decreases n,
{
    if n == 0 {
        1
    } else {
        10 * pow10((n - 1) as nat)
    }
}

/// The sum of two decimals written at the larger of their two scales.
pub open spec fn aligned_sum(a: (int, int), b: (int, int)) -> (int, int) {
    let s = if a.1 <= b.1 {
        b.1
    } else {
        a.1
    };
    (a.0 * pow10((s - a.1) as nat) + b.0 * pow10((s - b.1) as nat), s)
}

/// What `rust_decimal`'s checked addition gives for two (mantissa, scale) pairs.
pub uninterp spec fn decimal_add(a: (int, int), b: (int, int)) -> Option<(int, int)>;

/// What `rust_decimal`'s checked multiplication gives for two (mantissa, scale) pairs.
pub uninterp spec fn decimal_mul(a: (int, int), b: (int, int)) -> Option<(int, int)>;

/// The decimal digits of `n`, most significant first; none for 0.
pub open spec fn digits_of(n: nat) -> Seq<char>
    decreases n,
{
    if n == 0 {
        Seq::empty()
    } else {
        digits_of(n / 10).push(((n % 10) + 48) as char)
    }
}

/// `s` with `'0'` put in front of it up to `len` characters.
pub open spec fn zero_padded(s: Seq<char>, len: int) -> Seq<char> {
    if s.len() >= len {
        s
    } else {
        Seq::new((len - s.len()) as nat, |i: int| '0') + s
    }
}

/// The digits of a decimal's magnitude, with zeros in front up to `scale` digits.
pub open spec fn padded_digits(a: (int, int)) -> Seq<char> {
    zero_padded(digits_of((if a.0 < 0 { -a.0 } else { a.0 }) as nat), a.1)
}

/// The sign of a decimal's text: `-` for a negative mantissa, nothing otherwise.
pub open spec fn decimal_sign(a: (int, int)) -> Seq<char> {
    if a.0 < 0 {
        seq!['-']
    } else {
        Seq::empty()
    }
}

/// The whole part of a decimal's text: the padded digits but the last `scale` of them,
/// or `0` where there are none.
pub open spec fn decimal_whole(a: (int, int)) -> Seq<char> {
    let d = padded_digits(a);
    if d.len() - a.1 == 0 {
        seq!['0']
    } else {
        d.take(d.len() - a.1)
    }
}

/// The rest of a decimal's text: nothing at scale 0, otherwise a `.` and the last `scale`
/// padded digits.
pub open spec fn decimal_fraction(a: (int, int)) -> Seq<char> {
    let d = padded_digits(a);
    if a.1 == 0 {
        Seq::empty()
    } else {
        seq!['.'] + d.skip(d.len() - a.1)
    }
}

/// The text that `Decimal`'s `Display` writes for a (mantissa, scale) pair: the sign, the
/// whole part and the fraction.
pub open spec fn decimal_text(a: (int, int)) -> Seq<char> {
    decimal_sign(a) + decimal_whole(a) + decimal_fraction(a)
}

/// `d` with a `,` between groups of three digits, counted from the right.
pub open spec fn comma_grouped(d: Seq<char>) -> Seq<char>
    decreases d.len(),
{
    if d.len() <= 3 {
        d
    } else {
        comma_grouped(d.take(d.len() - 3)) + seq![','] + d.skip(d.len() - 3)
    }
}

/// The text that `thousands::Separable::separate_with_commas` makes of a decimal: its
/// text with the commas put into the first run of digits, the whole part.
pub open spec fn decimal_text_with_commas(a: (int, int)) -> Seq<char> {
    decimal_sign(a) + comma_grouped(decimal_whole(a)) + decimal_fraction(a)
}

/// What `Decimal::from_str_exact` makes of a text.
pub uninterp spec fn decimal_parse_exact(s: Seq<char>) -> Option<(int, int)>;

/// What `Decimal`'s `FromStr` makes of a text.
pub uninterp spec fn decimal_parse(s: Seq<char>) -> Option<(int, int)>;

/// A decimal number `mantissa * 10^-scale`.
#[derive(Clone, Copy, Debug, PartialEq, Eq, Structural)]
pub struct Amount {
    pub mantissa: i128,
    pub scale: u32,
}

impl View for Amount {
    type V = (int, int);

    open spec fn view(&self) -> (int, int) {
        (self.mantissa as int, self.scale as int)
    }
}

/// The amount that a (mantissa, scale) pair stands for.
pub open spec fn amount_of(p: (int, int)) -> Amount {
    Amount { mantissa: p.0 as i128, scale: p.1 as u32 }
}

/// The view of an optional amount.
pub open spec fn opt_view(a: Option<Amount>) -> Option<(int, int)> {
    match a {
        Some(x) => Some(x@),
        None => None,
    }
}

/// Adds two optional decimals; `None` stands for an overflow that already happened.
pub open spec fn add_opt(a: Option<(int, int)>, b: Option<(int, int)>) -> Option<(int, int)> {
    match (a, b) {
        (Some(x), Some(y)) => decimal_add(x, y),
        _ => None,
    }
}

/// Multiplies two optional decimals; `None` stands for an overflow that already happened.
pub open spec fn mul_opt(a: Option<(int, int)>, b: Option<(int, int)>) -> Option<(int, int)> {
    match (a, b) {
        (Some(x), Some(y)) => decimal_mul(x, y),
        _ => None,
    }
}

/// Adds the terms of `s` one after the other to `init`, from the first term on, as a
/// loop `total += term` does; `None` when a term is missing or an addition overflows.
pub open spec fn sum_from(init: (int, int), s: Seq<Option<(int, int)>>) -> Option<(int, int)>
    decreases s.len(),
{
    if s.len() == 0 {
        Some(init)
    } else {
        add_opt(sum_from(init, s.drop_last()), s.last())
    }
}

/// The sum of the terms of `s`, starting from zero.
pub open spec fn sum_of(s: Seq<Option<(int, int)>>) -> Option<(int, int)> {
    sum_from((0, 0), s)
}

/// Every term of `s` as a present value.
pub open spec fn all_some(s: Seq<(int, int)>) -> Seq<Option<(int, int)>> {
    s.map_values(|x: (int, int)| Some(x))
}

/// Once a running sum has overflowed, it stays overflowed: a sum of a longer prefix
/// is `None` too.
pub proof fn lemma_sum_none_stays(init: (int, int), s: Seq<Option<(int, int)>>, i: int, j: int)
    requires
        0 <= i <= j <= s.len(),
        sum_from(init, s.take(i)) is None,
    ensures
        sum_from(init, s.take(j)) is None,
    decreases j - i,
{
    if i < j {
        lemma_sum_none_stays(init, s, i, j - 1);
        assert(s.take(j).drop_last() =~= s.take(j - 1));
    }
}

/// Adding the terms of `s` and then those of `t` is adding the terms of `s + t`.
pub proof fn lemma_sum_concat(init: (int, int), s: Seq<Option<(int, int)>>, t: Seq<Option<(int, int)>>)
    ensures
        sum_from(init, s + t) == match sum_from(init, s) {
            Some(x) => sum_from(x, t),
            None => None,
        },
        sum_from(init, s) is None ==> sum_from(init, s + t) is None,
    decreases t.len(),
{
    if t.len() == 0 {
        assert(s + t =~= s);
    } else {
        lemma_sum_concat(init, s, t.drop_last());
        assert((s + t).drop_last() =~= s + t.drop_last());
        assert((s + t).last() == t.last());
    }
}

/// `rust_decimal`: `Decimal::checked_add` on two decimals built with
/// `Decimal::try_from_i128_with_scale`. Claims: the result is the named `decimal_add`;
/// an invalid operand gives `None`; adding to a zero gives the other operand unchanged;
/// where the sum aligned to the larger scale fits in 96 bits it is the result; every
/// result is a valid decimal. Not claimed: which rounding happens when the aligned sum
/// does not fit.
#[verifier::external_body]
fn decimal_checked_add(a: Amount, b: Amount) -> (r: Option<Amount>)
    ensures
        opt_view(r) == decimal_add(a@, b@),
        !(is_decimal(a@) && is_decimal(b@)) ==> r is None,
        is_decimal(a@) && is_decimal(b@) && a.mantissa == 0 ==> r == Some(b),
        is_decimal(a@) && is_decimal(b@) && a.mantissa != 0 && b.mantissa == 0 ==> r == Some(a),
        is_decimal(a@) && is_decimal(b@) && a.mantissa != 0 && b.mantissa != 0 && -max_mantissa()
            <= aligned_sum(a@, b@).0 <= max_mantissa() ==> opt_view(r) == Some(aligned_sum(a@, b@)),
        r matches Some(x) ==> is_decimal(x@),
{
    let x = Decimal::try_from_i128_with_scale(a.mantissa, a.scale).ok()?;
    let y = Decimal::try_from_i128_with_scale(b.mantissa, b.scale).ok()?;
    let s = x.checked_add(y)?;
    Some(Amount { mantissa: s.mantissa(), scale: s.scale() })
}

/// `rust_decimal`: `Decimal::checked_mul` on two decimals built with
/// `Decimal::try_from_i128_with_scale`. Claims: the result is the named `decimal_mul`;
/// an invalid operand gives `None`; a zero operand gives zero at scale 0; where the
/// product of the mantissas fits in 96 bits and the scales add up to at most 28 the
/// result is that product at that scale; every result is a valid decimal.
#[verifier::external_body]
fn decimal_checked_mul(a: Amount, b: Amount) -> (r: Option<Amount>)
    ensures
        opt_view(r) == decimal_mul(a@, b@),
        !(is_decimal(a@) && is_decimal(b@)) ==> r is None,
        is_decimal(a@) && is_decimal(b@) && (a.mantissa == 0 || b.mantissa == 0) ==> r == Some(
            Amount { mantissa: 0, scale: 0 },
        ),
        is_decimal(a@) && is_decimal(b@) && a.mantissa != 0 && b.mantissa != 0 && a.scale + b.scale
            <= max_scale() && -max_mantissa() <= a.mantissa * b.mantissa <= max_mantissa()
            ==> opt_view(r) == Some((a.mantissa * b.mantissa, a.scale + b.scale)),
        r matches Some(x) ==> is_decimal(x@),
{
    let x = Decimal::try_from_i128_with_scale(a.mantissa, a.scale).ok()?;
    let y = Decimal::try_from_i128_with_scale(b.mantissa, b.scale).ok()?;
    let p = x.checked_mul(y)?;
    Some(Amount { mantissa: p.mantissa(), scale: p.scale() })
}

/// `rust_decimal`: the `Display` text of a decimal (through `to_string`, so with no
/// precision asked for). Claims that it is `decimal_text` of the amount (the source's
/// `to_str_internal`, with the sign that `pad_integral` puts in front).
#[verifier::external_body]
fn decimal_to_string(a: Amount) -> (r: String)
    requires
        is_decimal(a@),
    ensures
        r@ == decimal_text(a@),
{
    Decimal::from_i128_with_scale(a.mantissa, a.scale).to_string()
}

/// `thousands`: `Separable::separate_with_commas` on a decimal. Claims that the text is
/// `decimal_text_with_commas` of the amount (the source: the `Display` text, with
/// `COMMA_SEPARATOR`'s groups of three put into its first run of ASCII digits only).
#[verifier::external_body]
fn decimal_separate_with_commas(a: Amount) -> (r: String)
    requires
        is_decimal(a@),
    ensures
        r@ == decimal_text_with_commas(a@),
{
    Decimal::from_i128_with_scale(a.mantissa, a.scale).separate_with_commas()
}

/// `rust_decimal`: `Decimal::from_str_exact`. Claims: the result is the named
/// `decimal_parse_exact` of the text, and a parsed value is a valid decimal.
#[verifier::external_body]
fn decimal_from_str_exact(s: &str) -> (r: Option<Amount>)
    ensures
        opt_view(r) == decimal_parse_exact(s@),
        r matches Some(x) ==> is_decimal(x@),
{
    let d = Decimal::from_str_exact(s).ok()?;
    Some(Amount { mantissa: d.mantissa(), scale: d.scale() })
}

/// `rust_decimal::Error`, held as it is.
#[verifier::external_type_specification]
#[verifier::external_body]
pub struct ExDecimalError(rust_decimal::Error);

/// `rust_decimal`: `Decimal`'s `FromStr::from_str`. Claims: the result is the named
/// `decimal_parse` of the text (its error when that is `None`), and a parsed value is a
/// valid decimal.
#[verifier::external_body]
fn decimal_from_str(s: &str) -> (r: Result<Amount, rust_decimal::Error>)
    ensures
        match r {
            Ok(x) => decimal_parse(s@) == Some(x@) && is_decimal(x@),
            Err(_) => decimal_parse(s@) is None,
        },
{
    let d = <Decimal as core::str::FromStr>::from_str(s)?;
    Ok(Amount { mantissa: d.mantissa(), scale: d.scale() })
}

impl Amount {
    /// Zero at scale 0, as `dec!(0)` writes it.
    pub fn zero() -> (r: Amount)
        ensures
            r@ == (0int, 0int),
    {
        Amount { mantissa: 0, scale: 0 }
    }

    /// A whole number as a decimal of scale 0, as `Decimal::from` makes it of a `u16`.
    pub fn from_u16(n: u16) -> (r: Amount)
        ensures
            r@ == (n as int, 0int),
    {
        Amount { mantissa: n as i128, scale: 0 }
    }

    /// Whether the pair is one that a decimal can hold.
    pub fn is_valid(&self) -> (r: bool)
        ensures
            r == is_decimal(self@),
    {
        -79228162514264337593543950335i128 <= self.mantissa && self.mantissa
            <= 79228162514264337593543950335i128 && self.scale <= 28
    }

    /// `self + other`, or `None` where the addition overflows: adding to a zero gives the
    /// other operand unchanged, and a sum that fits at the larger of the two scales is
    /// exact at that scale.
    pub fn checked_add(&self, other: &Amount) -> (r: Option<Amount>)
        ensures
            opt_view(r) == decimal_add(self@, other@),
            !(is_decimal(self@) && is_decimal(other@)) ==> r is None,
            is_decimal(self@) && is_decimal(other@) && self.mantissa == 0 ==> r == Some(*other),
            is_decimal(self@) && is_decimal(other@) && self.mantissa != 0 && other.mantissa == 0
                ==> r == Some(*self),
            is_decimal(self@) && is_decimal(other@) && self.mantissa != 0 && other.mantissa != 0
                && -max_mantissa() <= aligned_sum(self@, other@).0 <= max_mantissa() ==> opt_view(r)
                == Some(aligned_sum(self@, other@)),
            r matches Some(x) ==> is_decimal(x@),
    {
        decimal_checked_add(*self, *other)
    }

    /// `self * other`, or `None` where the multiplication overflows: a zero operand gives
    /// zero at scale 0, and a product that fits is exact at the sum of the scales.
    pub fn checked_mul(&self, other: &Amount) -> (r: Option<Amount>)
        ensures
            opt_view(r) == decimal_mul(self@, other@),
            !(is_decimal(self@) && is_decimal(other@)) ==> r is None,
            is_decimal(self@) && is_decimal(other@) && (self.mantissa == 0 || other.mantissa == 0)
                ==> r == Some(Amount { mantissa: 0, scale: 0 }),
            is_decimal(self@) && is_decimal(other@) && self.mantissa != 0 && other.mantissa != 0
                && self.scale + other.scale <= max_scale() && -max_mantissa() <= self.mantissa
                * other.mantissa <= max_mantissa() ==> opt_view(r) == Some(
                (self.mantissa * other.mantissa, self.scale + other.scale),
            ),
            r matches Some(x) ==> is_decimal(x@),
    {
        decimal_checked_mul(*self, *other)
    }

    /// The decimal's text, as `to_string` writes it.
    pub fn to_text(&self) -> (r: String)
        requires
            is_decimal(self@),
        ensures
            r@ == decimal_text(self@),
    {
        decimal_to_string(*self)
    }

    /// The decimal's text with a comma between groups of three digits.
    pub fn separate_with_commas(&self) -> (r: String)
        requires
            is_decimal(self@),
        ensures
            r@ == decimal_text_with_commas(self@),
    {
        decimal_separate_with_commas(*self)
    }

    /// Parses a decimal that the text writes exactly.
    pub fn from_str_exact(s: &str) -> (r: Option<Amount>)
        ensures
            opt_view(r) == decimal_parse_exact(s@),
            r matches Some(x) ==> is_decimal(x@),
    {
        decimal_from_str_exact(s)
    }

    /// Parses a decimal, as `str::parse::<Decimal>` does.
    pub fn parse(s: &str) -> (r: Result<Amount, rust_decimal::Error>)
        ensures
            match r {
                Ok(x) => decimal_parse(s@) == Some(x@) && is_decimal(x@),
                Err(_) => decimal_parse(s@) is None,
            },
    {
        decimal_from_str(s)
    }
}

} // verus!

use rust_decimal::Decimal;
use vstd::prelude::*;

verus! {

/// Largest magnitude, in ten-thousandths, that an amount may have: the
/// 96-bit mantissa limit of a decimal number.
pub const AMOUNT_LIMIT: i128 = 79228162514264337593543950335;

/// Number of fractional digits every amount is kept at.
pub const DECIMAL_PRECISION: u32 = 4;

/// An integer value, in ten-thousandths, that an amount can hold.
pub open spec fn in_amount_range(v: int) -> bool {
    -AMOUNT_LIMIT <= v <= AMOUNT_LIMIT
}

/// Ten to the power `n`.
pub open spec fn pow10(n: nat) -> nat
    decreases n,
{
    if n == 0 {
        1
    } else {
        10 * pow10((n - 1) as nat)
    }
}

/// `m / d` rounded to the nearest integer, with ties rounded away from zero.
pub open spec fn div_round_half_away(m: int, d: nat) -> int
    recommends
        d > 0,
{
    if m >= 0 {
        (m + d / 2) / (d as int)
    } else {
        -((-m + d / 2) / (d as int))
    }
}

/// The decimal `m * 10^-scale` expressed in ten-thousandths. Digits past the
/// fourth fractional one are rounded half away from zero.
pub open spec fn rescale_to_precision(m: int, scale: nat) -> int {
    if scale <= DECIMAL_PRECISION {
        m * pow10((DECIMAL_PRECISION - scale) as nat)
    } else {
        div_round_half_away(m, pow10((scale - DECIMAL_PRECISION) as nat))
    }
}

/// What a decimal number parser makes of a text: its mantissa and scale, or
/// nothing when the text is no number.
pub uninterp spec fn decimal_parts_of(s: Seq<char>) -> Option<(i128, u32)>;

/// How a number held in ten-thousandths is written with four fractional digits.
pub uninterp spec fn decimal_text_of(v: int) -> Seq<char>;

/// The amount, in ten-thousandths, that a text denotes, when it denotes one
/// that can be held.
pub open spec fn amount_of_text(s: Seq<char>) -> Option<int> {
    match decimal_parts_of(s) {
        Some((m, scale)) => {
            let v = rescale_to_precision(m as int, scale as nat);
            if in_amount_range(v) {
                Some(v)
            } else {
                None
            }
        },
        None => None,
    }
}

/// Relies on `Decimal::from_str` of rust_decimal: a decimal number's
/// mantissa is at most 96 bits wide and its scale at most 28.
#[verifier::external_body]
fn parse_decimal(s: &str) -> (r: Option<(i128, u32)>)
    ensures
        r == decimal_parts_of(s@),
        r matches Some((m, scale)) ==> -AMOUNT_LIMIT <= m <= AMOUNT_LIMIT && scale <= 28,
{
    match <Decimal as core::str::FromStr>::from_str(s) {
        Ok(d) => Some((d.mantissa(), d.scale())),
        Err(_) => None,
    }
}

/// Relies on `Decimal::from_i128_with_scale` and the `Display` of rust_decimal
/// to write a number given in ten-thousandths; the constructor panics past the
/// 96-bit mantissa limit.
#[verifier::external_body]
fn render_decimal(v: i128) -> (r: String)
    requires
        in_amount_range(v as int),
    ensures
        r@ == decimal_text_of(v as int),
{
    Decimal::from_i128_with_scale(v, DECIMAL_PRECISION).to_string()
}

/// A decimal amount kept at exactly four fractional digits.
#[derive(Debug, PartialEq, Eq, Structural, PartialOrd, Ord, Clone, Copy, Hash)]
pub struct Amount {
    value: i128,
}

/// The text given for an amount is not a decimal number that can be held.
#[derive(Debug, PartialEq, Eq, Structural, Hash)]
pub struct InvalidNumericalStringError;

impl Amount {
    #[verifier::type_invariant]
    spec fn inv(self) -> bool {
        in_amount_range(self.value as int)
    }

    /// The amount in ten-thousandths.
    pub closed spec fn view(&self) -> int {
        self.value as int
    }

    /// `Amount::from(v)` is the whole number `v`.
    pub proof fn lemma_from_whole(v: i32, w: u32)
        ensures
            (<Amount as vstd::std_specs::convert::FromSpec<i32>>::from_spec(v))@ == v * 10000,
            (<Amount as vstd::std_specs::convert::FromSpec<u32>>::from_spec(w))@ == w * 10000,
    {
    }

    pub fn zero() -> (r: Self)
        ensures
            r@ == 0,
    {
        Amount { value: 0 }
    }

    /// The amount `v` ten-thousandths.
    fn new(v: i128) -> (r: Self)
        requires
            in_amount_range(v as int),
        ensures
            r@ == v,
    {
        Amount { value: v }
    }

    /// Parses a decimal number and rescales it to four fractional digits.
    pub fn try_from(s: &str) -> (r: Result<Self, InvalidNumericalStringError>)
        ensures
            r is Ok <==> amount_of_text(s@) is Some,
            r matches Ok(a) ==> amount_of_text(s@) == Some(a@),
    {
        match parse_decimal(s) {
            None => Err(InvalidNumericalStringError),
            Some((m, scale)) => {
                let v = rescale(m, scale);
                if -AMOUNT_LIMIT <= v && v <= AMOUNT_LIMIT {
                    Ok(Amount::new(v))
                } else {
                    Err(InvalidNumericalStringError)
                }
            },
        }
    }

    /// `self + rhs`.
    pub fn add(self, rhs: Self) -> (r: Self)
        requires
            in_amount_range(self@ + rhs@),
        ensures
            r@ == self@ + rhs@,
    {
        proof {
            use_type_invariant(&self);
            use_type_invariant(&rhs);
        }
        Amount::new(self.value + rhs.value)
    }

    /// `self - rhs`.
    pub fn sub(self, rhs: Self) -> (r: Self)
        requires
            in_amount_range(self@ - rhs@),
        ensures
            r@ == self@ - rhs@,
    {
        proof {
            use_type_invariant(&self);
            use_type_invariant(&rhs);
        }
        Amount::new(self.value - rhs.value)
    }

    /// `-self`.
    pub fn neg(self) -> (r: Self)
        ensures
            r@ == -self@,
    {
        proof {
            use_type_invariant(&self);
        }
        Amount::new(-self.value)
    }

    /// Whether the amount is below zero.
    pub fn is_negative(&self) -> (r: bool)
        ensures
            r == (self@ < 0),
    {
        self.value < 0
    }

    /// Whether `self + rhs` can be held as an amount.
    pub fn sum_in_range(&self, rhs: &Amount) -> (r: bool)
        ensures
            r == in_amount_range(self@ + rhs@),
    {
        proof {
            use_type_invariant(self);
            use_type_invariant(rhs);
        }
        let v = self.value + rhs.value;
        -AMOUNT_LIMIT <= v && v <= AMOUNT_LIMIT
    }

    /// Whether `self + rhs` is below zero; the sum itself need not be an
    /// amount.
    pub fn sum_is_negative(&self, rhs: &Amount) -> (r: bool)
        ensures
            r == (self@ + rhs@ < 0),
    {
        proof {
            use_type_invariant(self);
            use_type_invariant(rhs);
        }
        self.value + rhs.value < 0
    }

    /// The amount written with four fractional digits.
    pub fn to_string(&self) -> (r: String)
        ensures
            r@ == decimal_text_of(self@),
    {
        proof {
            use_type_invariant(self);
        }
        render_decimal(self.value)
    }
}

impl From<i32> for Amount {
    /// The whole number `v`.
    fn from(v: i32) -> (r: Self) {
        Amount::new(v as i128 * 10000)
    }
}

impl vstd::std_specs::convert::FromSpecImpl<i32> for Amount {
    open spec fn obeys_from_spec() -> bool {
        true
    }

    closed spec fn from_spec(v: i32) -> Self {
        Amount { value: (v * 10000) as i128 }
    }
}

impl From<u32> for Amount {
    /// The whole number `v`.
    fn from(v: u32) -> (r: Self) {
        Amount::new(v as i128 * 10000)
    }
}

impl vstd::std_specs::convert::FromSpecImpl<u32> for Amount {
    open spec fn obeys_from_spec() -> bool {
        true
    }

    closed spec fn from_spec(v: u32) -> Self {
        Amount { value: (v * 10000) as i128 }
    }
}

impl Default for Amount {
    fn default() -> (r: Self)
        ensures
            r@ == 0,
    {
        Amount::zero()
    }
}

/// `10^n` for a scale difference of at most 28.
fn pow10_exec(n: u32) -> (r: i128)
    requires
        n <= 28,
    ensures
        r == pow10(n as nat),
        0 < r <= 10000000000000000000000000000,
{
    let mut r: i128 = 1;
    let mut i: u32 = 0;
    while i < n
        invariant
            i <= n <= 28,
            r == pow10(i as nat),
        decreases n - i,
    {
        proof {
            lemma_pow10_bound((i + 1) as nat);
        }
        r = r * 10;
        i = i + 1;
    }
    proof {
        lemma_pow10_bound(n as nat);
    }
    r
}

proof fn lemma_pow10_bound(n: nat)
    requires
        n <= 28,
    ensures
        0 < pow10(n) <= 10000000000000000000000000000,
{
    lemma_pow10_positive(n);
    lemma_pow10_mono(n, 28);
    assert(pow10(28) == 10000000000000000000000000000) by {
        reveal_with_fuel(pow10, 29);
    }
}

proof fn lemma_pow10_positive(n: nat)
    ensures
        pow10(n) > 0,
    decreases n,
{
    if n > 0 {
        lemma_pow10_positive((n - 1) as nat);
    }
}

proof fn lemma_pow10_mono(a: nat, b: nat)
    requires
        a <= b,
    ensures
        pow10(a) <= pow10(b),
    decreases b,
{
    if a < b {
        lemma_pow10_mono(a, (b - 1) as nat);
        lemma_pow10_positive((b - 1) as nat);
    }
}

/// Brings a mantissa at `scale` to four fractional digits.
fn rescale(m: i128, scale: u32) -> (r: i128)
    requires
        -AMOUNT_LIMIT <= m <= AMOUNT_LIMIT,
        scale <= 28,
    ensures
        r == rescale_to_precision(m as int, scale as nat),
{
    if scale <= DECIMAL_PRECISION {
        let p = pow10_exec(DECIMAL_PRECISION - scale);
        proof {
            lemma_pow10_mono((DECIMAL_PRECISION - scale) as nat, 4);
            assert(pow10(4) == 10000) by {
                reveal_with_fuel(pow10, 5);
            }
            assert(-AMOUNT_LIMIT * 10000 <= m * p <= AMOUNT_LIMIT * 10000) by (nonlinear_arith)
                requires
                    -AMOUNT_LIMIT <= m <= AMOUNT_LIMIT,
                    0 < p <= 10000,
            ;
        }
        m * p
    } else {
        let d = pow10_exec(scale - DECIMAL_PRECISION);
        let half = d / 2;
        if m >= 0 {
            (m + half) / d
        } else {
            -((-m + half) / d)
        }
    }
}

} // verus!

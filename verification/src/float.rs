//! The arbitrary-precision real number of the core.
//!
//! A [`Float`] wraps an `astro_float::BigFloat` kept at a fixed binary
//! precision of 256 bits, rounding to nearest-even. Its mathematical reading
//! is the [`FloatModel`]: not-a-number, a signed infinity, or a signed value
//! `mantissa * 2^exponent`. The arithmetic of the outside library is correctly
//! rounded, so each operation's result is a function of the operands' values;
//! those functions are given names here (`add_model`, `mul_model`, ...) that
//! the rest of the core states its contracts over.

use vstd::prelude::*;
use astro_float::BigFloat;
use astro_float::Consts;
use astro_float::Radix;
use astro_float::RoundingMode;

verus! {

#[verifier::external_type_specification]
#[verifier::external_body]
pub struct ExBigFloat(BigFloat);

/// The mathematical reading of a float: NaN, a signed infinity, or the value
/// `(-1)^negative * mantissa * 2^exponent` with the mantissa odd (or zero,
/// for a signed zero with exponent zero).
pub enum FloatModel {
    Nan,
    Inf { negative: bool },
    Finite { negative: bool, mantissa: nat, exponent: int },
}

/// True exactly of the models of value zero.
pub open spec fn model_is_zero(v: FloatModel) -> bool {
    match v {
        FloatModel::Finite { mantissa, .. } => mantissa == 0,
        _ => false,
    }
}

/// True of the models whose sign bit is set; NaN has no sign.
pub open spec fn model_is_neg(v: FloatModel) -> bool {
    match v {
        FloatModel::Nan => false,
        FloatModel::Inf { negative } => negative,
        FloatModel::Finite { negative, .. } => negative,
    }
}

/// Two models denote the same value. This differs from structural equality
/// in that the two signed zeros compare equal and NaN equals nothing.
pub open spec fn same_value(a: FloatModel, b: FloatModel) -> bool {
    if model_is_zero(a) && model_is_zero(b) {
        true
    } else {
        a == b && !(a is Nan)
    }
}

/// Sign flip; the exact negation of a value.
pub open spec fn neg_model(v: FloatModel) -> FloatModel {
    match v {
        FloatModel::Nan => FloatModel::Nan,
        FloatModel::Inf { negative } => FloatModel::Inf { negative: !negative },
        FloatModel::Finite { negative, mantissa, exponent } => FloatModel::Finite {
            negative: !negative,
            mantissa,
            exponent,
        },
    }
}

/// Absolute value: the sign bit cleared.
pub open spec fn abs_model(v: FloatModel) -> FloatModel {
    match v {
        FloatModel::Nan => FloatModel::Nan,
        FloatModel::Inf { .. } => FloatModel::Inf { negative: false },
        FloatModel::Finite { mantissa, exponent, .. } => FloatModel::Finite {
            negative: false,
            mantissa,
            exponent,
        },
    }
}

/// The odd factor of a positive integer (zero for zero).
pub open spec fn odd_part(m: nat) -> nat
    decreases m,
{
    if m == 0 || m % 2 == 1 {
        m
    } else {
        odd_part(m / 2)
    }
}

/// The exponent of two dividing a positive integer.
pub open spec fn twos_exp(m: nat) -> int
    decreases m,
{
    if m == 0 || m % 2 == 1 {
        0
    } else {
        1 + twos_exp(m / 2)
    }
}

/// The model of an integer: exact, in canonical mantissa-exponent form.
pub open spec fn int_model(i: int) -> FloatModel {
    if i == 0 {
        FloatModel::Finite { negative: false, mantissa: 0, exponent: 0 }
    } else {
        let m = if i < 0 {
            (-i) as nat
        } else {
            i as nat
        };
        FloatModel::Finite { negative: i < 0, mantissa: odd_part(m), exponent: twos_exp(m) }
    }
}

/// The mathematical value a `BigFloat` holds. Every trusted wrapper below
/// states its result's value through this name.
pub uninterp spec fn bigfloat_model(b: BigFloat) -> FloatModel;

/// What `BigFloat::parse` yields for a decimal text at 256 bits, NaN when the
/// text is not a number.
pub uninterp spec fn parse_model(s: Seq<char>) -> FloatModel;

/// What `BigFloat::format` prints for a value in decimal scientific
/// notation. Every number this library builds carries the same 256-bit
/// precision, so the text is determined by the value (signed zero included).
pub uninterp spec fn format_model(v: FloatModel) -> Seq<char>;

/// The circle constant as `Consts::pi` computes it at a given precision.
pub uninterp spec fn pi_model(precision: nat) -> FloatModel;

/// Euler's number as `Consts::e` computes it at a given precision.
pub uninterp spec fn e_model(precision: nat) -> FloatModel;

/// The correctly rounded sum, per `BigFloat::add` at 256 bits.
pub uninterp spec fn add_model(a: FloatModel, b: FloatModel) -> FloatModel;

/// The correctly rounded difference, per `BigFloat::sub` at 256 bits.
pub uninterp spec fn sub_model(a: FloatModel, b: FloatModel) -> FloatModel;

/// The correctly rounded product, per `BigFloat::mul` at 256 bits.
pub uninterp spec fn mul_model(a: FloatModel, b: FloatModel) -> FloatModel;

/// The correctly rounded quotient, per `BigFloat::div` at 256 bits.
pub uninterp spec fn div_model(a: FloatModel, b: FloatModel) -> FloatModel;

/// The correctly rounded reciprocal, per `BigFloat::reciprocal` at 256 bits.
pub uninterp spec fn recip_model(a: FloatModel) -> FloatModel;

/// The correctly rounded power, per `BigFloat::pow` at 256 bits.
pub uninterp spec fn pow_model(a: FloatModel, b: FloatModel) -> FloatModel;

/// The correctly rounded natural logarithm, per `BigFloat::ln` at 256 bits.
pub uninterp spec fn ln_model(a: FloatModel) -> FloatModel;

/// The correctly rounded base-ten logarithm, per `BigFloat::log10`.
pub uninterp spec fn log10_model(a: FloatModel) -> FloatModel;

/// The correctly rounded square root, per `BigFloat::sqrt` at 256 bits.
pub uninterp spec fn sqrt_model(a: FloatModel) -> FloatModel;

/// The correctly rounded sine, per `BigFloat::sin` at 256 bits.
pub uninterp spec fn sin_model(a: FloatModel) -> FloatModel;

/// The correctly rounded cosine, per `BigFloat::cos` at 256 bits.
pub uninterp spec fn cos_model(a: FloatModel) -> FloatModel;

/// The correctly rounded tangent, per `BigFloat::tan` at 256 bits.
pub uninterp spec fn tan_model(a: FloatModel) -> FloatModel;

/// The correctly rounded arcsine, per `BigFloat::asin` at 256 bits.
pub uninterp spec fn asin_model(a: FloatModel) -> FloatModel;

/// The correctly rounded arccosine, per `BigFloat::acos` at 256 bits.
pub uninterp spec fn acos_model(a: FloatModel) -> FloatModel;

/// The correctly rounded arctangent, per `BigFloat::atan` at 256 bits.
pub uninterp spec fn atan_model(a: FloatModel) -> FloatModel;

/// The correctly rounded exponential, per `BigFloat::exp` at 256 bits.
pub uninterp spec fn exp_model(a: FloatModel) -> FloatModel;

/// The three-way value comparison of `BigFloat::cmp`, None iff a side is NaN.
pub uninterp spec fn cmp_model(a: FloatModel, b: FloatModel) -> Option<i8>;

/// An arbitrary-precision real at 256 binary digits.
#[derive(Debug)]
pub struct Float {
    repr: BigFloat,
}

impl View for Float {
    type V = FloatModel;

    closed spec fn view(&self) -> FloatModel {
        bigfloat_model(self.repr)
    }
}

/// Relies on BigFloat::clone: an exact copy of the number.
#[verifier::external_body]
fn clone_repr(b: &BigFloat) -> (r: BigFloat)
    ensures
        bigfloat_model(r) == bigfloat_model(*b),
{
    b.clone()
}

impl Clone for Float {
    fn clone(&self) -> (r: Self)
        ensures
            r@ == self@,
    {
        Float { repr: clone_repr(&self.repr) }
    }
}

impl Float {
    /// Relies on BigFloat::parse with decimal radix at 256 bits: reads an
    /// optionally signed decimal with optional fraction and exponent; yields
    /// NaN exactly when the text is not such a number.
    #[verifier::external_body]
    pub fn parse(s: &str) -> (r: Option<Float>)
        ensures
            r matches Some(f) ==> f@ == parse_model(s@),
            r is Some <==> !(parse_model(s@) is Nan),
    {
        let mut cache = Consts::new().expect("constants cache");
        let res = BigFloat::parse(s, Radix::Dec, 256, RoundingMode::ToEven, &mut cache);
        if res.is_nan() {
            None
        } else {
            Some(Float { repr: res })
        }
    }

    /// Relies on Consts::pi: the circle constant at 256 bits.
    #[verifier::external_body]
    pub fn pi() -> (r: Float)
        ensures
            r@ == pi_model(256),
    {
        let mut cache = Consts::new().expect("constants cache");
        Float { repr: cache.pi(256, RoundingMode::ToEven) }
    }

    /// Relies on Consts::e: Euler's number at 256 bits.
    #[verifier::external_body]
    pub fn e() -> (r: Float)
        ensures
            r@ == e_model(256),
    {
        let mut cache = Consts::new().expect("constants cache");
        Float { repr: cache.e(256, RoundingMode::ToEven) }
    }

    /// Relies on BigFloat::from_i64: integers convert exactly.
    #[verifier::external_body]
    pub fn from_i64(i: i64) -> (r: Float)
        ensures
            r@ == int_model(i as int),
    {
        Float { repr: BigFloat::from_i64(i, 256) }
    }

    /// Relies on BigFloat::add at 256 bits.
    #[verifier::external_body]
    pub fn add(&self, other: &Float) -> (r: Float)
        ensures
            r@ == add_model(self@, other@),
    {
        Float {
            repr: self.repr.add(&other.repr, 256, RoundingMode::ToEven),
        }
    }

    /// Relies on BigFloat::sub at 256 bits.
    #[verifier::external_body]
    pub fn sub(&self, other: &Float) -> (r: Float)
        ensures
            r@ == sub_model(self@, other@),
    {
        Float {
            repr: self.repr.sub(&other.repr, 256, RoundingMode::ToEven),
        }
    }

    /// Relies on BigFloat::mul at 256 bits.
    #[verifier::external_body]
    pub fn mul(&self, other: &Float) -> (r: Float)
        ensures
            r@ == mul_model(self@, other@),
    {
        Float {
            repr: self.repr.mul(&other.repr, 256, RoundingMode::ToEven),
        }
    }

    /// Relies on BigFloat::div at 256 bits.
    #[verifier::external_body]
    pub fn div(&self, other: &Float) -> (r: Float)
        ensures
            r@ == div_model(self@, other@),
    {
        Float {
            repr: self.repr.div(&other.repr, 256, RoundingMode::ToEven),
        }
    }

    /// Relies on BigFloat::reciprocal at 256 bits.
    #[verifier::external_body]
    pub fn recip(&self) -> (r: Float)
        ensures
            r@ == recip_model(self@),
    {
        Float { repr: self.repr.reciprocal(256, RoundingMode::ToEven) }
    }

    /// Relies on BigFloat::pow at 256 bits.
    #[verifier::external_body]
    pub fn pow(&self, other: &Float) -> (r: Float)
        ensures
            r@ == pow_model(self@, other@),
    {
        let mut cache = Consts::new().expect("constants cache");
        Float {
            repr: self.repr.pow(&other.repr, 256, RoundingMode::ToEven, &mut cache),
        }
    }

    /// Relies on BigFloat::ln at 256 bits.
    #[verifier::external_body]
    pub fn ln(&self) -> (r: Float)
        ensures
            r@ == ln_model(self@),
    {
        let mut cache = Consts::new().expect("constants cache");
        Float {
            repr: self.repr.ln(256, RoundingMode::ToEven, &mut cache),
        }
    }

    /// Relies on BigFloat::log10 at 256 bits.
    #[verifier::external_body]
    pub fn log10(&self) -> (r: Float)
        ensures
            r@ == log10_model(self@),
    {
        let mut cache = Consts::new().expect("constants cache");
        Float {
            repr: self.repr.log10(256, RoundingMode::ToEven, &mut cache),
        }
    }

    /// Relies on BigFloat::sqrt at 256 bits.
    #[verifier::external_body]
    pub fn sqrt(&self) -> (r: Float)
        ensures
            r@ == sqrt_model(self@),
    {
        Float { repr: self.repr.sqrt(256, RoundingMode::ToEven) }
    }

    /// Relies on BigFloat::sin at 256 bits.
    #[verifier::external_body]
    pub fn sin(&self) -> (r: Float)
        ensures
            r@ == sin_model(self@),
    {
        let mut cache = Consts::new().expect("constants cache");
        Float {
            repr: self.repr.sin(256, RoundingMode::ToEven, &mut cache),
        }
    }

    /// Relies on BigFloat::cos at 256 bits.
    #[verifier::external_body]
    pub fn cos(&self) -> (r: Float)
        ensures
            r@ == cos_model(self@),
    {
        let mut cache = Consts::new().expect("constants cache");
        Float {
            repr: self.repr.cos(256, RoundingMode::ToEven, &mut cache),
        }
    }

    /// Relies on BigFloat::tan at 256 bits.
    #[verifier::external_body]
    pub fn tan(&self) -> (r: Float)
        ensures
            r@ == tan_model(self@),
    {
        let mut cache = Consts::new().expect("constants cache");
        Float {
            repr: self.repr.tan(256, RoundingMode::ToEven, &mut cache),
        }
    }

    /// Relies on BigFloat::asin at 256 bits.
    #[verifier::external_body]
    pub fn asin(&self) -> (r: Float)
        ensures
            r@ == asin_model(self@),
    {
        let mut cache = Consts::new().expect("constants cache");
        Float {
            repr: self.repr.asin(256, RoundingMode::ToEven, &mut cache),
        }
    }

    /// Relies on BigFloat::acos at 256 bits.
    #[verifier::external_body]
    pub fn acos(&self) -> (r: Float)
        ensures
            r@ == acos_model(self@),
    {
        let mut cache = Consts::new().expect("constants cache");
        Float {
            repr: self.repr.acos(256, RoundingMode::ToEven, &mut cache),
        }
    }

    /// Relies on BigFloat::atan at 256 bits.
    #[verifier::external_body]
    pub fn atan(&self) -> (r: Float)
        ensures
            r@ == atan_model(self@),
    {
        let mut cache = Consts::new().expect("constants cache");
        Float {
            repr: self.repr.atan(256, RoundingMode::ToEven, &mut cache),
        }
    }

    /// Relies on BigFloat::exp at 256 bits.
    #[verifier::external_body]
    pub fn exp(&self) -> (r: Float)
        ensures
            r@ == exp_model(self@),
    {
        let mut cache = Consts::new().expect("constants cache");
        Float {
            repr: self.repr.exp(256, RoundingMode::ToEven, &mut cache),
        }
    }

    /// Relies on BigFloat::neg: flips the sign, exactly.
    #[verifier::external_body]
    pub fn neg(&self) -> (r: Float)
        ensures
            r@ == neg_model(self@),
    {
        Float { repr: self.repr.neg() }
    }

    /// Relies on BigFloat::abs: clears the sign, exactly.
    #[verifier::external_body]
    pub fn abs(&self) -> (r: Float)
        ensures
            r@ == abs_model(self@),
    {
        Float { repr: self.repr.abs() }
    }

    /// Relies on BigFloat::is_zero: true exactly of the value zero.
    #[verifier::external_body]
    pub fn is_zero(&self) -> (r: bool)
        ensures
            r == model_is_zero(self@),
    {
        self.repr.is_zero()
    }

    /// Relies on BigFloat::is_nan.
    #[verifier::external_body]
    pub fn is_nan(&self) -> (r: bool)
        ensures
            r == (self@ is Nan),
    {
        self.repr.is_nan()
    }

    /// Relies on BigFloat::is_negative: the sign bit; false for NaN.
    #[verifier::external_body]
    pub fn is_negative(&self) -> (r: bool)
        ensures
            r == model_is_neg(self@),
    {
        self.repr.is_negative()
    }

    /// Relies on BigFloat::cmp: a three-way comparison of values. It returns
    /// None exactly when a side is NaN, and reports equality exactly of equal
    /// values (the two signed zeros are equal).
    #[verifier::external_body]
    pub fn compare(&self, other: &Float) -> (r: Option<i8>)
        ensures
            r == cmp_model(self@, other@),
            r is None <==> (self@ is Nan || other@ is Nan),
            (r == Some(0i8)) <==> same_value(self@, other@),
            r matches Some(c) ==> (-1 <= c <= 1),
    {
        match self.repr.cmp(&other.repr) {
            Some(v) => Some(
                if v > 0 {
                    1
                } else if v < 0 {
                    -1
                } else {
                    0
                },
            ),
            None => None,
        }
    }

    /// Relies on BigFloat::format with decimal radix: the scientific-notation
    /// text of the value (`d.d...e+exp`, or `0.0`, `Inf`, `-Inf`, `NaN`); at
    /// the fixed 256-bit precision the text is a function of the value.
    #[verifier::external_body]
    pub fn raw_decimal(&self) -> (r: String)
        ensures
            r@ == format_model(self@),
    {
        let mut cache = Consts::new().expect("constants cache");
        self.repr.format(Radix::Dec, RoundingMode::ToEven, &mut cache).expect("formatting")
    }

    /// Value equality: true of equal values, never of NaN.
    pub fn eq_value(&self, other: &Float) -> (r: bool)
        ensures
            r == same_value(self@, other@),
    {
        match self.compare(other) {
            Some(c) => c == 0,
            None => false,
        }
    }

    /// True when this value is strictly greater than `other`; false when
    /// either side is NaN.
    pub fn gt_value(&self, other: &Float) -> (r: bool)
        ensures
            r == (cmp_model(self@, other@) == Some(1i8)),
    {
        match self.compare(other) {
            Some(c) => c == 1,
            None => false,
        }
    }

    /// True when this value is strictly below `other`; false when either
    /// side is NaN.
    pub fn lt_value(&self, other: &Float) -> (r: bool)
        ensures
            r == (cmp_model(self@, other@) == Some(-1i8)),
    {
        match self.compare(other) {
            Some(c) => c == -1,
            None => false,
        }
    }
}

} // verus!

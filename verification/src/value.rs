//! A value: an arbitrary-precision number paired with its dimension, with
//! checked arithmetic and unit conversion.

use vstd::prelude::*;
use crate::dimension::{
    dim_wf, spec_apply_qmap, spec_get_ratio, spec_qmap_acc, spec_simplify, DimEntry, Dimension,
};
use crate::float::{
    add_model, div_model, int_model, model_is_neg, model_is_zero, mul_model, neg_model, pow_model,
    recip_model, sub_model, Float, FloatModel,
};

verus! {

/// The view of a value: its number's model and its dimension's entries.
pub struct ValueModel {
    pub number: FloatModel,
    pub dimension: Seq<DimEntry>,
}

/// A number with a dimension.
#[derive(Debug)]
pub struct Value {
    number: Float,
    dimension: Dimension,
}

impl View for Value {
    type V = ValueModel;

    closed spec fn view(&self) -> ValueModel {
        ValueModel { number: self.number@, dimension: self.dimension@ }
    }
}

impl Clone for Value {
    fn clone(&self) -> (r: Self)
        ensures
            r@ == self@,
    {
        Value { number: self.number.clone(), dimension: self.dimension.clone() }
    }
}

/// What converting a value to a new dimension yields: the number divided by
/// the conversion ratio, under the new dimension; nothing when the dimensions
/// are incompatible.
pub open spec fn spec_convert(v: ValueModel, nd: Seq<DimEntry>) -> Option<ValueModel> {
    match spec_get_ratio(v.dimension, nd) {
        None => None,
        Some(r) => Some(ValueModel { number: div_model(v.number, r), dimension: nd }),
    }
}

/// What multiplying two values yields: the right operand's units are
/// reconciled to the left's choices per kind, the right value converted, the
/// numbers multiplied and the dimensions concatenated and simplified.
pub open spec fn spec_try_mul(a: ValueModel, b: ValueModel) -> Option<ValueModel> {
    let qmap = spec_qmap_acc(Seq::empty(), a.dimension);
    let nd = spec_apply_qmap(b.dimension, qmap);
    match spec_convert(ValueModel { number: b.number, dimension: b.dimension }, nd) {
        None => None,
        Some(b2) => Some(
            ValueModel {
                number: mul_model(a.number, b2.number),
                dimension: spec_simplify(a.dimension + nd),
            },
        ),
    }
}

/// The reciprocal of a value: every exponent negated, the number inverted.
pub open spec fn spec_reciprocal(v: ValueModel) -> ValueModel {
    ValueModel {
        number: recip_model(v.number),
        dimension: v.dimension.map_values(|e: DimEntry| (e.0, neg_model(e.1))),
    }
}

/// A dimension raised to a power: every exponent multiplied, then simplified.
pub open spec fn spec_dim_pow(d: Seq<DimEntry>, p: FloatModel) -> Seq<DimEntry> {
    spec_simplify(d.map_values(|e: DimEntry| (e.0, mul_model(e.1, p))))
}

/// What raising a value to a power yields: nothing when the exponent carries
/// units, when the result would be the root of a negative number (NaN), or
/// when a zero base meets a negative exponent; a zero exponent yields one.
pub open spec fn spec_try_pow(a: ValueModel, b: ValueModel) -> Option<ValueModel> {
    if b.dimension.len() != 0 {
        None
    } else if model_is_zero(b.number) {
        Some(ValueModel { number: int_model(1), dimension: spec_dim_pow(a.dimension, b.number) })
    } else if model_is_zero(a.number) && model_is_neg(b.number) {
        None
    } else {
        let val = pow_model(a.number, b.number);
        if val is Nan {
            None
        } else {
            Some(ValueModel { number: val, dimension: spec_dim_pow(a.dimension, b.number) })
        }
    }
}

impl Value {
    /// The dimension's compound tags are well-formed maps.
    pub open spec fn wf(&self) -> bool {
        dim_wf(self@.dimension)
    }

    /// A value from a number and an optional dimension; none means unitless.
    pub fn new(value: Float, dimension: Option<Dimension>) -> (r: Value)
        ensures
            r@.number == value@,
            r@.dimension == match dimension {
                Some(d) => d@,
                None => Seq::<DimEntry>::empty(),
            },
            (dimension matches Some(d) ==> d.wf()) ==> r.wf(),
    {
        match dimension {
            Some(d) => Value { number: value, dimension: d },
            None => Value { number: value, dimension: Dimension::empty() },
        }
    }

    pub fn into_parts(self) -> (r: (Float, Dimension))
        ensures
            r.0@ == self@.number,
            r.1@ == self@.dimension,
    {
        (self.number, self.dimension)
    }

    pub fn value(&self) -> (r: Float)
        ensures
            r@ == self@.number,
    {
        self.number.clone()
    }

    pub fn dimension(&self) -> (r: Dimension)
        ensures
            r@ == self@.dimension,
    {
        self.dimension.clone()
    }

    /// Brings the dimension to canonical form in place.
    pub fn simplify(&mut self)
        ensures
            final(self)@.number == old(self)@.number,
            final(self)@.dimension == spec_simplify(old(self)@.dimension),
            old(self).wf() ==> final(self).wf(),
    {
        self.dimension = self.dimension.simplify();
    }

    pub fn is_unitless(&self) -> (r: bool)
        ensures
            r == (self@.dimension.len() == 0),
    {
        self.dimension.is_unitless()
    }

    /// The same number under another dimension.
    pub fn with_units(&self, dimension: Dimension) -> (r: Value)
        ensures
            r@.number == self@.number,
            r@.dimension == dimension@,
            dimension.wf() ==> r.wf(),
    {
        Value { number: self.number.clone(), dimension }
    }

    /// Converts to a new dimension when the dimensions are compatible.
    pub fn convert(&self, new_dimension: &Dimension) -> (r: Option<Value>)
        requires
            self.wf(),
        ensures
            r matches Some(v) ==> spec_convert(self@, new_dimension@) == Some(v@),
            r is None <==> spec_convert(self@, new_dimension@) is None,
            new_dimension.wf() ==> (r matches Some(v) ==> v.wf()),
    {
        match self.dimension.get_ratio(new_dimension) {
            None => None,
            Some(ratio) => Some(
                Value { number: self.number.div(&ratio), dimension: new_dimension.clone() },
            ),
        }
    }

    /// Adds a compatible value: the right operand is brought to this value's
    /// units first; the result keeps this value's dimension.
    pub fn try_add(&self, other: &Value) -> (r: Option<Value>)
        requires
            self.wf(),
        ensures
            r matches Some(v) ==> (spec_get_ratio(self@.dimension, other@.dimension) matches
                Some(ratio) && v@ == ValueModel {
                number: add_model(self@.number, mul_model(other@.number, ratio)),
                dimension: self@.dimension,
            }),
            r is None <==> spec_get_ratio(self@.dimension, other@.dimension) is None,
            r matches Some(v) ==> v.wf(),
    {
        match self.dimension.get_ratio(&other.dimension) {
            None => None,
            Some(ratio) => Some(
                Value {
                    number: self.number.add(&other.number.mul(&ratio)),
                    dimension: self.dimension.clone(),
                },
            ),
        }
    }

    /// Subtracts a compatible value, as `try_add` does.
    pub fn try_sub(&self, other: &Value) -> (r: Option<Value>)
        requires
            self.wf(),
        ensures
            r matches Some(v) ==> (spec_get_ratio(self@.dimension, other@.dimension) matches
                Some(ratio) && v@ == ValueModel {
                number: sub_model(self@.number, mul_model(other@.number, ratio)),
                dimension: self@.dimension,
            }),
            r is None <==> spec_get_ratio(self@.dimension, other@.dimension) is None,
            r matches Some(v) ==> v.wf(),
    {
        match self.dimension.get_ratio(&other.dimension) {
            None => None,
            Some(ratio) => Some(
                Value {
                    number: self.number.sub(&other.number.mul(&ratio)),
                    dimension: self.dimension.clone(),
                },
            ),
        }
    }

    /// Multiplies, reconciling the right operand's unit choices to the left's
    /// so that like kinds share a unit.
    pub fn try_mul(&self, other: &Value) -> (r: Option<Value>)
        requires
            self.wf(),
            other.wf(),
        ensures
            r matches Some(v) ==> spec_try_mul(self@, other@) == Some(v@),
            r is None <==> spec_try_mul(self@, other@) is None,
            r matches Some(v) ==> v.wf(),
    {
        let qmap = self.dimension.get_quantity_map();
        let mut new_dimension = other.dimension.clone();
        new_dimension.apply_quantity_map(&qmap);
        match other.convert(&new_dimension) {
            None => None,
            Some(converted) => {
                let mut combined = self.dimension.clone();
                combined.append_entries(&new_dimension);
                let dim = combined.simplify();
                proof {
                    assert(combined@ == self@.dimension + new_dimension@);
                }
                Some(Value { number: self.number.mul(&converted.number), dimension: dim })
            },
        }
    }

    /// The reciprocal: exponents negated, number inverted.
    pub fn reciprocal(&self) -> (r: Value)
        ensures
            r@ == spec_reciprocal(self@),
            self.wf() ==> r.wf(),
    {
        Value { number: self.number.recip(), dimension: self.dimension.negate_powers() }
    }

    /// Divides by a value with a nonzero number; a zero divisor is a division
    /// error, reported as none.
    pub fn try_div(&self, other: &Value) -> (r: Option<Value>)
        requires
            self.wf(),
            other.wf(),
        ensures
            model_is_zero(other@.number) ==> r is None,
            !model_is_zero(other@.number) ==> {
                &&& (r matches Some(v) ==> spec_try_mul(self@, spec_reciprocal(other@)) == Some(
                    v@,
                ))
                &&& (r is None <==> spec_try_mul(self@, spec_reciprocal(other@)) is None)
            },
            r matches Some(v) ==> v.wf(),
    {
        if other.number.is_zero() {
            return None;
        }
        self.try_mul(&other.reciprocal())
    }

    /// Raises to a unitless power, following mathematical convention: a zero
    /// exponent yields one, a zero base refuses a negative exponent, and a
    /// NaN result (a root of a negative number) is an error.
    pub fn try_pow(&self, other: &Value) -> (r: Option<Value>)
        requires
            self.wf(),
        ensures
            r matches Some(v) ==> spec_try_pow(self@, other@) == Some(v@),
            r is None <==> spec_try_pow(self@, other@) is None,
            r matches Some(v) ==> v.wf(),
    {
        if !other.dimension.is_unitless() {
            return None;
        }
        let new_dimension = self.dimension.pow(&other.number);
        if other.number.is_zero() {
            return Some(Value { number: Float::from_i64(1), dimension: new_dimension });
        }
        if self.number.is_zero() && other.number.is_negative() {
            return None;
        }
        let val = self.number.pow(&other.number);
        if val.is_nan() {
            return None;
        }
        Some(Value { number: val, dimension: new_dimension })
    }
}

/// Raising to the power zero yields the number one; in particular zero to the
/// zero is one.
pub proof fn lemma_power_zero_is_one(a: ValueModel, b: ValueModel)
    requires
        b.dimension.len() == 0,
        model_is_zero(b.number),
    ensures
        spec_try_pow(a, b) matches Some(v) && v.number == int_model(1),
{
}

/// A zero base refuses a negative exponent: the division hiding in the power
/// is an error.
pub proof fn lemma_zero_base_negative_exponent(a: ValueModel, b: ValueModel)
    requires
        b.dimension.len() == 0,
        model_is_zero(a.number),
        model_is_neg(b.number),
        !model_is_zero(b.number),
    ensures
        spec_try_pow(a, b) is None,
{
}

} // verus!

//! The stateful line evaluator: a session's variable environment plus the
//! previous-value and running-block-total registers, and the depth-first
//! evaluation of expressions against it.
//!
//! Errors never abort the session: they abort one expression, and a failed
//! assignment poisons its variable so later uses report a variable error at
//! the use site.

use vstd::prelude::*;
use crate::dimension::{dim_wf, DimEntry, Dimension};
use crate::error::{ErrorModel, SiffraExecutionError};
use crate::expression::{
    err_model, expr_view, exprs_view, spec_lower_expr, Expression, ExpressionV, InnerExpression,
    InnerExpressionV,
};
use crate::float::{
    acos_model, asin_model, atan_model, cos_model, div_model, e_model, int_model, ln_model,
    log10_model, model_is_zero, pi_model, sin_model, tan_model, Float, FloatModel,
};
use crate::parse::{parse_line, spec_parse_line, ParsedLine, ParsedLineV};
use crate::span::Span;
use crate::text::{string_from, str_eq};
use crate::value::{spec_convert, spec_reciprocal, spec_try_mul, spec_try_pow, Value, ValueModel};

verus! {

broadcast use vstd::std_specs::vec::group_vec_axioms;

/// What a variable is bound to: a value, or the error that poisoned it.
#[derive(Debug)]
pub enum VariableValue {
    Error(SiffraExecutionError),
    Value(Value),
}

/// Why a variable read failed.
#[derive(Debug)]
pub enum VariableAccessError {
    NotDefined,
    Error(SiffraExecutionError),
}

/// The view of a binding.
pub enum VarModel {
    Error(ErrorModel),
    Value(ValueModel),
}

pub open spec fn var_view(v: VariableValue) -> VarModel {
    match v {
        VariableValue::Error(e) => VarModel::Error(e@),
        VariableValue::Value(val) => VarModel::Value(val@),
    }
}

pub open spec fn vars_view(v: Seq<(String, VariableValue)>) -> Seq<(Seq<char>, VarModel)> {
    v.map_values(|p: (String, VariableValue)| (p.0@, var_view(p.1)))
}

/// The pointwise reading of a variable list's view.
pub proof fn lemma_vars_view(v: Seq<(String, VariableValue)>)
    ensures
        vars_view(v).len() == v.len(),
        forall|k: int|
            0 <= k < v.len() ==> #[trigger] vars_view(v)[k] == ((v[k].0@, var_view(v[k].1))),
{
}

/// The first binding of a name, if any.
pub open spec fn spec_lookup(vars: Seq<(Seq<char>, VarModel)>, name: Seq<char>) -> Option<
    VarModel,
>
    decreases vars.len(),
{
    if vars.len() == 0 {
        None
    } else if vars[0].0 == name {
        Some(vars[0].1)
    } else {
        spec_lookup(vars.subrange(1, vars.len() as int), name)
    }
}

/// Binds a name, replacing its first binding or appending a new one.
pub open spec fn spec_set(
    vars: Seq<(Seq<char>, VarModel)>,
    name: Seq<char>,
    v: VarModel,
) -> Seq<(Seq<char>, VarModel)>
    decreases vars.len(),
{
    if vars.len() == 0 {
        seq![(name, v)]
    } else if vars[0].0 == name {
        seq![(name, v)] + vars.subrange(1, vars.len() as int)
    } else {
        seq![vars[0]] + spec_set(vars.subrange(1, vars.len() as int), name, v)
    }
}

/// The view of a session state.
pub struct StateModel {
    pub variables: Seq<(Seq<char>, VarModel)>,
    pub previous_value: Option<ValueModel>,
    pub block_total: Option<ValueModel>,
}

/// A binding's value is well formed.
pub open spec fn var_wf(v: VarModel) -> bool {
    match v {
        VarModel::Value(val) => dim_wf(val.dimension),
        VarModel::Error(_) => true,
    }
}

/// All of a state's values are well formed.
pub open spec fn state_wf(st: StateModel) -> bool {
    &&& forall|k: int| 0 <= k < st.variables.len() ==> var_wf((#[trigger] st.variables[k]).1)
    &&& match st.previous_value {
        Some(v) => dim_wf(v.dimension),
        None => true,
    }
    &&& match st.block_total {
        Some(v) => dim_wf(v.dimension),
        None => true,
    }
}

/// A session's mutable state: variables, the last successful value, and the
/// running block total.
#[derive(Debug)]
pub struct SiffraState {
    variables: Vec<(String, VariableValue)>,
    previous_value: Option<Value>,
    block_total: Option<Value>,
}

impl View for SiffraState {
    type V = StateModel;

    closed spec fn view(&self) -> StateModel {
        StateModel {
            variables: vars_view(self.variables@),
            previous_value: match self.previous_value {
                Some(ref v) => Some(v@),
                None => None,
            },
            block_total: match self.block_total {
                Some(ref v) => Some(v@),
                None => None,
            },
        }
    }
}

impl SiffraState {
    pub open spec fn wf(&self) -> bool {
        state_wf(self@)
    }

    /// A fresh state: no variables, no previous value, a zero block total.
    pub fn new() -> (r: SiffraState)
        ensures
            r@.variables == Seq::<(Seq<char>, VarModel)>::empty(),
            r@.previous_value is None,
            r@.block_total == Some(
                ValueModel { number: int_model(0), dimension: Seq::<DimEntry>::empty() },
            ),
            r.wf(),
    {
        let r = SiffraState {
            variables: Vec::new(),
            previous_value: None,
            block_total: Some(Value::new(Float::from_i64(0), None)),
        };
        proof {
            assert(r@.variables =~= Seq::<(Seq<char>, VarModel)>::empty());
        }
        r
    }

    /// Reads a variable: its value, the error that poisoned it, or nothing.
    pub fn get_variable(&self, name: &str) -> (r: Result<Value, VariableAccessError>)
        ensures
            r matches Ok(v) ==> spec_lookup(self@.variables, name@) == Some(VarModel::Value(v@)),
            r matches Err(VariableAccessError::Error(e)) ==> spec_lookup(self@.variables, name@)
                == Some(VarModel::Error(e@)),
            r matches Err(VariableAccessError::NotDefined) <==> spec_lookup(
                self@.variables,
                name@,
            ) is None,
            self.wf() ==> (r matches Ok(v) ==> v.wf()),
    {
        let ghost vars = self@.variables;
        let mut i: usize = 0;
        proof {
            assert(vars.subrange(0, vars.len() as int) =~= vars);
        }
        while i < self.variables.len()
            invariant
                i <= self.variables@.len(),
                vars == self@.variables,
                spec_lookup(vars.subrange(i as int, vars.len() as int), name@) == spec_lookup(
                    vars,
                    name@,
                ),
            decreases self.variables@.len() - i,
        {
            let ghost rem = vars.subrange(i as int, vars.len() as int);
            proof {
                lemma_vars_view(self.variables@);
                assert(rem[0] == vars[i as int]);
            }
            if str_eq(self.variables[i].0.as_str(), name) {
                return match &self.variables[i].1 {
                    VariableValue::Value(v) => Ok(v.clone()),
                    VariableValue::Error(e) => Err(VariableAccessError::Error(e.clone())),
                };
            }
            proof {
                assert(vars.subrange(i as int + 1, vars.len() as int) =~= rem.subrange(
                    1,
                    rem.len() as int,
                ));
            }
            i = i + 1;
        }
        proof {
            assert(vars.subrange(vars.len() as int, vars.len() as int) =~= Seq::<(
                Seq<char>,
                VarModel,
            )>::empty());
        }
        Err(VariableAccessError::NotDefined)
    }

    fn set_binding(&mut self, name: &str, v: VariableValue)
        ensures
            final(self)@.variables == spec_set(old(self)@.variables, name@, var_view(v)),
            final(self)@.previous_value == old(self)@.previous_value,
            final(self)@.block_total == old(self)@.block_total,
            old(self).wf() && var_wf(var_view(v)) ==> final(self).wf(),
    {
        let ghost vars = old(self)@.variables;
        let ghost vv = var_view(v);
        let mut i: usize = 0;
        proof {
            assert(vars.subrange(0, vars.len() as int) =~= vars);
        }
        while i < self.variables.len()
            invariant
                i <= self.variables@.len(),
                self@ == old(self)@,
                vars == self@.variables,
                var_view(v) == vv,
                forall|k: int| 0 <= k < i ==> (#[trigger] vars[k]).0 != name@,
            decreases self.variables@.len() - i,
        {
            proof {
                lemma_vars_view(self.variables@);
            }
            if str_eq(self.variables[i].0.as_str(), name) {
                proof {
                    assert(vars_view(self.variables@) == vars);
                    assert(vars[i as int].0 == name@);
                    lemma_set_at(vars, name@, vv, i as int);
                }
                let ghost pv0 = self.variables@;
                let new_name = string_from(name);
                let ghost vsnap = v;
                proof {
                    assert(new_name@ == name@);
                    assert(var_view(vsnap) == vv);
                }
                self.variables.set(i, (new_name, v));
                proof {
                    lemma_vars_view(self.variables@);
                    lemma_vars_view(pv0);
                    assert(self.variables@.len() == pv0.len());
                    assert(self.variables@[i as int].0@ == name@);
                    assert(self.variables@[i as int].1 == vsnap);
                    assert(var_view(self.variables@[i as int].1) == vv);
                    assert(vars_view(self.variables@) =~= vars.update(i as int, (name@, vv)));
                }
                return ;
            }
            i = i + 1;
        }
        proof {
            assert(vars_view(self.variables@) == vars);
            lemma_set_at(vars, name@, vv, vars.len() as int);
        }
        let ghost pv0 = self.variables@;
        self.variables.push((string_from(name), v));
        proof {
            lemma_vars_view(self.variables@);
            lemma_vars_view(pv0);
            assert(vars_view(self.variables@) =~= vars.push((name@, vv)));
        }
    }

    /// Binds a variable to a value; the last write wins.
    pub fn set_variable(&mut self, name: &str, value: Value)
        ensures
            final(self)@.variables == spec_set(
                old(self)@.variables,
                name@,
                VarModel::Value(value@),
            ),
            final(self)@.previous_value == old(self)@.previous_value,
            final(self)@.block_total == old(self)@.block_total,
            old(self).wf() && value.wf() ==> final(self).wf(),
    {
        self.set_binding(name, VariableValue::Value(value));
    }

    /// Poisons a variable with the error its definition produced.
    pub fn error_variable(&mut self, name: &str, error: SiffraExecutionError)
        ensures
            final(self)@.variables == spec_set(
                old(self)@.variables,
                name@,
                VarModel::Error(error@),
            ),
            final(self)@.previous_value == old(self)@.previous_value,
            final(self)@.block_total == old(self)@.block_total,
            old(self).wf() ==> final(self).wf(),
    {
        self.set_binding(name, VariableValue::Error(error));
    }

    pub fn set_previous_value(&mut self, value: Value)
        ensures
            final(self)@.variables == old(self)@.variables,
            final(self)@.previous_value == Some(value@),
            final(self)@.block_total == old(self)@.block_total,
            old(self).wf() && value.wf() ==> final(self).wf(),
    {
        self.previous_value = Some(value);
        proof {
            assert(self@.variables == old(self)@.variables);
        }
    }

    pub fn previous_value(&self) -> (r: Option<Value>)
        ensures
            r matches Some(v) ==> self@.previous_value == Some(v@),
            r is None <==> self@.previous_value is None,
            self.wf() ==> (r matches Some(v) ==> v.wf()),
    {
        match &self.previous_value {
            Some(v) => Some(v.clone()),
            None => None,
        }
    }

    pub fn clear_previous_value(&mut self)
        ensures
            final(self)@.variables == old(self)@.variables,
            final(self)@.previous_value is None,
            final(self)@.block_total == old(self)@.block_total,
            old(self).wf() ==> final(self).wf(),
    {
        self.previous_value = None;
    }

    pub fn block_total(&self) -> (r: Option<Value>)
        ensures
            r matches Some(v) ==> self@.block_total == Some(v@),
            r is None <==> self@.block_total is None,
            self.wf() ==> (r matches Some(v) ==> v.wf()),
    {
        match &self.block_total {
            Some(v) => Some(v.clone()),
            None => None,
        }
    }

    /// Adds a value to the running block total. A scalar-zero total is
    /// replaced outright so units propagate without coercion; an incompatible
    /// addition clears the total.
    pub fn add_to_block_total(&mut self, value: &Value)
        requires
            old(self).wf(),
            value.wf(),
        ensures
            final(self)@.variables == old(self)@.variables,
            final(self)@.previous_value == old(self)@.previous_value,
            final(self)@.block_total == (match old(self)@.block_total {
                None => None::<ValueModel>,
                Some(total) => if total.dimension.len() == 0 && model_is_zero(total.number) {
                    Some(value@)
                } else {
                    match crate::dimension::spec_get_ratio(value@.dimension, total.dimension) {
                        Some(ratio) => Some(
                            ValueModel {
                                number: crate::float::add_model(
                                    value@.number,
                                    crate::float::mul_model(total.number, ratio),
                                ),
                                dimension: value@.dimension,
                            },
                        ),
                        None => None::<ValueModel>,
                    }
                },
            }),
            final(self).wf(),
    {
        let total = match &self.block_total {
            None => {
                proof {
                    assert(state_wf(self@));
                }
                return ;
            },
            Some(t) => t.clone(),
        };
        if total.is_unitless() && total.value().is_zero() {
            self.block_total = Some(value.clone());
            proof {
                assert(self@.variables == old(self)@.variables);
                assert(self@.previous_value == old(self)@.previous_value);
                assert(state_wf(self@));
            }
        } else {
            let sum = value.try_add(&total);
            proof {
                assert(match sum {
                    Some(ref v) => v.wf(),
                    None => true,
                });
            }
            self.block_total = sum;
            proof {
                assert(self@.variables == old(self)@.variables);
                assert(state_wf(self@));
            }
        }
    }

    /// Resets the running block total to scalar zero.
    pub fn clear_block_total(&mut self)
        ensures
            final(self)@.variables == old(self)@.variables,
            final(self)@.previous_value == old(self)@.previous_value,
            final(self)@.block_total == Some(
                ValueModel { number: int_model(0), dimension: Seq::<DimEntry>::empty() },
            ),
            old(self).wf() ==> final(self).wf(),
    {
        self.block_total = Some(Value::new(Float::from_i64(0), None));
        proof {
            assert(self@.variables == old(self)@.variables);
        }
    }
}

proof fn lemma_set_at(
    vars: Seq<(Seq<char>, VarModel)>,
    name: Seq<char>,
    v: VarModel,
    idx: int,
)
    requires
        0 <= idx <= vars.len(),
        forall|k: int| 0 <= k < idx ==> (#[trigger] vars[k]).0 != name,
        idx < vars.len() ==> vars[idx].0 == name,
    ensures
        idx < vars.len() ==> spec_set(vars, name, v) =~= vars.update(idx, (name, v)),
        idx == vars.len() ==> spec_set(vars, name, v) =~= vars.push((name, v)),
    decreases vars.len(),
{
    if vars.len() == 0 {
        assert(spec_set(vars, name, v) =~= vars.push((name, v)));
    } else if idx == 0 {
        assert(spec_set(vars, name, v) =~= vars.update(0, (name, v)));
    } else {
        let tail = vars.subrange(1, vars.len() as int);
        lemma_set_at(tail, name, v, idx - 1);
        if idx < vars.len() {
            assert(tail[idx - 1].0 == name);
            assert(spec_set(vars, name, v) =~= vars.update(idx, (name, v)));
        } else {
            assert(spec_set(vars, name, v) =~= vars.push((name, v)));
        }
    }
}

/// The values of an evaluated argument list.
pub open spec fn values_view(v: Seq<Value>) -> Seq<ValueModel> {
    v.map_values(|x: Value| x@)
}

/// The description of an unknown-variable error.
pub open spec fn unknown_variable_desc(name: Seq<char>) -> Seq<char> {
    "Variable '"@ + name + "' not found"@
}

/// One half, used for square roots.
pub open spec fn half_model() -> FloatModel {
    div_model(int_model(1), int_model(2))
}

/// The built-in functions, applied to evaluated arguments. Trigonometry and
/// logarithms drop their argument's units; `sqrt` raises to the half power;
/// `factorial` is not yet implemented; an unknown name is an error at the
/// function-name span.
pub open spec fn spec_apply_function(
    name: Seq<char>,
    vals: Seq<ValueModel>,
    span: Option<Span>,
    fspan: Option<Span>,
) -> Result<ValueModel, ErrorModel> {
    if name == "factorial"@ {
        Err(
            err_model(
                "Not Yet Implemented Error"@,
                Some("Factorial function not yet implemented"@),
                span,
            ),
        )
    } else if name == "log"@ {
        if vals.len() == 1 {
            Ok(
                ValueModel {
                    number: log10_model(vals[0].number),
                    dimension: Seq::<DimEntry>::empty(),
                },
            )
        } else if vals.len() == 2 {
            Ok(
                ValueModel {
                    number: div_model(ln_model(vals[1].number), ln_model(vals[0].number)),
                    dimension: Seq::<DimEntry>::empty(),
                },
            )
        } else {
            Err(
                err_model(
                    "Argument Error"@,
                    Some("log function takes either 1 or 2 arguments"@),
                    span,
                ),
            )
        }
    } else if name == "ln"@ {
        if vals.len() == 1 {
            Ok(
                ValueModel {
                    number: ln_model(vals[0].number),
                    dimension: Seq::<DimEntry>::empty(),
                },
            )
        } else {
            Err(
                err_model(
                    "Argument Error"@,
                    Some("ln function takes exactly 1 argument"@),
                    span,
                ),
            )
        }
    } else if name == "sqrt"@ {
        if vals.len() == 1 {
            match spec_try_pow(
                vals[0],
                ValueModel { number: half_model(), dimension: Seq::<DimEntry>::empty() },
            ) {
                Some(v) => Ok(v),
                None => Err(
                    err_model("Root Error"@, Some("Error taking square root"@), span),
                ),
            }
        } else {
            Err(
                err_model(
                    "Argument Error"@,
                    Some("sqrt function takes exactly 1 argument"@),
                    span,
                ),
            )
        }
    } else if name == "sin"@ {
        if vals.len() == 1 {
            Ok(
                ValueModel {
                    number: sin_model(vals[0].number),
                    dimension: Seq::<DimEntry>::empty(),
                },
            )
        } else {
            Err(
                err_model(
                    "Argument Error"@,
                    Some("sin function takes exactly 1 argument"@),
                    span,
                ),
            )
        }
    } else if name == "cos"@ {
        if vals.len() == 1 {
            Ok(
                ValueModel {
                    number: cos_model(vals[0].number),
                    dimension: Seq::<DimEntry>::empty(),
                },
            )
        } else {
            Err(
                err_model(
                    "Argument Error"@,
                    Some("cos function takes exactly 1 argument"@),
                    span,
                ),
            )
        }
    } else if name == "tan"@ {
        if vals.len() == 1 {
            Ok(
                ValueModel {
                    number: tan_model(vals[0].number),
                    dimension: Seq::<DimEntry>::empty(),
                },
            )
        } else {
            Err(
                err_model(
                    "Argument Error"@,
                    Some("tan function takes exactly 1 argument"@),
                    span,
                ),
            )
        }
    } else if name == "asin"@ {
        if vals.len() == 1 {
            Ok(
                ValueModel {
                    number: asin_model(vals[0].number),
                    dimension: Seq::<DimEntry>::empty(),
                },
            )
        } else {
            Err(
                err_model(
                    "Argument Error"@,
                    Some("asin function takes exactly 1 argument"@),
                    span,
                ),
            )
        }
    } else if name == "acos"@ {
        if vals.len() == 1 {
            Ok(
                ValueModel {
                    number: acos_model(vals[0].number),
                    dimension: Seq::<DimEntry>::empty(),
                },
            )
        } else {
            Err(
                err_model(
                    "Argument Error"@,
                    Some("acos function takes exactly 1 argument"@),
                    span,
                ),
            )
        }
    } else if name == "atan"@ {
        if vals.len() == 1 {
            Ok(
                ValueModel {
                    number: atan_model(vals[0].number),
                    dimension: Seq::<DimEntry>::empty(),
                },
            )
        } else {
            Err(
                err_model(
                    "Argument Error"@,
                    Some("atan function takes exactly 1 argument"@),
                    span,
                ),
            )
        }
    } else {
        Err(
            err_model(
                "Function not defined"@,
                None,
                match fspan {
                    Some(f) => Some(f),
                    None => span,
                },
            ),
        )
    }
}

/// What evaluating an expression against a state yields.
pub open spec fn spec_evaluate_expr(e: ExpressionV, st: StateModel) -> Result<
    ValueModel,
    ErrorModel,
>
    decreases e, 1int,
{
    match e.inner {
        InnerExpressionV::Constant(v) => Ok(v),
        InnerExpressionV::Convert(inner, dim) => match spec_evaluate_expr(*inner, st) {
            Err(er) => Err(er),
            Ok(val) => if dim.len() == 0 {
                Ok(ValueModel { number: val.number, dimension: Seq::<DimEntry>::empty() })
            } else if val.dimension.len() == 0 {
                Ok(ValueModel { number: val.number, dimension: dim })
            } else {
                match spec_convert(val, dim) {
                    None => Err(
                        err_model("Unit Error"@, Some("Error converting units"@), e.span),
                    ),
                    Some(v2) => Ok(v2),
                }
            },
        },
        InnerExpressionV::Variable(name) => match spec_lookup(st.variables, name) {
            Some(VarModel::Value(v)) => Ok(v),
            Some(VarModel::Error(_)) => Err(
                err_model(
                    "Variable Error"@,
                    Some("Definition of variable had an error"@),
                    e.span,
                ),
            ),
            None => if name == "pi"@ {
                Ok(ValueModel { number: pi_model(256), dimension: Seq::<DimEntry>::empty() })
            } else if name == "e"@ {
                Ok(ValueModel { number: e_model(256), dimension: Seq::<DimEntry>::empty() })
            } else {
                Err(err_model("Name Error"@, Some(unknown_variable_desc(name)), e.span))
            },
        },
        InnerExpressionV::FunctionCall { name, args } => match spec_eval_args(args, st) {
            Err(er) => Err(er),
            Ok(vals) => spec_apply_function(name, vals, e.span, e.function_name_span),
        },
        InnerExpressionV::Multiply(a, b) => match spec_evaluate_expr(*a, st) {
            Err(er) => Err(er),
            Ok(x) => match spec_evaluate_expr(*b, st) {
                Err(er) => Err(er),
                Ok(y) => match spec_try_mul(x, y) {
                    None => Err(
                        err_model(
                            "Unit Error"@,
                            Some("Units do not match in multiplication"@),
                            e.span,
                        ),
                    ),
                    Some(v) => Ok(v),
                },
            },
        },
        InnerExpressionV::Divide(a, b) => match spec_evaluate_expr(*a, st) {
            Err(er) => Err(er),
            Ok(x) => match spec_evaluate_expr(*b, st) {
                Err(er) => Err(er),
                Ok(y) => if model_is_zero(y.number) {
                    Err(err_model("Division Error"@, Some("Division by zero"@), e.span))
                } else {
                    match spec_try_mul(x, spec_reciprocal(y)) {
                        None => Err(
                            err_model(
                                "Division Error"@,
                                Some("Division by zero"@),
                                e.span,
                            ),
                        ),
                        Some(v) => Ok(v),
                    }
                },
            },
        },
        InnerExpressionV::Add(a, b) => match spec_evaluate_expr(*a, st) {
            Err(er) => Err(er),
            Ok(x) => match spec_evaluate_expr(*b, st) {
                Err(er) => Err(er),
                Ok(y) => match crate::dimension::spec_get_ratio(x.dimension, y.dimension) {
                    None => Err(
                        err_model(
                            "Unit Error"@,
                            Some("Units do not match in addition"@),
                            e.span,
                        ),
                    ),
                    Some(ratio) => Ok(
                        ValueModel {
                            number: crate::float::add_model(
                                x.number,
                                crate::float::mul_model(y.number, ratio),
                            ),
                            dimension: x.dimension,
                        },
                    ),
                },
            },
        },
        InnerExpressionV::Subtract(a, b) => match spec_evaluate_expr(*a, st) {
            Err(er) => Err(er),
            Ok(x) => match spec_evaluate_expr(*b, st) {
                Err(er) => Err(er),
                Ok(y) => match crate::dimension::spec_get_ratio(x.dimension, y.dimension) {
                    None => Err(
                        err_model(
                            "Unit Error"@,
                            Some("Units do not match in subtraction"@),
                            e.span,
                        ),
                    ),
                    Some(ratio) => Ok(
                        ValueModel {
                            number: crate::float::sub_model(
                                x.number,
                                crate::float::mul_model(y.number, ratio),
                            ),
                            dimension: x.dimension,
                        },
                    ),
                },
            },
        },
        InnerExpressionV::Exponent(a, b) => match spec_evaluate_expr(*a, st) {
            Err(er) => Err(er),
            Ok(x) => match spec_evaluate_expr(*b, st) {
                Err(er) => Err(er),
                Ok(y) => if y.dimension.len() != 0 {
                    Err(
                        err_model("Unit Error"@, Some("Exponent must be unitless"@), e.span),
                    )
                } else {
                    match spec_try_pow(x, y) {
                        None => Err(
                            err_model(
                                "Root Error"@,
                                Some("Error computing the power"@),
                                e.span,
                            ),
                        ),
                        Some(v) => Ok(v),
                    }
                },
            },
        },
    }
}

/// Evaluates a call's arguments left to right, stopping at the first error.
pub open spec fn spec_eval_args(args: Seq<ExpressionV>, st: StateModel) -> Result<
    Seq<ValueModel>,
    ErrorModel,
>
    decreases args, 0int,
{
    if args.len() == 0 {
        Ok(Seq::empty())
    } else {
        match spec_evaluate_expr(args[0], st) {
            Err(er) => Err(er),
            Ok(v) => match spec_eval_args(args.subrange(1, args.len() as int), st) {
                Err(er) => Err(er),
                Ok(rest) => Ok(seq![v] + rest),
            },
        }
    }
}

/// Applies a built-in function to evaluated arguments.
fn apply_function(
    name: &String,
    vals: Vec<Value>,
    span: Option<Span>,
    fspan: Option<Span>,
) -> (r: Result<Value, SiffraExecutionError>)
    requires
        forall|i: int| 0 <= i < vals@.len() ==> (#[trigger] vals@[i]).wf(),
    ensures
        r matches Ok(v) ==> spec_apply_function(name@, values_view(vals@), span, fspan) == Ok::<
            ValueModel,
            ErrorModel,
        >(v@) && v.wf(),
        r matches Err(e) ==> spec_apply_function(name@, values_view(vals@), span, fspan) == Err::<
            ValueModel,
            ErrorModel,
        >(e@),
{
    proof {
        lemma_values_view(vals@);
    }
    if str_eq(name.as_str(), "factorial") {
        Err(
            crate::expression::make_error_pub(
                "Not Yet Implemented Error",
                "Factorial function not yet implemented",
                span,
            ),
        )
    } else if str_eq(name.as_str(), "log") {
        if vals.len() == 1 {
            Ok(Value::new(vals[0].value().log10(), None))
        } else if vals.len() == 2 {
            Ok(Value::new(vals[1].value().ln().div(&vals[0].value().ln()), None))
        } else {
            Err(
                crate::expression::make_error_pub(
                    "Argument Error",
                    "log function takes either 1 or 2 arguments",
                    span,
                ),
            )
        }
    } else if str_eq(name.as_str(), "ln") {
        if vals.len() == 1 {
            Ok(Value::new(vals[0].value().ln(), None))
        } else {
            Err(
                crate::expression::make_error_pub(
                    "Argument Error",
                    "ln function takes exactly 1 argument",
                    span,
                ),
            )
        }
    } else if str_eq(name.as_str(), "sqrt") {
        if vals.len() == 1 {
            let half = Value::new(Float::from_i64(1).div(&Float::from_i64(2)), None);
            match vals[0].try_pow(&half) {
                Some(v) => Ok(v),
                None => Err(
                    crate::expression::make_error_pub(
                        "Root Error",
                        "Error taking square root",
                        span,
                    ),
                ),
            }
        } else {
            Err(
                crate::expression::make_error_pub(
                    "Argument Error",
                    "sqrt function takes exactly 1 argument",
                    span,
                ),
            )
        }
    } else if str_eq(name.as_str(), "sin") {
        if vals.len() == 1 {
            Ok(Value::new(vals[0].value().sin(), None))
        } else {
            Err(
                crate::expression::make_error_pub(
                    "Argument Error",
                    "sin function takes exactly 1 argument",
                    span,
                ),
            )
        }
    } else if str_eq(name.as_str(), "cos") {
        if vals.len() == 1 {
            Ok(Value::new(vals[0].value().cos(), None))
        } else {
            Err(
                crate::expression::make_error_pub(
                    "Argument Error",
                    "cos function takes exactly 1 argument",
                    span,
                ),
            )
        }
    } else if str_eq(name.as_str(), "tan") {
        if vals.len() == 1 {
            Ok(Value::new(vals[0].value().tan(), None))
        } else {
            Err(
                crate::expression::make_error_pub(
                    "Argument Error",
                    "tan function takes exactly 1 argument",
                    span,
                ),
            )
        }
    } else if str_eq(name.as_str(), "asin") {
        if vals.len() == 1 {
            Ok(Value::new(vals[0].value().asin(), None))
        } else {
            Err(
                crate::expression::make_error_pub(
                    "Argument Error",
                    "asin function takes exactly 1 argument",
                    span,
                ),
            )
        }
    } else if str_eq(name.as_str(), "acos") {
        if vals.len() == 1 {
            Ok(Value::new(vals[0].value().acos(), None))
        } else {
            Err(
                crate::expression::make_error_pub(
                    "Argument Error",
                    "acos function takes exactly 1 argument",
                    span,
                ),
            )
        }
    } else if str_eq(name.as_str(), "atan") {
        if vals.len() == 1 {
            Ok(Value::new(vals[0].value().atan(), None))
        } else {
            Err(
                crate::expression::make_error_pub(
                    "Argument Error",
                    "atan function takes exactly 1 argument",
                    span,
                ),
            )
        }
    } else {
        let at = match fspan {
            Some(f) => Some(f),
            None => span,
        };
        Err(crate::expression::make_error_plain_pub("Function not defined", at))
    }
}

/// The pointwise reading of a value list's view.
pub proof fn lemma_values_view(v: Seq<Value>)
    ensures
        values_view(v).len() == v.len(),
        forall|k: int| 0 <= k < v.len() ==> #[trigger] values_view(v)[k] == v[k]@,
{
}

/// Evaluates a call's arguments left to right, stopping at the first error.
#[verifier::loop_isolation(false)]
fn eval_args(args: &Vec<Expression>, state: &SiffraState) -> (r: Result<
    Vec<Value>,
    SiffraExecutionError,
>)
    requires
        forall|i: int|
            0 <= i < args@.len() ==> crate::expression::spec_expr_wf(
                #[trigger] exprs_view(args@)[i],
            ),
        state.wf(),
    ensures
        r matches Ok(vs) ==> spec_eval_args(exprs_view(args@), state@) == Ok::<
            Seq<ValueModel>,
            ErrorModel,
        >(values_view(vs@)) && (forall|i: int| 0 <= i < vs@.len() ==> (#[trigger] vs@[i]).wf()),
        r matches Err(e) ==> spec_eval_args(exprs_view(args@), state@) == Err::<
            Seq<ValueModel>,
            ErrorModel,
        >(e@),
    decreases args, 0int,
{
    let ghost av = exprs_view(args@);
    let mut out: Vec<Value> = Vec::new();
    let mut i: usize = 0;
    proof {
        assert(av.subrange(0, av.len() as int) =~= av);
        assert(values_view(out@) =~= Seq::<ValueModel>::empty());
    }
    while i < args.len()
        invariant
            i <= args@.len(),
            out@.len() == i,
            forall|k: int| 0 <= k < out@.len() ==> (#[trigger] out@[k]).wf(),
            spec_eval_args(av, state@) == (match spec_eval_args(
                av.subrange(i as int, av.len() as int),
                state@,
            ) {
                Err(e) => Err(e),
                Ok(rest) => Ok(values_view(out@) + rest),
            }),
        decreases args@.len() - i,
    {
        let ghost rem = av.subrange(i as int, av.len() as int);
        proof {
            assert(rem[0] == av[i as int]);
            assert(av[i as int] == expr_view(args@[i as int]));
            assert(decreases_to!(args => args[i as int]));
        }
        match evaluate_expr(&args[i], state) {
            Err(e) => {
                return Err(e);
            },
            Ok(v) => {
                let ghost vv = v@;
                let ghost out0 = values_view(out@);
                out.push(v);
                proof {
                    lemma_values_view(out@);
                    assert(values_view(out@) =~= out0.push(vv));
                    assert(av.subrange(i as int + 1, av.len() as int) =~= rem.subrange(
                        1,
                        rem.len() as int,
                    ));
                    assert forall|rest: Seq<ValueModel>|
                        #[trigger] (values_view(out@) + rest) =~= (out0 + (seq![vv]
                            + rest)) by {}
                }
            },
        }
        i = i + 1;
    }
    proof {
        assert(av.subrange(av.len() as int, av.len() as int) =~= Seq::<ExpressionV>::empty());
        assert(values_view(out@) + Seq::<ValueModel>::empty() =~= values_view(out@));
    }
    Ok(out)
}

/// Evaluates an expression against a state, depth first.
#[verifier::loop_isolation(false)]
#[verifier::rlimit(100)]
pub fn evaluate_expr(expr: &Expression, state: &SiffraState) -> (r: Result<
    Value,
    SiffraExecutionError,
>)
    requires
        crate::expression::spec_expr_wf(expr@),
        state.wf(),
    ensures
        r matches Ok(v) ==> spec_evaluate_expr(expr@, state@) == Ok::<ValueModel, ErrorModel>(v@)
            && v.wf(),
        r matches Err(e) ==> spec_evaluate_expr(expr@, state@) == Err::<ValueModel, ErrorModel>(
            e@,
        ),
    decreases expr, 1int,
{
    let span = expr.span();
    match &expr.inner {
        InnerExpression::Constant(v) => {
            proof {
                assert(crate::dimension::dim_wf(v@.dimension));
            }
            Ok(v.clone())
        },
        InnerExpression::Convert(inner, dim) => {
            let val = match evaluate_expr(inner, state) {
                Err(e) => {
                    return Err(e);
                },
                Ok(v) => v,
            };
            if dim.is_unitless() {
                Ok(val.with_units(Dimension::empty()))
            } else if val.is_unitless() {
                Ok(val.with_units(dim.clone()))
            } else {
                match val.convert(dim) {
                    None => Err(
                        crate::expression::make_error_pub(
                            "Unit Error",
                            "Error converting units",
                            span,
                        ),
                    ),
                    Some(v2) => Ok(v2),
                }
            }
        },
        InnerExpression::Variable(name) => {
            match state.get_variable(name.as_str()) {
                Ok(v) => Ok(v),
                Err(VariableAccessError::Error(_)) => Err(
                    crate::expression::make_error_pub(
                        "Variable Error",
                        "Definition of variable had an error",
                        span,
                    ),
                ),
                Err(VariableAccessError::NotDefined) => {
                    if str_eq(name.as_str(), "pi") {
                        Ok(Value::new(Float::pi(), None))
                    } else if str_eq(name.as_str(), "e") {
                        Ok(Value::new(Float::e(), None))
                    } else {
                        let mut desc = string_from("Variable '");
                        desc.append(name.as_str());
                        desc.append("' not found");
                        proof {
                            assert(desc@ == unknown_variable_desc(name@));
                        }
                        let err = SiffraExecutionError::new(
                            string_from("Name Error"),
                        ).with_description(desc);
                        let err = match span {
                            Some(sp) => err.with_span(sp.start(), sp.end()),
                            None => err,
                        };
                        Err(err)
                    }
                },
            }
        },
        InnerExpression::FunctionCall { name, args } => {
            proof {
                assert(expr@.inner->FunctionCall_args =~= exprs_view(args@));
            }
            match eval_args(args, state) {
                Err(e) => Err(e),
                Ok(vals) => apply_function(name, vals, span, expr.function_name_span()),
            }
        },
        InnerExpression::Multiply(a, b) => {
            let x = match evaluate_expr(a, state) {
                Err(e) => {
                    return Err(e);
                },
                Ok(v) => v,
            };
            let y = match evaluate_expr(b, state) {
                Err(e) => {
                    return Err(e);
                },
                Ok(v) => v,
            };
            match x.try_mul(&y) {
                None => Err(
                    crate::expression::make_error_pub(
                        "Unit Error",
                        "Units do not match in multiplication",
                        span,
                    ),
                ),
                Some(v) => Ok(v),
            }
        },
        InnerExpression::Divide(a, b) => {
            let x = match evaluate_expr(a, state) {
                Err(e) => {
                    return Err(e);
                },
                Ok(v) => v,
            };
            let y = match evaluate_expr(b, state) {
                Err(e) => {
                    return Err(e);
                },
                Ok(v) => v,
            };
            match x.try_div(&y) {
                None => Err(
                    crate::expression::make_error_pub(
                        "Division Error",
                        "Division by zero",
                        span,
                    ),
                ),
                Some(v) => Ok(v),
            }
        },
        InnerExpression::Add(a, b) => {
            let x = match evaluate_expr(a, state) {
                Err(e) => {
                    return Err(e);
                },
                Ok(v) => v,
            };
            let y = match evaluate_expr(b, state) {
                Err(e) => {
                    return Err(e);
                },
                Ok(v) => v,
            };
            match x.try_add(&y) {
                None => Err(
                    crate::expression::make_error_pub(
                        "Unit Error",
                        "Units do not match in addition",
                        span,
                    ),
                ),
                Some(v) => Ok(v),
            }
        },
        InnerExpression::Subtract(a, b) => {
            let x = match evaluate_expr(a, state) {
                Err(e) => {
                    return Err(e);
                },
                Ok(v) => v,
            };
            let y = match evaluate_expr(b, state) {
                Err(e) => {
                    return Err(e);
                },
                Ok(v) => v,
            };
            match x.try_sub(&y) {
                None => Err(
                    crate::expression::make_error_pub(
                        "Unit Error",
                        "Units do not match in subtraction",
                        span,
                    ),
                ),
                Some(v) => Ok(v),
            }
        },
        InnerExpression::Exponent(a, b) => {
            let x = match evaluate_expr(a, state) {
                Err(e) => {
                    return Err(e);
                },
                Ok(v) => v,
            };
            let y = match evaluate_expr(b, state) {
                Err(e) => {
                    return Err(e);
                },
                Ok(v) => v,
            };
            if !y.is_unitless() {
                Err(
                    crate::expression::make_error_pub(
                        "Unit Error",
                        "Exponent must be unitless",
                        span,
                    ),
                )
            } else {
                match x.try_pow(&y) {
                    None => Err(
                        crate::expression::make_error_pub(
                            "Root Error",
                            "Error computing the power",
                            span,
                        ),
                    ),
                    Some(v) => Ok(v),
                }
            }
        },
    }
}

/// The outcome of one line: a value, nothing (comments and blanks), or an
/// error.
pub type EvaluationResult = Result<Option<Value>, SiffraExecutionError>;

/// What feeding one line to a state yields, and the state it leaves behind: a
/// malformed line is a syntax error pointing where parsing stopped; a comment
/// yields
/// nothing; an expression yields its value; an assignment binds the variable
/// on success and poisons it with the error on failure, yielding the same
/// outcome.
pub open spec fn spec_evaluate_line(s: Seq<char>, st: StateModel) -> (Result<
    Option<ValueModel>,
    ErrorModel,
>, StateModel) {
    match spec_parse_line(s) {
        Err(p) => (
            Err(
                ErrorModel {
                    message: "Syntax Error"@,
                    description: Some("Could not parse the provided line"@),
                    span: Some((p as usize, (p + 1) as usize)),
                    location: None,
                },
            ),
            st,
        ),
        Ok(ParsedLineV::Comment) => (Ok(None), st),
        Ok(ParsedLineV::Expression(pe)) => match spec_lower_expr(pe) {
            Err(e) => (Err(e), st),
            Ok(e) => match spec_evaluate_expr(e, st) {
                Err(er) => (Err(er), st),
                Ok(v) => (Ok(Some(v)), st),
            },
        },
        Ok(ParsedLineV::Variable(name, pe)) => match spec_lower_expr(pe) {
            Err(e) => (Err(e), st),
            Ok(e) => match spec_evaluate_expr(e, st) {
                Ok(v) => (
                    Ok(Some(v)),
                    StateModel {
                        variables: spec_set(st.variables, name, VarModel::Value(v)),
                        previous_value: st.previous_value,
                        block_total: st.block_total,
                    },
                ),
                Err(er) => (
                    Err(er),
                    StateModel {
                        variables: spec_set(st.variables, name, VarModel::Error(er)),
                        previous_value: st.previous_value,
                        block_total: st.block_total,
                    },
                ),
            },
        },
    }
}

/// Feeds one line of text to the session.
pub fn evaluate_line(line: &str, state: &mut SiffraState) -> (r: EvaluationResult)
    requires
        old(state).wf(),
    ensures
        final(state)@ == spec_evaluate_line(line@, old(state)@).1,
        final(state).wf(),
        r matches Ok(o) ==> spec_evaluate_line(line@, old(state)@).0 == Ok::<
            Option<ValueModel>,
            ErrorModel,
        >(match o {
            Some(ref v) => Some(v@),
            None => None,
        }),
        r matches Ok(Some(v)) ==> v.wf(),
        r matches Err(e) ==> spec_evaluate_line(line@, old(state)@).0 == Err::<
            Option<ValueModel>,
            ErrorModel,
        >(e@),
{
    match parse_line(line) {
        Err(p) => Err(
            crate::expression::make_error_pub(
                "Syntax Error",
                "Could not parse the provided line",
                Some(Span::new(p, p + 1)),
            ),
        ),
        Ok(ParsedLine::Comment) => Ok(None),
        Ok(ParsedLine::Expression(pe)) => {
            match Expression::try_from(pe) {
                Err(e) => Err(e),
                Ok(ex) => {
                    match evaluate_expr(&ex, state) {
                        Err(e) => Err(e),
                        Ok(v) => Ok(Some(v)),
                    }
                },
            }
        },
        Ok(ParsedLine::Variable(name, pe)) => {
            match Expression::try_from(pe) {
                Err(e) => Err(e),
                Ok(ex) => {
                    match evaluate_expr(&ex, state) {
                        Ok(v) => {
                            state.set_variable(name.as_str(), v.clone());
                            Ok(Some(v))
                        },
                        Err(e) => {
                            state.error_variable(name.as_str(), e.clone());
                            Err(e)
                        },
                    }
                },
            }
        },
    }
}

/// Replaying a line against equal states yields equal outcomes and equal new
/// states: the result of a line is a function of the line's text and the
/// state's contents alone, so replaying the same lines in the same order on
/// fresh states yields identical outputs.
pub proof fn lemma_state_determinism(a: StateModel, b: StateModel, line: Seq<char>)
    requires
        a == b,
    ensures
        spec_evaluate_line(line, a) == spec_evaluate_line(line, b),
{
}

/// A name bound after a set is bound to what was set.
proof fn lemma_lookup_set(vars: Seq<(Seq<char>, VarModel)>, name: Seq<char>, v: VarModel)
    ensures
        spec_lookup(spec_set(vars, name, v), name) == Some(v),
    decreases vars.len(),
{
    if vars.len() == 0 {
        let r = spec_set(vars, name, v);
        assert(r[0] == (name, v));
    } else if vars[0].0 == name {
        let r = spec_set(vars, name, v);
        assert(r[0] == (name, v));
    } else {
        lemma_lookup_set(vars.subrange(1, vars.len() as int), name, v);
        let r = spec_set(vars, name, v);
        assert(r[0] == vars[0]);
        assert(r.subrange(1, r.len() as int) =~= spec_set(
            vars.subrange(1, vars.len() as int),
            name,
            v,
        ));
    }
}

/// Poisoning: referring to a variable whose definition failed yields a
/// variable error at the reference's own span.
pub proof fn lemma_poisoned_reference(
    st: StateModel,
    name: Seq<char>,
    sp: Span,
    err: ErrorModel,
)
    requires
        spec_lookup(st.variables, name) == Some(VarModel::Error(err)),
    ensures
        spec_evaluate_expr(
            ExpressionV {
                inner: InnerExpressionV::Variable(name),
                span: Some(sp),
                function_name_span: None,
            },
            st,
        ) == Err::<ValueModel, ErrorModel>(
            err_model(
                "Variable Error"@,
                Some("Definition of variable had an error"@),
                Some(sp),
            ),
        ),
{
}

/// Poisoning: a line that assigns a failing expression reports the error and
/// leaves the variable bound to it, so later references keep failing.
pub proof fn lemma_failed_assignment_poisons(
    s: Seq<char>,
    st: StateModel,
    name: Seq<char>,
    pe: crate::parse::ParsedExprV,
    e: ExpressionV,
    er: ErrorModel,
)
    requires
        spec_parse_line(s) == Ok::<ParsedLineV, nat>(ParsedLineV::Variable(name, pe)),
        spec_lower_expr(pe) == Ok::<ExpressionV, ErrorModel>(e),
        spec_evaluate_expr(e, st) == Err::<ValueModel, ErrorModel>(er),
    ensures
        spec_evaluate_line(s, st).0 == Err::<Option<ValueModel>, ErrorModel>(er),
        spec_lookup(spec_evaluate_line(s, st).1.variables, name) == Some(VarModel::Error(er)),
{
    lemma_lookup_set(st.variables, name, VarModel::Error(er));
}

proof fn lemma_scan_ws_all(s: Seq<char>, i: nat)
    requires
        i <= s.len(),
        forall|k: int| 0 <= k < s.len() ==> crate::parse::is_ws(s[k]),
    ensures
        crate::parse::scan_ws(s, i) == s.len(),
    decreases s.len() - i,
{
    if i < s.len() {
        lemma_scan_ws_all(s, i + 1);
    }
}

/// An empty or whitespace-only line yields nothing and leaves the state
/// unchanged.
pub proof fn lemma_blank_line(s: Seq<char>, st: StateModel)
    requires
        s.len() <= 100000000,
        forall|k: int| 0 <= k < s.len() ==> crate::parse::is_ws(s[k]),
    ensures
        spec_evaluate_line(s, st) == (Ok::<Option<ValueModel>, ErrorModel>(None), st),
{
    lemma_scan_ws_all(s, 0);
}

/// A line-comment (`//` after any leading whitespace) yields nothing and
/// leaves the state unchanged.
pub proof fn lemma_comment_line(s: Seq<char>, st: StateModel)
    requires
        s.len() <= 100000000,
        crate::parse::scan_ws(s, 0) + 1 < s.len(),
        s[crate::parse::scan_ws(s, 0) as int] == '/',
        s[crate::parse::scan_ws(s, 0) as int + 1] == '/',
    ensures
        spec_evaluate_line(s, st) == (Ok::<Option<ValueModel>, ErrorModel>(None), st),
{
}

/// Division by a value whose number is exactly zero yields a division error
/// at the node's span.
pub proof fn lemma_division_by_zero(
    e: ExpressionV,
    a: Box<ExpressionV>,
    b: Box<ExpressionV>,
    st: StateModel,
    x: ValueModel,
    y: ValueModel,
)
    requires
        e.inner == InnerExpressionV::Divide(a, b),
        spec_evaluate_expr(*a, st) == Ok::<ValueModel, ErrorModel>(x),
        spec_evaluate_expr(*b, st) == Ok::<ValueModel, ErrorModel>(y),
        model_is_zero(y.number),
    ensures
        spec_evaluate_expr(e, st) == Err::<ValueModel, ErrorModel>(
            err_model("Division Error"@, Some("Division by zero"@), e.span),
        ),
{
}

} // verus!

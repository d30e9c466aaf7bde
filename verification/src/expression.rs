//! The typed expression tree the evaluator walks, and the lowering from
//! parser output to it.
//!
//! Lowering resolves unit names against the catalog and chemistry tags
//! against the periodic table, turns unary minus into multiplication by minus
//! one, postfix `!` into a `factorial` call, postfix `%` into division by one
//! hundred, and keeps a source span on every node.

use vstd::prelude::*;
use crate::chem::{spec_parse_compound, Compound};
use crate::dimension::{spec_quantity_from_text, spec_simplify, DimEntry, Dimension, Quantity, QuantityModel};
use crate::error::{ErrorModel, SiffraExecutionError};
use crate::float::{int_model, parse_model, Float};
use crate::parse::{
    pdim_view, pexpr_view, punit_view, Op, OpPost, ParsedDimension, ParsedDimensionV, ParsedExpr,
    ParsedExprV, ParsedUnit, ParsedUnitV,
};
use crate::span::Span;
use crate::text::string_from;
use crate::value::{Value, ValueModel};

verus! {

broadcast use vstd::std_specs::vec::group_vec_axioms;

/// An expression node: the operation, with an optional source span and, for
/// calls, the span of the function name.
#[derive(Debug)]
pub struct Expression {
    pub inner: InnerExpression,
    pub span: Option<Span>,
    pub function_name_span: Option<Span>,
}

/// The operations of the expression tree.
#[derive(Debug)]
pub enum InnerExpression {
    Constant(Value),
    Convert(Box<Expression>, Dimension),
    Variable(String),
    FunctionCall { name: String, args: Vec<Expression> },
    Multiply(Box<Expression>, Box<Expression>),
    Divide(Box<Expression>, Box<Expression>),
    Add(Box<Expression>, Box<Expression>),
    Subtract(Box<Expression>, Box<Expression>),
    Exponent(Box<Expression>, Box<Expression>),
}

/// The view of an expression node.
pub struct ExpressionV {
    pub inner: InnerExpressionV,
    pub span: Option<Span>,
    pub function_name_span: Option<Span>,
}

/// The view of an operation.
pub enum InnerExpressionV {
    Constant(ValueModel),
    Convert(Box<ExpressionV>, Seq<DimEntry>),
    Variable(Seq<char>),
    FunctionCall { name: Seq<char>, args: Seq<ExpressionV> },
    Multiply(Box<ExpressionV>, Box<ExpressionV>),
    Divide(Box<ExpressionV>, Box<ExpressionV>),
    Add(Box<ExpressionV>, Box<ExpressionV>),
    Subtract(Box<ExpressionV>, Box<ExpressionV>),
    Exponent(Box<ExpressionV>, Box<ExpressionV>),
}

pub open spec fn expr_view(e: Expression) -> ExpressionV
    decreases e,
{
    ExpressionV {
        inner: match e.inner {
            InnerExpression::Constant(v) => InnerExpressionV::Constant(v@),
            InnerExpression::Convert(b, d) => InnerExpressionV::Convert(
                Box::new(expr_view(*b)),
                d@,
            ),
            InnerExpression::Variable(n) => InnerExpressionV::Variable(n@),
            InnerExpression::FunctionCall { name, args } => InnerExpressionV::FunctionCall {
                name: name@,
                args: Seq::new(
                    args@.len(),
                    |i: int|
                        if 0 <= i < args@.len() {
                            expr_view(args[i])
                        } else {
                            vstd::pervasive::arbitrary::<ExpressionV>()
                        },
                ),
            },
            InnerExpression::Multiply(a, b) => InnerExpressionV::Multiply(
                Box::new(expr_view(*a)),
                Box::new(expr_view(*b)),
            ),
            InnerExpression::Divide(a, b) => InnerExpressionV::Divide(
                Box::new(expr_view(*a)),
                Box::new(expr_view(*b)),
            ),
            InnerExpression::Add(a, b) => InnerExpressionV::Add(
                Box::new(expr_view(*a)),
                Box::new(expr_view(*b)),
            ),
            InnerExpression::Subtract(a, b) => InnerExpressionV::Subtract(
                Box::new(expr_view(*a)),
                Box::new(expr_view(*b)),
            ),
            InnerExpression::Exponent(a, b) => InnerExpressionV::Exponent(
                Box::new(expr_view(*a)),
                Box::new(expr_view(*b)),
            ),
        },
        span: e.span,
        function_name_span: e.function_name_span,
    }
}

/// Every constant and conversion target in the tree carries well-formed
/// compound tags.
pub open spec fn spec_expr_wf(e: ExpressionV) -> bool
    decreases e,
{
    match e.inner {
        InnerExpressionV::Constant(v) => crate::dimension::dim_wf(v.dimension),
        InnerExpressionV::Convert(b, d) => spec_expr_wf(*b) && crate::dimension::dim_wf(d),
        InnerExpressionV::Variable(_) => true,
        InnerExpressionV::FunctionCall { name, args } => forall|i: int|
            0 <= i < args.len() ==> spec_expr_wf(#[trigger] args[i]),
        InnerExpressionV::Multiply(a, b) => spec_expr_wf(*a) && spec_expr_wf(*b),
        InnerExpressionV::Divide(a, b) => spec_expr_wf(*a) && spec_expr_wf(*b),
        InnerExpressionV::Add(a, b) => spec_expr_wf(*a) && spec_expr_wf(*b),
        InnerExpressionV::Subtract(a, b) => spec_expr_wf(*a) && spec_expr_wf(*b),
        InnerExpressionV::Exponent(a, b) => spec_expr_wf(*a) && spec_expr_wf(*b),
    }
}

/// All the expressions of a list, viewed.
pub open spec fn exprs_view(v: Seq<Expression>) -> Seq<ExpressionV> {
    Seq::new(
        v.len(),
        |i: int|
            if 0 <= i < v.len() {
                expr_view(v[i])
            } else {
                vstd::pervasive::arbitrary::<ExpressionV>()
            },
    )
}

impl View for Expression {
    type V = ExpressionV;

    open spec fn view(&self) -> ExpressionV {
        expr_view(*self)
    }
}

impl Expression {
    pub fn new(inner: InnerExpression) -> (r: Expression)
        ensures
            r.inner == inner,
            r.span is None,
            r.function_name_span is None,
    {
        Expression { inner, span: None, function_name_span: None }
    }

    pub fn constant(value: Value) -> (r: Expression)
        ensures
            r@.inner == InnerExpressionV::Constant(value@),
            r@.span is None,
            r@.function_name_span is None,
    {
        Expression::new(InnerExpression::Constant(value))
    }

    pub fn convert(expression: Expression, dimension: Dimension) -> (r: Expression)
        ensures
            r@.inner == InnerExpressionV::Convert(Box::new(expression@), dimension@),
            r@.span is None,
            r@.function_name_span is None,
    {
        Expression::new(InnerExpression::Convert(Box::new(expression), dimension))
    }

    pub fn variable(name: String) -> (r: Expression)
        ensures
            r@.inner == InnerExpressionV::Variable(name@),
            r@.span is None,
            r@.function_name_span is None,
    {
        Expression::new(InnerExpression::Variable(name))
    }

    pub fn function_call(name: String, args: Vec<Expression>) -> (r: Expression)
        ensures
            r@.inner == (InnerExpressionV::FunctionCall { name: name@, args: exprs_view(args@) }),
            r@.span is None,
            r@.function_name_span is None,
    {
        let e = Expression::new(InnerExpression::FunctionCall { name, args });
        proof {
            assert(e@.inner->FunctionCall_args =~= exprs_view(
                e.inner->FunctionCall_args@,
            ));
        }
        e
    }

    pub fn multiply(lhs: Expression, rhs: Expression) -> (r: Expression)
        ensures
            r@.inner == InnerExpressionV::Multiply(Box::new(lhs@), Box::new(rhs@)),
            r@.span is None,
            r@.function_name_span is None,
    {
        Expression::new(InnerExpression::Multiply(Box::new(lhs), Box::new(rhs)))
    }

    pub fn divide(lhs: Expression, rhs: Expression) -> (r: Expression)
        ensures
            r@.inner == InnerExpressionV::Divide(Box::new(lhs@), Box::new(rhs@)),
            r@.span is None,
            r@.function_name_span is None,
    {
        Expression::new(InnerExpression::Divide(Box::new(lhs), Box::new(rhs)))
    }

    pub fn add(lhs: Expression, rhs: Expression) -> (r: Expression)
        ensures
            r@.inner == InnerExpressionV::Add(Box::new(lhs@), Box::new(rhs@)),
            r@.span is None,
            r@.function_name_span is None,
    {
        Expression::new(InnerExpression::Add(Box::new(lhs), Box::new(rhs)))
    }

    pub fn subtract(lhs: Expression, rhs: Expression) -> (r: Expression)
        ensures
            r@.inner == InnerExpressionV::Subtract(Box::new(lhs@), Box::new(rhs@)),
            r@.span is None,
            r@.function_name_span is None,
    {
        Expression::new(InnerExpression::Subtract(Box::new(lhs), Box::new(rhs)))
    }

    pub fn exponent(lhs: Expression, rhs: Expression) -> (r: Expression)
        ensures
            r@.inner == InnerExpressionV::Exponent(Box::new(lhs@), Box::new(rhs@)),
            r@.span is None,
            r@.function_name_span is None,
    {
        Expression::new(InnerExpression::Exponent(Box::new(lhs), Box::new(rhs)))
    }

    pub fn with_span(self, span: Span) -> (r: Expression)
        ensures
            r@.inner == self@.inner,
            r@.span == Some(span),
            r@.function_name_span == self@.function_name_span,
    {
        Expression { span: Some(span), ..self }
    }

    pub fn with_function_name_span(self, span: Span) -> (r: Expression)
        ensures
            r@.inner == self@.inner,
            r@.span == self@.span,
            r@.function_name_span == Some(span),
    {
        Expression { function_name_span: Some(span), ..self }
    }

    pub fn span(&self) -> (r: Option<Span>)
        ensures
            r == self@.span,
    {
        self.span
    }

    pub fn function_name_span(&self) -> (r: Option<Span>)
        ensures
            r == self@.function_name_span,
    {
        self.function_name_span
    }

    pub fn inner(&self) -> (r: &InnerExpression)
        ensures
            r == self.inner,
    {
        &self.inner
    }
}

/// An error model from a message, an optional description and span.
pub open spec fn err_model(
    message: Seq<char>,
    description: Option<Seq<char>>,
    span: Option<Span>,
) -> ErrorModel {
    ErrorModel {
        message,
        description,
        span: match span {
            Some(sp) => Some((sp.start, sp.end)),
            None => None,
        },
        location: None,
    }
}

pub fn make_error_pub(message: &str, description: &str, span: Option<Span>) -> (r: SiffraExecutionError)
    ensures
        r@ == err_model(message@, Some(description@), span),
{
    let e = SiffraExecutionError::new(string_from(message)).with_description(
        string_from(description),
    );
    match span {
        Some(sp) => e.with_span(sp.start, sp.end),
        None => e,
    }
}

pub fn make_error_plain_pub(message: &str, span: Option<Span>) -> (r: SiffraExecutionError)
    ensures
        r@ == err_model(message@, None, span),
{
    let e = SiffraExecutionError::new(string_from(message));
    match span {
        Some(sp) => e.with_span(sp.start, sp.end),
        None => e,
    }
}

/// The description of an unknown-unit error.
pub open spec fn unknown_unit_desc(name: Seq<char>) -> Seq<char> {
    "Unit '"@ + name + "' not defined"@
}

fn make_unknown_unit_error(name: &String, span: Span) -> (r: SiffraExecutionError)
    ensures
        r@ == err_model("Unit Error"@, Some(unknown_unit_desc(name@)), Some(span)),
{
    let mut desc = string_from("Unit '");
    desc.append(name.as_str());
    desc.append("' not defined");
    proof {
        assert(desc@ == unknown_unit_desc(name@));
    }
    SiffraExecutionError::new(string_from("Unit Error")).with_description(desc).with_span(
        span.start(),
        span.end(),
    )
}

/// The quantity a unit occurrence names, tagged with its compound: the
/// compound resolves first (a chemical error when it does not parse), then
/// the unit name (a unit error in the numerator, a syntax error in the
/// denominator, mirroring the surface forms).
pub open spec fn spec_lower_unit(u: ParsedUnitV, numerator: bool) -> Result<
    QuantityModel,
    ErrorModel,
> {
    match u.chemical {
        Some(chem) => match spec_parse_compound(chem) {
            None => Err(
                err_model(
                    if numerator {
                        "Chemical Error"@
                    } else {
                        "Syntax Error"@
                    },
                    Some(
                        if numerator {
                            "Error parsing chemical compound"@
                        } else {
                            "Error parsing compound"@
                        },
                    ),
                    Some(u.span),
                ),
            ),
            Some(c) => match spec_quantity_from_text(u.name) {
                None => Err(
                    err_model(
                        if numerator {
                            "Unit Error"@
                        } else {
                            "Syntax Error"@
                        },
                        Some(
                            if numerator {
                                unknown_unit_desc(u.name)
                            } else {
                                "Error parsing quantity"@
                            },
                        ),
                        Some(u.span),
                    ),
                ),
                Some(q) => Ok(
                    match q {
                        QuantityModel::Mass(mu, _) => QuantityModel::Mass(mu, Some(c)),
                        QuantityModel::Amount(au, _) => QuantityModel::Amount(au, Some(c)),
                        other => other,
                    },
                ),
            },
        },
        None => match spec_quantity_from_text(u.name) {
            None => Err(
                err_model(
                    if numerator {
                        "Unit Error"@
                    } else {
                        "Syntax Error"@
                    },
                    Some(
                        if numerator {
                            unknown_unit_desc(u.name)
                        } else {
                            "Error parsing quantity"@
                        },
                    ),
                    Some(u.span),
                ),
            ),
            Some(q) => Ok(q),
        },
    }
}

/// Lowers a unit list to dimension factors, negating powers for the
/// denominator; the reserved names `unitless` and `number` contribute
/// nothing.
pub open spec fn spec_lower_units(
    units: Seq<(ParsedUnitV, i32)>,
    negate: bool,
    numerator: bool,
) -> Result<Seq<DimEntry>, ErrorModel>
    decreases units.len(),
{
    if units.len() == 0 {
        Ok(Seq::empty())
    } else {
        let (u, p) = units[0];
        let rest = units.subrange(1, units.len() as int);
        if u.name == "unitless"@ || u.name == "number"@ {
            spec_lower_units(rest, negate, numerator)
        } else {
            match spec_lower_unit(u, numerator) {
                Err(e) => Err(e),
                Ok(q) => match spec_lower_units(rest, negate, numerator) {
                    Err(e) => Err(e),
                    Ok(tail) => Ok(
                        seq![
                            (
                                q,
                                int_model(
                                    if negate {
                                        -(p as int)
                                    } else {
                                        p as int
                                    },
                                ),
                            ),
                        ] + tail,
                    ),
                },
            }
        }
    }
}

/// What lowering a unit expression yields: the numerator's and denominator's
/// factors, brought to canonical form.
pub open spec fn spec_lower_dimension(d: ParsedDimensionV) -> Result<Seq<DimEntry>, ErrorModel> {
    match spec_lower_units(d.numerator, false, true) {
        Err(e) => Err(e),
        Ok(n) => match spec_lower_units(d.denominator, true, false) {
            Err(e) => Err(e),
            Ok(m) => Ok(spec_simplify(n + m)),
        },
    }
}

fn lower_unit(u: &ParsedUnit, numerator: bool) -> (r: Result<Quantity, SiffraExecutionError>)
    ensures
        r matches Ok(q) ==> spec_lower_unit(punit_view(*u), numerator) == Ok::<
            QuantityModel,
            ErrorModel,
        >(q@) && q.wf(),
        r matches Err(e) ==> spec_lower_unit(punit_view(*u), numerator) == Err::<
            QuantityModel,
            ErrorModel,
        >(e@),
{
    match &u.chemical {
        Some(chem) => {
            match Compound::parse(chem.as_str()) {
                None => Err(
                    if numerator {
                        make_error_pub(
                            "Chemical Error",
                            "Error parsing chemical compound",
                            Some(u.span),
                        )
                    } else {
                        make_error_pub("Syntax Error", "Error parsing compound", Some(u.span))
                    },
                ),
                Some(c) => {
                    match Quantity::from_text(u.name.as_str()) {
                        None => Err(
                            if numerator {
                                make_unknown_unit_error(&u.name, u.span)
                            } else {
                                make_error_pub("Syntax Error", "Error parsing quantity", Some(u.span))
                            },
                        ),
                        Some(q) => Ok(q.with_chemical(c)),
                    }
                },
            }
        },
        None => {
            match Quantity::from_text(u.name.as_str()) {
                None => Err(
                    if numerator {
                        make_unknown_unit_error(&u.name, u.span)
                    } else {
                        make_error_pub("Syntax Error", "Error parsing quantity", Some(u.span))
                    },
                ),
                Some(q) => Ok(q),
            }
        },
    }
}

fn lower_units(
    units: &Vec<(ParsedUnit, i32)>,
    idx: usize,
    negate: bool,
    numerator: bool,
) -> (r: Result<Vec<(Quantity, Float)>, SiffraExecutionError>)
    requires
        idx <= units@.len(),
    ensures
        r matches Ok(v) ==> spec_lower_units(
            crate::parse::punits_view(units@).subrange(idx as int, units@.len() as int),
            negate,
            numerator,
        ) == Ok::<Seq<DimEntry>, ErrorModel>(crate::dimension::entries_view(v@))
            && crate::dimension::dim_wf(crate::dimension::entries_view(v@)),
        r matches Err(e) ==> spec_lower_units(
            crate::parse::punits_view(units@).subrange(idx as int, units@.len() as int),
            negate,
            numerator,
        ) == Err::<Seq<DimEntry>, ErrorModel>(e@),
    decreases units@.len() - idx,
{
    let ghost uv = crate::parse::punits_view(units@);
    let ghost rem = uv.subrange(idx as int, uv.len() as int);
    if idx == units.len() {
        let v: Vec<(Quantity, Float)> = Vec::new();
        proof {
            assert(crate::dimension::entries_view(v@) =~= Seq::<DimEntry>::empty());
        }
        return Ok(v);
    }
    proof {
        assert(rem[0] == uv[idx as int]);
        assert(uv.subrange(idx as int + 1, uv.len() as int) =~= rem.subrange(
            1,
            rem.len() as int,
        ));
    }
    let u = &units[idx].0;
    let p = units[idx].1;
    if crate::text::str_eq(u.name.as_str(), "unitless") || crate::text::str_eq(
        u.name.as_str(),
        "number",
    ) {
        return lower_units(units, idx + 1, negate, numerator);
    }
    match lower_unit(u, numerator) {
        Err(e) => Err(e),
        Ok(q) => {
            match lower_units(units, idx + 1, negate, numerator) {
                Err(e) => Err(e),
                Ok(tail) => {
                    let power: Float = if negate {
                        Float::from_i64(-(p as i64))
                    } else {
                        Float::from_i64(p as i64)
                    };
                    let ghost qv = q@;
                    let ghost pv = power@;
                    let ghost tailv = crate::dimension::entries_view(tail@);
                    let mut v = tail;
                    v.insert(0, (q, power));
                    proof {
                        crate::dimension::lemma_entries_view(v@);
                        crate::dimension::lemma_entries_view(v@.subrange(1, v@.len() as int));
                        assert(crate::dimension::entries_view(v@) =~= seq![(qv, pv)] + tailv);
                    }
                    Ok(v)
                },
            }
        },
    }
}

/// Lowers a parsed unit expression to a dimension.
pub fn lower_dimension(d: ParsedDimension) -> (r: Result<Dimension, SiffraExecutionError>)
    ensures
        r matches Ok(dim) ==> spec_lower_dimension(pdim_view(d)) == Ok::<
            Seq<DimEntry>,
            ErrorModel,
        >(dim@) && dim.wf(),
        r matches Err(e) ==> spec_lower_dimension(pdim_view(d)) == Err::<
            Seq<DimEntry>,
            ErrorModel,
        >(e@),
{
    proof {
        assert(crate::parse::punits_view(d.numerator@).subrange(
            0,
            d.numerator@.len() as int,
        ) =~= crate::parse::punits_view(d.numerator@));
        assert(crate::parse::punits_view(d.denominator@).subrange(
            0,
            d.denominator@.len() as int,
        ) =~= crate::parse::punits_view(d.denominator@));
    }
    let num = match lower_units(&d.numerator, 0, false, true) {
        Err(e) => {
            return Err(e);
        },
        Ok(v) => v,
    };
    let den = match lower_units(&d.denominator, 0, true, false) {
        Err(e) => {
            return Err(e);
        },
        Ok(v) => v,
    };
    let ghost numv = crate::dimension::entries_view(num@);
    let ghost denv = crate::dimension::entries_view(den@);
    let mut all = num;
    let mut k: usize = 0;
    proof {
        assert(crate::dimension::entries_view(all@) =~= numv + denv.subrange(0, 0));
    }
    while k < den.len()
        invariant
            k <= den@.len(),
            denv == crate::dimension::entries_view(den@),
            crate::dimension::entries_view(all@) == numv + denv.subrange(0, k as int),
            crate::dimension::dim_wf(numv),
            crate::dimension::dim_wf(denv),
        decreases den@.len() - k,
    {
        proof {
            crate::dimension::lemma_entries_view(den@);
            crate::dimension::lemma_entries_view(all@);
        }
        let q = den[k].0.clone();
        let p = den[k].1.clone();
        let ghost qv = q@;
        let ghost pv = p@;
        let ghost av0 = all@;
        proof {
            assert((qv, pv) == denv[k as int]);
            assert(crate::dimension::entries_view(av0) == numv + denv.subrange(0, k as int));
        }
        all.push((q, p));
        proof {
            crate::dimension::lemma_entries_view(all@);
            crate::dimension::lemma_entries_view(av0);
            assert(crate::dimension::entries_view(all@) =~= crate::dimension::entries_view(
                av0,
            ).push((qv, pv)));
            assert(crate::dimension::entries_view(all@) =~= numv + denv.subrange(
                0,
                k as int + 1,
            ));
        }
        k = k + 1;
    }
    proof {
        assert(denv.subrange(0, denv.len() as int) =~= denv);
    }
    let dim = Dimension::new(all);
    Ok(dim)
}

/// What lowering a parsed expression yields: spans kept on every node, unary
/// minus as multiplication by minus one, `!` as a `factorial` call, `%` as
/// division by one hundred, `as` as a conversion node; synthetic constants
/// carry the span of the surface operator.
pub open spec fn spec_lower_expr(e: ParsedExprV) -> Result<ExpressionV, ErrorModel>
    decreases e, 1int,
{
    match e {
        ParsedExprV::Number { value, units, span } => {
            let dres: Result<Seq<DimEntry>, ErrorModel> = match units {
                Some(d) => spec_lower_dimension(d),
                None => Ok(Seq::empty()),
            };
            match dres {
                Err(er) => Err(er),
                Ok(dim) => if parse_model(value) is Nan {
                    Err(err_model("Error parsing number"@, None, Some(span)))
                } else {
                    Ok(
                        ExpressionV {
                            inner: InnerExpressionV::Constant(
                                ValueModel { number: parse_model(value), dimension: dim },
                            ),
                            span: Some(span),
                            function_name_span: None,
                        },
                    )
                },
            }
        },
        ParsedExprV::Variable { name, span } => Ok(
            ExpressionV {
                inner: InnerExpressionV::Variable(name),
                span: Some(span),
                function_name_span: None,
            },
        ),
        ParsedExprV::FunctionCall { name, args, base, span, function_span } => {
            let bres: Result<Seq<ExpressionV>, ErrorModel> = match base {
                Some(b) => match spec_lower_expr(*b) {
                    Err(er) => Err(er),
                    Ok(x) => Ok(seq![x]),
                },
                None => Ok(Seq::empty()),
            };
            match bres {
                Err(er) => Err(er),
                Ok(init) => match spec_lower_args(args, init) {
                    Err(er) => Err(er),
                    Ok(exprs) => Ok(
                        ExpressionV {
                            inner: InnerExpressionV::FunctionCall { name, args: exprs },
                            span: Some(span),
                            function_name_span: Some(function_span),
                        },
                    ),
                },
            }
        },
        ParsedExprV::UnOpPre { op, rhs, span } => match spec_lower_expr(*rhs) {
            Err(er) => Err(er),
            Ok(r) => Ok(
                ExpressionV {
                    inner: InnerExpressionV::Multiply(
                        Box::new(r),
                        Box::new(
                            ExpressionV {
                                inner: InnerExpressionV::Constant(
                                    ValueModel {
                                        number: int_model(-1),
                                        dimension: Seq::empty(),
                                    },
                                ),
                                span: Some(span),
                                function_name_span: None,
                            },
                        ),
                    ),
                    span: Some(span),
                    function_name_span: None,
                },
            ),
        },
        ParsedExprV::UnOpPost { lhs, op, span } => match spec_lower_expr(*lhs) {
            Err(er) => Err(er),
            Ok(l) => match op {
                crate::parse::OpPostV::Factorial => Ok(
                    ExpressionV {
                        inner: InnerExpressionV::FunctionCall {
                            name: "factorial"@,
                            args: seq![l],
                        },
                        span: Some(span),
                        function_name_span: None,
                    },
                ),
                crate::parse::OpPostV::Percent => Ok(
                    ExpressionV {
                        inner: InnerExpressionV::Divide(
                            Box::new(l),
                            Box::new(
                                ExpressionV {
                                    inner: InnerExpressionV::Constant(
                                        ValueModel {
                                            number: int_model(100),
                                            dimension: Seq::empty(),
                                        },
                                    ),
                                    span: Some(span),
                                    function_name_span: None,
                                },
                            ),
                        ),
                        span: Some(span),
                        function_name_span: None,
                    },
                ),
                crate::parse::OpPostV::Convert(d) => match spec_lower_dimension(d) {
                    Err(er) => Err(er),
                    Ok(dim) => Ok(
                        ExpressionV {
                            inner: InnerExpressionV::Convert(Box::new(l), dim),
                            span: Some(span),
                            function_name_span: None,
                        },
                    ),
                },
            },
        },
        ParsedExprV::BinOp { lhs, op, rhs, span } => match spec_lower_expr(*lhs) {
            Err(er) => Err(er),
            Ok(l) => match spec_lower_expr(*rhs) {
                Err(er) => Err(er),
                Ok(r) => Ok(
                    ExpressionV {
                        inner: match op {
                            Op::Add => InnerExpressionV::Add(Box::new(l), Box::new(r)),
                            Op::Subtract => InnerExpressionV::Subtract(
                                Box::new(l),
                                Box::new(r),
                            ),
                            Op::Multiply => InnerExpressionV::Multiply(
                                Box::new(l),
                                Box::new(r),
                            ),
                            Op::Divide => InnerExpressionV::Divide(Box::new(l), Box::new(r)),
                            Op::Exponent => InnerExpressionV::Exponent(
                                Box::new(l),
                                Box::new(r),
                            ),
                        },
                        span: Some(span),
                        function_name_span: None,
                    },
                ),
            },
        },
    }
}

/// Lowers a call's arguments in order, stopping at the first error.
pub open spec fn spec_lower_args(args: Seq<ParsedExprV>, acc: Seq<ExpressionV>) -> Result<
    Seq<ExpressionV>,
    ErrorModel,
>
    decreases args, 0int,
{
    if args.len() == 0 {
        Ok(acc)
    } else {
        match spec_lower_expr(args[0]) {
            Err(er) => Err(er),
            Ok(x) => spec_lower_args(args.subrange(1, args.len() as int), acc.push(x)),
        }
    }
}

impl Expression {
    /// Lowers a parsed expression into the evaluator's tree.
    #[verifier::rlimit(100)]
    pub fn try_from(value: ParsedExpr) -> (r: Result<Expression, SiffraExecutionError>)
        ensures
            r matches Ok(e) ==> spec_lower_expr(pexpr_view(value)) == Ok::<
                ExpressionV,
                ErrorModel,
            >(e@) && spec_expr_wf(e@),
            r matches Err(er) ==> spec_lower_expr(pexpr_view(value)) == Err::<
                ExpressionV,
                ErrorModel,
            >(er@),
        decreases value, 1int,
    {
        let ghost valv = pexpr_view(value);
        match value {
            ParsedExpr::Number { value: num, units, span } => {
                let dim: Option<Dimension> = match units {
                    Some(d) => {
                        match lower_dimension(d) {
                            Err(e) => {
                                return Err(e);
                            },
                            Ok(dd) => Some(dd),
                        }
                    },
                    None => None,
                };
                match Float::parse(num.as_str()) {
                    None => Err(make_error_plain_pub("Error parsing number", Some(span))),
                    Some(f) => {
                        let node = Expression::constant(Value::new(f, dim)).with_span(span);
                        proof {
                            assert(spec_expr_wf(node@));
                        }
                        Ok(node)
                    },
                }
            },
            ParsedExpr::Variable { name, span } => {
                let node = Expression::variable(name).with_span(span);
                proof {
                    assert(spec_expr_wf(node@));
                }
                Ok(node)
            },
            ParsedExpr::FunctionCall { name, args, base, span, function_span } => {
                let mut exprs: Vec<Expression> = Vec::new();
                match base {
                    Some(b) => {
                        match Expression::try_from(*b) {
                            Err(e) => {
                                return Err(e);
                            },
                            Ok(x) => {
                                let ghost xv = x@;
                                exprs.push(x);
                                proof {
                                    assert(exprs_view(exprs@) =~= seq![xv]);
                                }
                            },
                        }
                    },
                    None => {
                        proof {
                            assert(exprs_view(exprs@) =~= Seq::<ExpressionV>::empty());
                        }
                    },
                }
                proof {
                    assert(valv->FunctionCall_args =~= crate::parse::pexprs_view(args@));
                    assert(forall|i: int|
                        0 <= i < exprs@.len() ==> spec_expr_wf(
                            #[trigger] exprs_view(exprs@)[i],
                        ));
                }
                match Expression::lower_args(args, exprs) {
                    Err(e) => Err(e),
                    Ok(full) => {
                        let node = Expression::function_call(name, full).with_span(
                            span,
                        ).with_function_name_span(function_span);
                        proof {
                            assert(node@.inner->FunctionCall_args == exprs_view(full@));
                            assert(spec_expr_wf(node@));
                        }
                        Ok(node)
                    },
                }
            },
            ParsedExpr::UnOpPre { op, rhs, span } => {
                match Expression::try_from(*rhs) {
                    Err(e) => Err(e),
                    Ok(r) => {
                        let minus_one = Expression::constant(
                            Value::new(Float::from_i64(-1), None),
                        ).with_span(span);
                        let ghost mv = minus_one@;
                        let node = Expression::multiply(r, minus_one).with_span(span);
                        proof {
                            assert(spec_expr_wf(mv));
                            assert(spec_expr_wf(node@));
                        }
                        Ok(node)
                    },
                }
            },
            ParsedExpr::UnOpPost { lhs, op, span } => {
                match Expression::try_from(*lhs) {
                    Err(e) => Err(e),
                    Ok(l) => {
                        match op {
                            OpPost::Factorial => {
                                let ghost lv = l@;
                                let mut args: Vec<Expression> = Vec::new();
                                args.push(l);
                                proof {
                                    assert(exprs_view(args@) =~= seq![lv]);
                                }
                                let node = Expression::function_call(
                                    string_from("factorial"),
                                    args,
                                ).with_span(span);
                                proof {
                                    assert(forall|i: int|
                                        0 <= i < args@.len() ==> spec_expr_wf(
                                            #[trigger] exprs_view(args@)[i],
                                        ));
                                    assert(spec_expr_wf(node@));
                                }
                                Ok(node)
                            },
                            OpPost::Percent => {
                                let hundred = Expression::constant(
                                    Value::new(Float::from_i64(100), None),
                                ).with_span(span);
                                let ghost hv = hundred@;
                                let node = Expression::divide(l, hundred).with_span(span);
                                proof {
                                    assert(spec_expr_wf(hv));
                                    assert(spec_expr_wf(node@));
                                }
                                Ok(node)
                            },
                            OpPost::Convert(d) => {
                                match lower_dimension(d) {
                                    Err(e) => Err(e),
                                    Ok(dim) => {
                                        let node = Expression::convert(l, dim).with_span(span);
                                        proof {
                                            assert(spec_expr_wf(node@));
                                        }
                                        Ok(node)
                                    },
                                }
                            },
                        }
                    },
                }
            },
            ParsedExpr::BinOp { lhs, op, rhs, span } => {
                let l = match Expression::try_from(*lhs) {
                    Err(e) => {
                        return Err(e);
                    },
                    Ok(x) => x,
                };
                let r = match Expression::try_from(*rhs) {
                    Err(e) => {
                        return Err(e);
                    },
                    Ok(x) => x,
                };
                let ghost lv = l@;
                let ghost rv = r@;
                let node = match op {
                    Op::Add => Expression::add(l, r).with_span(span),
                    Op::Subtract => Expression::subtract(l, r).with_span(span),
                    Op::Multiply => Expression::multiply(l, r).with_span(span),
                    Op::Divide => Expression::divide(l, r).with_span(span),
                    Op::Exponent => Expression::exponent(l, r).with_span(span),
                };
                proof {
                    assert(spec_lower_expr(pexpr_view(value)) == Ok::<
                        ExpressionV,
                        ErrorModel,
                    >(node@));
                    assert(spec_expr_wf(node@));
                }
                Ok(node)
            },
        }
    }

    #[verifier::loop_isolation(false)]
    fn lower_args(args: Vec<ParsedExpr>, acc: Vec<Expression>) -> (r: Result<
        Vec<Expression>,
        SiffraExecutionError,
    >)
        ensures
            r matches Ok(v) ==> spec_lower_args(
                crate::parse::pexprs_view(args@),
                exprs_view(acc@),
            ) == Ok::<Seq<ExpressionV>, ErrorModel>(exprs_view(v@)),
            (forall|i: int|
                0 <= i < acc@.len() ==> spec_expr_wf(#[trigger] exprs_view(acc@)[i])) ==> (r
                matches Ok(v) ==> (forall|i: int|
                0 <= i < v@.len() ==> spec_expr_wf(#[trigger] exprs_view(v@)[i]))),
            r matches Err(er) ==> spec_lower_args(
                crate::parse::pexprs_view(args@),
                exprs_view(acc@),
            ) == Err::<Seq<ExpressionV>, ErrorModel>(er@),
        decreases args, 0int,
    {
        let ghost args0 = args;
        let ghost argsv = crate::parse::pexprs_view(args@);
        let ghost accv = exprs_view(acc@);
        let mut rem = args;
        let mut out = acc;
        let ghost idx: int = 0;
        while rem.len() > 0
            invariant
                0 <= idx <= argsv.len(),
                argsv == crate::parse::pexprs_view(args0@),
                rem@ =~= args0@.subrange(idx, args0@.len() as int),
                spec_lower_args(
                    crate::parse::pexprs_view(rem@),
                    exprs_view(out@),
                ) == spec_lower_args(argsv, accv),
                (forall|i: int|
                    0 <= i < acc@.len() ==> spec_expr_wf(#[trigger] exprs_view(acc@)[i]))
                    ==> (forall|i: int|
                    0 <= i < out@.len() ==> spec_expr_wf(#[trigger] exprs_view(out@)[i])),
            decreases rem@.len(),
        {
            let ghost remv = crate::parse::pexprs_view(rem@);
            let ghost outv = exprs_view(out@);
            let first = rem.remove(0);
            proof {
                assert(first == args0@[idx]);
                assert(decreases_to!(args0 => args0[idx]));
                assert(decreases_to!(args0 => first));
                assert(crate::parse::pexprs_view(rem@) =~= remv.subrange(
                    1,
                    remv.len() as int,
                ));
                assert(pexpr_view(first) == remv[0]);
            }
            match Expression::try_from(first) {
                Err(e) => {
                    return Err(e);
                },
                Ok(x) => {
                    let ghost xv = x@;
                    out.push(x);
                    proof {
                        assert(exprs_view(out@) =~= outv.push(xv));
                        assert(rem@ =~= args0@.subrange(idx + 1, args0@.len() as int));
                    }
                },
            }
            proof {
                idx = idx + 1;
            }
        }
        proof {
            assert(crate::parse::pexprs_view(rem@) =~= Seq::<ParsedExprV>::empty());
        }
        Ok(out)
    }
}

} // verus!

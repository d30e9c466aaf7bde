//! The line parser: one line of surface text becomes a comment, a variable
//! assignment, or an expression tree, with source spans on every node.
//!
//! Expressions are parsed by precedence climbing: addition and subtraction
//! bind loosest; multiplication, division, unary minus and the postfix `as
//! UNIT` and `%` forms sit above them; exponentiation binds tighter still and
//! to the right; postfix `!` binds tightest. Primaries are numbers (with an
//! optional unit expression, which may carry a chemistry tag in braces),
//! variables, function calls in grouped, explicit-base and ungrouped forms,
//! and parenthesised groups, which may chain as products (`5(x)(y)`).

use vstd::prelude::*;
use vstd::string::StrSliceExecFns;
use crate::span::Span;
use crate::text::{
    char_is_digit, char_is_lower, char_is_upper, clamped_digits_val, is_digit, is_lower, is_upper,
    read_digits, scan_digits, skip_digits, string_from, to_char_vec,
};

verus! {

/// A unit occurrence in the source: its name, an optional chemistry tag, and
/// where it stood.
#[derive(Debug, Clone, PartialEq)]
pub struct ParsedUnit {
    pub name: String,
    pub chemical: Option<String>,
    pub span: Span,
}

/// A unit expression: numerator and denominator unit lists with powers.
#[derive(Debug, Clone, PartialEq)]
pub struct ParsedDimension {
    pub numerator: Vec<(ParsedUnit, i32)>,
    pub denominator: Vec<(ParsedUnit, i32)>,
    pub span: Span,
}

/// Prefix operators.
#[derive(Debug, Clone, Copy, PartialEq, Eq, Structural)]
pub enum OpPre {
    Negate,
}

/// Postfix operators.
#[derive(Debug, PartialEq)]
pub enum OpPost {
    Factorial,
    Percent,
    Convert(ParsedDimension),
}

/// Infix operators.
#[derive(Debug, Clone, Copy, PartialEq, Eq, Structural)]
pub enum Op {
    Add,
    Subtract,
    Multiply,
    Divide,
    Exponent,
}

/// A parsed expression with source spans.
#[derive(Debug, PartialEq)]
pub enum ParsedExpr {
    Number { value: String, units: Option<ParsedDimension>, span: Span },
    Variable { name: String, span: Span },
    FunctionCall {
        name: String,
        args: Vec<ParsedExpr>,
        base: Option<Box<ParsedExpr>>,
        span: Span,
        function_span: Span,
    },
    UnOpPre { op: OpPre, rhs: Box<ParsedExpr>, span: Span },
    UnOpPost { lhs: Box<ParsedExpr>, op: OpPost, span: Span },
    BinOp { lhs: Box<ParsedExpr>, op: Op, rhs: Box<ParsedExpr>, span: Span },
}

/// A parsed line: a comment, a bare expression, or a variable assignment.
#[derive(Debug, PartialEq)]
pub enum ParsedLine {
    Comment,
    Expression(ParsedExpr),
    Variable(String, ParsedExpr),
}

/// The view of a unit occurrence.
pub struct ParsedUnitV {
    pub name: Seq<char>,
    pub chemical: Option<Seq<char>>,
    pub span: Span,
}

/// The view of a unit expression.
pub struct ParsedDimensionV {
    pub numerator: Seq<(ParsedUnitV, i32)>,
    pub denominator: Seq<(ParsedUnitV, i32)>,
    pub span: Span,
}

/// The view of a postfix operator.
pub enum OpPostV {
    Factorial,
    Percent,
    Convert(ParsedDimensionV),
}

/// The view of a parsed expression.
pub enum ParsedExprV {
    Number { value: Seq<char>, units: Option<ParsedDimensionV>, span: Span },
    Variable { name: Seq<char>, span: Span },
    FunctionCall {
        name: Seq<char>,
        args: Seq<ParsedExprV>,
        base: Option<Box<ParsedExprV>>,
        span: Span,
        function_span: Span,
    },
    UnOpPre { op: OpPre, rhs: Box<ParsedExprV>, span: Span },
    UnOpPost { lhs: Box<ParsedExprV>, op: OpPostV, span: Span },
    BinOp { lhs: Box<ParsedExprV>, op: Op, rhs: Box<ParsedExprV>, span: Span },
}

/// The view of a parsed line.
pub enum ParsedLineV {
    Comment,
    Expression(ParsedExprV),
    Variable(Seq<char>, ParsedExprV),
}

pub open spec fn punit_view(u: ParsedUnit) -> ParsedUnitV {
    ParsedUnitV {
        name: u.name@,
        chemical: match u.chemical {
            Some(c) => Some(c@),
            None => None,
        },
        span: u.span,
    }
}

pub open spec fn punits_view(v: Seq<(ParsedUnit, i32)>) -> Seq<(ParsedUnitV, i32)> {
    v.map_values(|p: (ParsedUnit, i32)| (punit_view(p.0), p.1))
}

pub open spec fn pdim_view(d: ParsedDimension) -> ParsedDimensionV {
    ParsedDimensionV {
        numerator: punits_view(d.numerator@),
        denominator: punits_view(d.denominator@),
        span: d.span,
    }
}

pub open spec fn ppost_view(p: OpPost) -> OpPostV {
    match p {
        OpPost::Factorial => OpPostV::Factorial,
        OpPost::Percent => OpPostV::Percent,
        OpPost::Convert(d) => OpPostV::Convert(pdim_view(d)),
    }
}

pub open spec fn pexpr_view(e: ParsedExpr) -> ParsedExprV
    decreases e,
{
    match e {
        ParsedExpr::Number { value, units, span } => ParsedExprV::Number {
            value: value@,
            units: match units {
                Some(d) => Some(pdim_view(d)),
                None => None,
            },
            span,
        },
        ParsedExpr::Variable { name, span } => ParsedExprV::Variable { name: name@, span },
        ParsedExpr::FunctionCall { name, args, base, span, function_span } => {
            ParsedExprV::FunctionCall {
                name: name@,
                args: Seq::new(
                    args@.len(),
                    |i: int|
                        if 0 <= i < args@.len() {
                            pexpr_view(args[i])
                        } else {
                            vstd::pervasive::arbitrary::<ParsedExprV>()
                        },
                ),
                base: match base {
                    Some(b) => Some(Box::new(pexpr_view(*b))),
                    None => None,
                },
                span,
                function_span,
            }
        },
        ParsedExpr::UnOpPre { op, rhs, span } => ParsedExprV::UnOpPre {
            op,
            rhs: Box::new(pexpr_view(*rhs)),
            span,
        },
        ParsedExpr::UnOpPost { lhs, op, span } => ParsedExprV::UnOpPost {
            lhs: Box::new(pexpr_view(*lhs)),
            op: ppost_view(op),
            span,
        },
        ParsedExpr::BinOp { lhs, op, rhs, span } => ParsedExprV::BinOp {
            lhs: Box::new(pexpr_view(*lhs)),
            op,
            rhs: Box::new(pexpr_view(*rhs)),
            span,
        },
    }
}

pub open spec fn pline_view(l: ParsedLine) -> ParsedLineV {
    match l {
        ParsedLine::Comment => ParsedLineV::Comment,
        ParsedLine::Expression(e) => ParsedLineV::Expression(pexpr_view(e)),
        ParsedLine::Variable(n, e) => ParsedLineV::Variable(n@, pexpr_view(e)),
    }
}

/// The span of the characters `[start, end)`.
pub open spec fn mk_span(start: nat, end: nat) -> Span {
    Span { start: start as usize, end: end as usize }
}

/// Whitespace the parser skips between tokens.
pub open spec fn is_ws(c: char) -> bool {
    c == ' ' || c == '\t' || c == '\r' || c == '\n'
}

/// The first position at or after `i` that is not whitespace.
pub open spec fn scan_ws(s: Seq<char>, i: nat) -> nat
    decreases s.len() - i,
{
    if i >= s.len() {
        s.len()
    } else if is_ws(s[i as int]) {
        scan_ws(s, i + 1)
    } else {
        i
    }
}

proof fn lemma_scan_ws(s: Seq<char>, i: nat)
    requires
        i <= s.len(),
    ensures
        i <= scan_ws(s, i) <= s.len(),
    decreases s.len() - i,
{
    if i < s.len() && is_ws(s[i as int]) {
        lemma_scan_ws(s, i + 1);
    }
}

fn skip_ws(chars: &Vec<char>, i: usize) -> (j: usize)
    requires
        i <= chars@.len(),
    ensures
        j == scan_ws(chars@, i as nat),
        i <= j <= chars@.len(),
        j < chars@.len() ==> !is_ws(chars@[j as int]),
{
    let mut j = i;
    while j < chars.len() && (chars[j] == ' ' || chars[j] == '\t' || chars[j] == '\r' || chars[j]
        == '\n')
        invariant
            i <= j <= chars@.len(),
            scan_ws(chars@, j as nat) == scan_ws(chars@, i as nat),
        decreases chars@.len() - j,
    {
        j = j + 1;
    }
    proof {
        lemma_scan_ws(chars@, i as nat);
        lemma_scan_ws(chars@, j as nat);
    }
    j
}

/// True of ASCII letters, the characters identifiers and unit names hold.
pub open spec fn is_letter(c: char) -> bool {
    is_lower(c) || is_upper(c)
}

/// The first position at or after `i` that is not an ASCII letter.
pub open spec fn scan_letters(s: Seq<char>, i: nat) -> nat
    decreases s.len() - i,
{
    if i >= s.len() {
        s.len()
    } else if is_letter(s[i as int]) {
        scan_letters(s, i + 1)
    } else {
        i
    }
}

proof fn lemma_scan_letters(s: Seq<char>, i: nat)
    requires
        i <= s.len(),
    ensures
        i <= scan_letters(s, i) <= s.len(),
    decreases s.len() - i,
{
    if i < s.len() && is_letter(s[i as int]) {
        lemma_scan_letters(s, i + 1);
    }
}

fn skip_letters(chars: &Vec<char>, i: usize) -> (j: usize)
    requires
        i <= chars@.len(),
    ensures
        j == scan_letters(chars@, i as nat),
        i <= j <= chars@.len(),
        j < chars@.len() ==> !is_letter(chars@[j as int]),
{
    let mut j = i;
    while j < chars.len() && (char_is_lower(chars[j]) || char_is_upper(chars[j]))
        invariant
            i <= j <= chars@.len(),
            scan_letters(chars@, j as nat) == scan_letters(chars@, i as nat),
        decreases chars@.len() - j,
    {
        j = j + 1;
    }
    proof {
        lemma_scan_letters(chars@, i as nat);
        lemma_scan_letters(chars@, j as nat);
    }
    j
}

/// Where a number starting at `i` ends: digits, an optional fraction, and an
/// optional exponent (kept only when its digits follow).
pub open spec fn scan_number(s: Seq<char>, i: nat) -> Option<nat> {
    let j = scan_digits(s, i);
    if j == i {
        None
    } else {
        let k = if j < s.len() && s[j as int] == '.' {
            scan_digits(s, j + 1)
        } else {
            j
        };
        let e = if k < s.len() && (s[k as int] == 'e' || s[k as int] == 'E') {
            let m = if k + 1 < s.len() && (s[k as int + 1] == '+' || s[k as int + 1] == '-') {
                k + 2
            } else {
                k + 1
            };
            if m <= s.len() && scan_digits(s, m) > m {
                scan_digits(s, m)
            } else {
                k
            }
        } else {
            k
        };
        Some(e)
    }
}

fn take_number(chars: &Vec<char>, i: usize) -> (r: Option<usize>)
    requires
        i <= chars@.len(),
    ensures
        r matches Some(j) ==> scan_number(chars@, i as nat) == Some(j as nat) && i < j
            <= chars@.len(),
        r is None <==> scan_number(chars@, i as nat) is None,
{
    let j = skip_digits(chars, i);
    if j == i {
        return None;
    }
    let k = if j < chars.len() && chars[j] == '.' {
        skip_digits(chars, j + 1)
    } else {
        j
    };
    let e = if k < chars.len() && (chars[k] == 'e' || chars[k] == 'E') {
        let m = if k + 1 < chars.len() && (chars[k + 1] == '+' || chars[k + 1] == '-') {
            k + 2
        } else {
            k + 1
        };
        let d = skip_digits(chars, m);
        if d > m {
            d
        } else {
            k
        }
    } else {
        k
    };
    Some(e)
}

/// Where the chemistry tag's closing brace stands, if any.
pub open spec fn scan_to_close(s: Seq<char>, i: nat) -> nat
    decreases s.len() - i,
{
    if i >= s.len() {
        s.len()
    } else if s[i as int] == '}' {
        i
    } else {
        scan_to_close(s, i + 1)
    }
}

proof fn lemma_scan_to_close(s: Seq<char>, i: nat)
    requires
        i <= s.len(),
    ensures
        i <= scan_to_close(s, i) <= s.len(),
    decreases s.len() - i,
{
    if i < s.len() && s[i as int] != '}' {
        lemma_scan_to_close(s, i + 1);
    }
}

fn skip_to_close(chars: &Vec<char>, i: usize) -> (j: usize)
    requires
        i <= chars@.len(),
    ensures
        j == scan_to_close(chars@, i as nat),
        i <= j <= chars@.len(),
{
    let mut j = i;
    while j < chars.len() && chars[j] != '}'
        invariant
            i <= j <= chars@.len(),
            scan_to_close(chars@, j as nat) == scan_to_close(chars@, i as nat),
        decreases chars@.len() - j,
    {
        j = j + 1;
    }
    proof {
        lemma_scan_to_close(chars@, i as nat);
        lemma_scan_to_close(chars@, j as nat);
    }
    j
}

/// A power read from digits, clamped into a signed 32-bit value.
pub open spec fn clamp_power(digits: Seq<char>, negative: bool) -> i32 {
    let v = clamped_digits_val(digits);
    let m: i32 = if v > 0x7FFF_FFFF {
        0x7FFF_FFFF
    } else {
        v as i32
    };
    if negative {
        (-(m as int)) as i32
    } else {
        m
    }
}

/// One unit atom: a unit name (letters, but not the keyword `as`), an
/// optional chemistry tag in braces, and an optional `^` power. Yields the
/// unit, its power and the position after it.
pub open spec fn spec_unit_atom(s: Seq<char>, i: nat) -> Option<(ParsedUnitV, i32, nat)> {
    let j = scan_letters(s, i);
    if j == i || (j - i == 2 && s[i as int] == 'a' && s[i as int + 1] == 's') {
        None
    } else {
        let name = s.subrange(i as int, j as int);
        if j < s.len() && s[j as int] == '{' {
            let c = scan_to_close(s, j + 1);
            if c >= s.len() {
                None
            } else {
                let chem = s.subrange(j as int + 1, c as int);
                let unit = ParsedUnitV {
                    name: name,
                    chemical: Some(chem),
                    span: mk_span(i, c + 1),
                };
                spec_unit_power(s, c + 1, unit)
            }
        } else {
            let unit = ParsedUnitV { name: name, chemical: None, span: mk_span(i, j) };
            spec_unit_power(s, j, unit)
        }
    }
}

/// The optional `^` power after a unit, one by default.
pub open spec fn spec_unit_power(s: Seq<char>, i: nat, unit: ParsedUnitV) -> Option<
    (ParsedUnitV, i32, nat),
> {
    if i < s.len() && s[i as int] == '^' {
        let (negative, d0) = if i + 1 < s.len() && s[i as int + 1] == '-' {
            (true, i + 2)
        } else {
            (false, i + 1)
        };
        let d1 = scan_digits(s, d0);
        if d1 == d0 {
            None
        } else {
            Some((unit, clamp_power(s.subrange(d0 as int, d1 as int), negative), d1))
        }
    } else {
        Some((unit, 1, i))
    }
}

/// A `*`-joined group of unit atoms; the literal `1` stands for the empty
/// group. Each further atom is taken only when a `*` (with optional spaces)
/// and a valid atom follow.
pub open spec fn spec_unit_group(s: Seq<char>, i: nat, fuel: nat) -> Option<
    (Seq<(ParsedUnitV, i32)>, nat),
>
    decreases fuel,
{
    if fuel == 0 {
        None
    } else if i < s.len() && s[i as int] == '1' && !(i + 1 < s.len() && (is_digit(
        s[i as int + 1],
    ) || is_letter(s[i as int + 1]) || s[i as int + 1] == '.')) {
        Some((Seq::empty(), i + 1))
    } else {
        match spec_unit_atom(s, i) {
            None => None,
            Some((u, p, j)) => spec_unit_group_more(s, j, seq![(u, p)], (fuel - 1) as nat),
        }
    }
}

/// The continuation of a unit group after its first atom.
pub open spec fn spec_unit_group_more(
    s: Seq<char>,
    i: nat,
    acc: Seq<(ParsedUnitV, i32)>,
    fuel: nat,
) -> Option<(Seq<(ParsedUnitV, i32)>, nat)>
    decreases fuel,
{
    if fuel == 0 {
        None
    } else {
        let w = scan_ws(s, i);
        if w < s.len() && s[w as int] == '*' {
            let w2 = scan_ws(s, w + 1);
            match spec_unit_atom(s, w2) {
                None => Some((acc, i)),
                Some((u, p, j)) => spec_unit_group_more(s, j, acc.push((u, p)), (fuel - 1) as nat),
            }
        } else {
            Some((acc, i))
        }
    }
}

/// A whole unit expression: a numerator group and an optional `/` denominator
/// group. Fails when neither side names a unit.
pub open spec fn spec_units_expr(s: Seq<char>, i: nat, fuel: nat) -> Option<
    (ParsedDimensionV, nat),
> {
    match spec_unit_group(s, i, fuel) {
        None => None,
        Some((num, j)) => {
            let w = scan_ws(s, j);
            if w < s.len() && s[w as int] == '/' {
                let w2 = scan_ws(s, w + 1);
                match spec_unit_group(s, w2, fuel) {
                    None => if num.len() == 0 {
                        None
                    } else {
                        Some(
                            (
                                ParsedDimensionV {
                                    numerator: num,
                                    denominator: Seq::empty(),
                                    span: mk_span(i, j),
                                },
                                j,
                            ),
                        )
                    },
                    Some((den, k)) => Some(
                        (
                            ParsedDimensionV {
                                numerator: num,
                                denominator: den,
                                span: mk_span(i, k),
                            },
                            k,
                        ),
                    ),
                }
            } else if num.len() == 0 {
                None
            } else {
                Some(
                    (
                        ParsedDimensionV {
                            numerator: num,
                            denominator: Seq::empty(),
                            span: mk_span(i, j),
                        },
                        j,
                    ),
                )
            }
        },
    }
}

/// All the expressions of a list, viewed.
pub open spec fn pexprs_view(v: Seq<ParsedExpr>) -> Seq<ParsedExprV> {
    Seq::new(
        v.len(),
        |i: int|
            if 0 <= i < v.len() {
                pexpr_view(v[i])
            } else {
                vstd::pervasive::arbitrary::<ParsedExprV>()
            },
    )
}

/// A primary expression: a parenthesised group, a number with optional units,
/// a variable, or a function call; numbers and groups may chain into products
/// by juxtaposed parentheses.
pub open spec fn spec_primary(s: Seq<char>, i: nat, fuel: nat) -> Result<(ParsedExprV, nat), nat>
    decreases fuel, 2int,
{
    if fuel == 0 || i >= s.len() {
        Err(i)
    } else if s[i as int] == '(' {
        match spec_expr(s, i + 1, 0, (fuel - 1) as nat) {
            Err(p) => Err(p),
            Ok((e, j)) => {
                let w = scan_ws(s, j);
                if w < s.len() && s[w as int] == ')' {
                    spec_group_chain(s, e, w + 1, i, (fuel - 1) as nat)
                } else {
                    Err(w)
                }
            },
        }
    } else if is_digit(s[i as int]) {
        match scan_number(s, i) {
            None => Err(i),
            Some(j) => {
                let value = s.subrange(i as int, j as int);
                let w = scan_ws(s, j);
                match spec_units_expr(s, w, (fuel - 1) as nat) {
                    Some((d, k)) => spec_group_chain(
                        s,
                        ParsedExprV::Number { value, units: Some(d), span: mk_span(i, k) },
                        k,
                        i,
                        (fuel - 1) as nat,
                    ),
                    None => spec_group_chain(
                        s,
                        ParsedExprV::Number { value, units: None, span: mk_span(i, j) },
                        j,
                        i,
                        (fuel - 1) as nat,
                    ),
                }
            },
        }
    } else if is_letter(s[i as int]) {
        let j = scan_letters(s, i);
        let name = s.subrange(i as int, j as int);
        if j < s.len() && s[j as int] == '(' {
            spec_call(s, j + 1, name, None, i, j, (fuel - 1) as nat)
        } else if j < s.len() && is_digit(s[j as int]) && {
            let d = scan_digits(s, j);
            d < s.len() && s[d as int] == '('
        } {
            let d = scan_digits(s, j);
            let base = ParsedExprV::Number {
                value: s.subrange(j as int, d as int),
                units: None,
                span: mk_span(j, d),
            };
            spec_call(s, d + 1, name, Some(base), i, j, (fuel - 1) as nat)
        } else {
            let w = scan_ws(s, j);
            if w > j && w < s.len() && is_digit(s[w as int]) {
                match spec_primary(s, w, (fuel - 1) as nat) {
                    Err(p) => Err(p),
                    Ok((arg, k)) => Ok(
                        (
                            ParsedExprV::FunctionCall {
                                name,
                                args: seq![arg],
                                base: None,
                                span: mk_span(i, k),
                                function_span: mk_span(i, j),
                            },
                            k,
                        ),
                    ),
                }
            } else {
                Ok((ParsedExprV::Variable { name, span: mk_span(i, j) }, j))
            }
        }
    } else {
        Err(i)
    }
}

/// A function call's arguments: comma-separated expressions up to the closing
/// parenthesis.
pub open spec fn spec_call(
    s: Seq<char>,
    i: nat,
    name: Seq<char>,
    base: Option<ParsedExprV>,
    start: nat,
    name_end: nat,
    fuel: nat,
) -> Result<(ParsedExprV, nat), nat>
    decreases fuel, 1int,
{
    match spec_call_args(s, i, Seq::empty(), fuel) {
        Err(p) => Err(p),
        Ok((args, j)) => Ok(
            (
                ParsedExprV::FunctionCall {
                    name,
                    args,
                    base: match base {
                        Some(b) => Some(Box::new(b)),
                        None => None,
                    },
                    span: mk_span(start, j),
                    function_span: mk_span(start, name_end),
                },
                j,
            ),
        ),
    }
}

pub open spec fn spec_call_args(
    s: Seq<char>,
    i: nat,
    acc: Seq<ParsedExprV>,
    fuel: nat,
) -> Result<(Seq<ParsedExprV>, nat), nat>
    decreases fuel, 0int,
{
    if fuel == 0 {
        Err(i)
    } else {
        match spec_expr(s, i, 0, (fuel - 1) as nat) {
            Err(p) => Err(p),
            Ok((e, j)) => {
                let w = scan_ws(s, j);
                if w < s.len() && s[w as int] == ',' {
                    spec_call_args(s, w + 1, acc.push(e), (fuel - 1) as nat)
                } else if w < s.len() && s[w as int] == ')' {
                    Ok((acc.push(e), w + 1))
                } else {
                    Err(w)
                }
            },
        }
    }
}

/// Juxtaposed parenthesised groups multiply onto the expression so far.
pub open spec fn spec_group_chain(
    s: Seq<char>,
    lhs: ParsedExprV,
    i: nat,
    start: nat,
    fuel: nat,
) -> Result<(ParsedExprV, nat), nat>
    decreases fuel, 0int,
{
    if fuel == 0 {
        Err(i)
    } else if i < s.len() && s[i as int] == '(' {
        match spec_expr(s, i + 1, 0, (fuel - 1) as nat) {
            Err(p) => Err(p),
            Ok((e, j)) => {
                let w = scan_ws(s, j);
                if w < s.len() && s[w as int] == ')' {
                    spec_group_chain(
                        s,
                        ParsedExprV::BinOp {
                            lhs: Box::new(lhs),
                            op: Op::Multiply,
                            rhs: Box::new(e),
                            span: mk_span(start, w + 1),
                        },
                        w + 1,
                        start,
                        (fuel - 1) as nat,
                    )
                } else {
                    Err(w)
                }
            },
        }
    } else {
        Ok((lhs, i))
    }
}

/// True where the keyword `as` stands at `i`.
pub open spec fn as_keyword_at(s: Seq<char>, i: nat) -> bool {
    i + 1 < s.len() && s[i as int] == 'a' && s[i as int + 1] == 's' && (i + 2 >= s.len() || !(
    is_letter(s[i as int + 2]) || is_digit(s[i as int + 2])))
}

/// An expression at a minimum binding power: an optional unary minus, a
/// primary, then operators while they bind at least as tightly. Addition and
/// subtraction bind at 1; multiplication, division and the postfix percent
/// and conversion at 3; exponentiation at 5, grouping rightward; the
/// factorial at 7.
pub open spec fn spec_expr(s: Seq<char>, i: nat, min_bp: nat, fuel: nat) -> Result<
    (ParsedExprV, nat),
    nat,
>
    decreases fuel, 3int,
{
    if fuel == 0 {
        Err(i)
    } else {
        let w = scan_ws(s, i);
        let first = if w < s.len() && s[w as int] == '-' {
            match spec_expr(s, w + 1, 4, (fuel - 1) as nat) {
                Err(p) => Err(p),
                Ok((rhs, j)) => Ok(
                    (
                        ParsedExprV::UnOpPre {
                            op: OpPre::Negate,
                            rhs: Box::new(rhs),
                            span: mk_span(w, w + 1),
                        },
                        j,
                    ),
                ),
            }
        } else {
            spec_primary(s, w, (fuel - 1) as nat)
        };
        match first {
            Err(p) => Err(p),
            Ok((lhs, j)) => spec_expr_more(s, lhs, j, min_bp, (fuel - 1) as nat),
        }
    }
}

/// The operator loop of the precedence climber.
pub open spec fn spec_expr_more(
    s: Seq<char>,
    lhs: ParsedExprV,
    i: nat,
    min_bp: nat,
    fuel: nat,
) -> Result<(ParsedExprV, nat), nat>
    decreases fuel, 4int,
{
    if fuel == 0 {
        Err(i)
    } else {
        let w = scan_ws(s, i);
        if w >= s.len() {
            Ok((lhs, i))
        } else {
            let c = s[w as int];
            if (c == '+' || c == '-') && min_bp <= 1 {
                match spec_expr(s, w + 1, 2, (fuel - 1) as nat) {
                    Err(p) => Err(p),
                    Ok((rhs, j)) => spec_expr_more(
                        s,
                        ParsedExprV::BinOp {
                            lhs: Box::new(lhs),
                            op: if c == '+' {
                                Op::Add
                            } else {
                                Op::Subtract
                            },
                            rhs: Box::new(rhs),
                            span: mk_span(w, w + 1),
                        },
                        j,
                        min_bp,
                        (fuel - 1) as nat,
                    ),
                }
            } else if (c == '*' || c == '/') && min_bp <= 3 {
                match spec_expr(s, w + 1, 4, (fuel - 1) as nat) {
                    Err(p) => Err(p),
                    Ok((rhs, j)) => spec_expr_more(
                        s,
                        ParsedExprV::BinOp {
                            lhs: Box::new(lhs),
                            op: if c == '*' {
                                Op::Multiply
                            } else {
                                Op::Divide
                            },
                            rhs: Box::new(rhs),
                            span: mk_span(w, w + 1),
                        },
                        j,
                        min_bp,
                        (fuel - 1) as nat,
                    ),
                }
            } else if c == '^' && min_bp <= 5 {
                match spec_expr(s, w + 1, 5, (fuel - 1) as nat) {
                    Err(p) => Err(p),
                    Ok((rhs, j)) => spec_expr_more(
                        s,
                        ParsedExprV::BinOp {
                            lhs: Box::new(lhs),
                            op: Op::Exponent,
                            rhs: Box::new(rhs),
                            span: mk_span(w, w + 1),
                        },
                        j,
                        min_bp,
                        (fuel - 1) as nat,
                    ),
                }
            } else if c == '!' && min_bp <= 7 {
                spec_expr_more(
                    s,
                    ParsedExprV::UnOpPost {
                        lhs: Box::new(lhs),
                        op: OpPostV::Factorial,
                        span: mk_span(w, w + 1),
                    },
                    w + 1,
                    min_bp,
                    (fuel - 1) as nat,
                )
            } else if c == '%' && min_bp <= 3 {
                spec_expr_more(
                    s,
                    ParsedExprV::UnOpPost {
                        lhs: Box::new(lhs),
                        op: OpPostV::Percent,
                        span: mk_span(w, w + 1),
                    },
                    w + 1,
                    min_bp,
                    (fuel - 1) as nat,
                )
            } else if as_keyword_at(s, w) && min_bp <= 3 {
                let w2 = scan_ws(s, w + 2);
                match spec_units_expr(s, w2, fuel) {
                    None => Err(w2),
                    Some((d, j)) => spec_expr_more(
                        s,
                        ParsedExprV::UnOpPost {
                            lhs: Box::new(lhs),
                            op: OpPostV::Convert(d),
                            span: mk_span(w, j),
                        },
                        j,
                        min_bp,
                        (fuel - 1) as nat,
                    ),
                }
            } else {
                Ok((lhs, i))
            }
        }
    }
}

/// The position after the last non-whitespace character.
pub open spec fn rtrim(s: Seq<char>) -> nat
    decreases s.len(),
{
    if s.len() > 0 && is_ws(s.last()) {
        rtrim(s.drop_last())
    } else {
        s.len()
    }
}

/// The recursion budget for a line of a given length.
pub open spec fn line_fuel(n: nat) -> nat {
    n * 8 + 64
}

/// A whole expression line: the expression must consume everything, else the
/// first unconsumed position is the error.
pub open spec fn spec_line_expr(s: Seq<char>) -> Result<ParsedLineV, nat> {
    match spec_expr(s, 0, 0, line_fuel(s.len())) {
        Err(p) => Err(p),
        Ok((e, k)) => if scan_ws(s, k) >= s.len() {
            Ok(ParsedLineV::Expression(e))
        } else {
            Err(scan_ws(s, k))
        },
    }
}

/// What parsing one line yields: a comment (including blank lines), a
/// variable assignment, or an expression; for a malformed line, the position
/// where parsing stopped.
pub open spec fn spec_parse_line(s: Seq<char>) -> Result<ParsedLineV, nat> {
    if s.len() > 100000000 {
        Err(0)
    } else {
        let t = scan_ws(s, 0);
        if t >= s.len() {
            Ok(ParsedLineV::Comment)
        } else if t + 1 < s.len() && s[t as int] == '/' && s[t as int + 1] == '/' {
            Ok(ParsedLineV::Comment)
        } else if t + 1 < s.len() && s[t as int] == '/' && s[t as int + 1] == '*' {
            let e = rtrim(s);
            if e >= t + 4 && s[e as int - 2] == '*' && s[e as int - 1] == '/' {
                Ok(ParsedLineV::Comment)
            } else {
                Err(t)
            }
        } else if is_letter(s[t as int]) {
            let j = scan_letters(s, t);
            let w = scan_ws(s, j);
            if w < s.len() && s[w as int] == '=' {
                match spec_expr(s, w + 1, 0, line_fuel(s.len())) {
                    Err(p) => Err(p),
                    Ok((e, k)) => if scan_ws(s, k) >= s.len() {
                        Ok(ParsedLineV::Variable(s.subrange(t as int, j as int), e))
                    } else {
                        Err(scan_ws(s, k))
                    },
                }
            } else {
                spec_line_expr(s)
            }
        } else {
            spec_line_expr(s)
        }
    }
}

fn unit_atom(chars: &Vec<char>, line: &str, i: usize) -> (r: Option<(ParsedUnit, i32, usize)>)
    requires
        chars@ == line@,
        i <= chars@.len(),
    ensures
        r matches Some((u, p, j)) ==> spec_unit_atom(chars@, i as nat) == Some(
            (punit_view(u), p, j as nat),
        ) && j <= chars@.len(),
        r is None <==> spec_unit_atom(chars@, i as nat) is None,
{
    let j = skip_letters(chars, i);
    if j == i || (j - i == 2 && chars[i] == 'a' && chars[i + 1] == 's') {
        return None;
    }
    let name = string_from(line.substring_char(i, j));
    if j < chars.len() && chars[j] == '{' {
        let c = skip_to_close(chars, j + 1);
        if c >= chars.len() {
            return None;
        }
        let chem = string_from(line.substring_char(j + 1, c));
        let unit = ParsedUnit { name, chemical: Some(chem), span: Span::new(i, c + 1) };
        unit_power(chars, c + 1, unit)
    } else {
        let unit = ParsedUnit { name, chemical: None, span: Span::new(i, j) };
        unit_power(chars, j, unit)
    }
}

fn unit_power(chars: &Vec<char>, i: usize, unit: ParsedUnit) -> (r: Option<
    (ParsedUnit, i32, usize),
>)
    requires
        i <= chars@.len(),
    ensures
        r matches Some((u, p, j)) ==> spec_unit_power(chars@, i as nat, punit_view(unit)) == Some(
            (punit_view(u), p, j as nat),
        ) && j <= chars@.len(),
        r is None <==> spec_unit_power(chars@, i as nat, punit_view(unit)) is None,
{
    if i < chars.len() && chars[i] == '^' {
        let (negative, d0): (bool, usize) = if i + 1 < chars.len() && chars[i + 1] == '-' {
            (true, i + 2)
        } else {
            (false, i + 1)
        };
        let d1 = skip_digits(chars, d0);
        if d1 == d0 {
            return None;
        }
        let v = read_digits(chars, d0, d1);
        let m: i32 = if v > 0x7FFF_FFFF {
            0x7FFF_FFFF
        } else {
            v as i32
        };
        let pw: i32 = if negative {
            -m
        } else {
            m
        };
        proof {
            assert(chars@.subrange(d0 as int, d1 as int) == chars@.subrange(
                d0 as int,
                d1 as int,
            ));
            assert(pw == clamp_power(chars@.subrange(d0 as int, d1 as int), negative));
        }
        Some((unit, pw, d1))
    } else {
        Some((unit, 1, i))
    }
}

fn unit_group(chars: &Vec<char>, line: &str, i: usize, fuel: u64) -> (r: Option<
    (Vec<(ParsedUnit, i32)>, usize),
>)
    requires
        chars@ == line@,
        i <= chars@.len(),
    ensures
        r matches Some((v, j)) ==> spec_unit_group(chars@, i as nat, fuel as nat) == Some(
            (punits_view(v@), j as nat),
        ) && j <= chars@.len(),
        r is None <==> spec_unit_group(chars@, i as nat, fuel as nat) is None,
    decreases fuel,
{
    if fuel == 0 {
        return None;
    }
    if i < chars.len() && chars[i] == '1' && !(i + 1 < chars.len() && (char_is_digit(
        chars[i + 1],
    ) || char_is_lower(chars[i + 1]) || char_is_upper(chars[i + 1]) || chars[i + 1] == '.')) {
        let v: Vec<(ParsedUnit, i32)> = Vec::new();
        proof {
            assert(punits_view(v@) =~= Seq::<(ParsedUnitV, i32)>::empty());
        }
        return Some((v, i + 1));
    }
    match unit_atom(chars, line, i) {
        None => None,
        Some((u, p, j)) => {
            let mut acc: Vec<(ParsedUnit, i32)> = Vec::new();
            let ghost uv = punit_view(u);
            acc.push((u, p));
            proof {
                assert(punits_view(acc@) =~= seq![(uv, p)]);
            }
            unit_group_more(chars, line, j, acc, fuel - 1)
        },
    }
}

fn unit_group_more(
    chars: &Vec<char>,
    line: &str,
    i: usize,
    acc: Vec<(ParsedUnit, i32)>,
    fuel: u64,
) -> (r: Option<(Vec<(ParsedUnit, i32)>, usize)>)
    requires
        chars@ == line@,
        i <= chars@.len(),
    ensures
        r matches Some((v, j)) ==> spec_unit_group_more(
            chars@,
            i as nat,
            punits_view(acc@),
            fuel as nat,
        ) == Some((punits_view(v@), j as nat)) && j <= chars@.len(),
        r is None <==> spec_unit_group_more(chars@, i as nat, punits_view(acc@), fuel as nat)
            is None,
    decreases fuel,
{
    if fuel == 0 {
        return None;
    }
    let w = skip_ws(chars, i);
    if w < chars.len() && chars[w] == '*' {
        let w2 = skip_ws(chars, w + 1);
        match unit_atom(chars, line, w2) {
            None => Some((acc, i)),
            Some((u, p, j)) => {
                let ghost accv = punits_view(acc@);
                let ghost uv = punit_view(u);
                let mut acc2 = acc;
                acc2.push((u, p));
                proof {
                    assert(punits_view(acc2@) =~= accv.push((uv, p)));
                }
                unit_group_more(chars, line, j, acc2, fuel - 1)
            },
        }
    } else {
        Some((acc, i))
    }
}

fn units_expr(chars: &Vec<char>, line: &str, i: usize, fuel: u64) -> (r: Option<
    (ParsedDimension, usize),
>)
    requires
        chars@ == line@,
        i <= chars@.len(),
    ensures
        r matches Some((d, j)) ==> spec_units_expr(chars@, i as nat, fuel as nat) == Some(
            (pdim_view(d), j as nat),
        ) && j <= chars@.len(),
        r is None <==> spec_units_expr(chars@, i as nat, fuel as nat) is None,
{
    match unit_group(chars, line, i, fuel) {
        None => None,
        Some((num, j)) => {
            let w = skip_ws(chars, j);
            if w < chars.len() && chars[w] == '/' {
                let w2 = skip_ws(chars, w + 1);
                match unit_group(chars, line, w2, fuel) {
                    None => {
                        if num.len() == 0 {
                            None
                        } else {
                            let d = ParsedDimension {
                                numerator: num,
                                denominator: Vec::new(),
                                span: Span::new(i, j),
                            };
                            proof {
                                assert(pdim_view(d).denominator =~= Seq::<(
                                    ParsedUnitV,
                                    i32,
                                )>::empty());
                            }
                            Some((d, j))
                        }
                    },
                    Some((den, k)) => Some(
                        (
                            ParsedDimension {
                                numerator: num,
                                denominator: den,
                                span: Span::new(i, k),
                            },
                            k,
                        ),
                    ),
                }
            } else if num.len() == 0 {
                None
            } else {
                let d = ParsedDimension {
                    numerator: num,
                    denominator: Vec::new(),
                    span: Span::new(i, j),
                };
                proof {
                    assert(pdim_view(d).denominator =~= Seq::<(ParsedUnitV, i32)>::empty());
                }
                Some((d, j))
            }
        },
    }
}

fn prim(chars: &Vec<char>, line: &str, i: usize, fuel: u64) -> (r: Result<
    (ParsedExpr, usize),
    usize,
>)
    requires
        chars@ == line@,
        i <= chars@.len(),
    ensures
        r matches Ok((e, j)) ==> spec_primary(chars@, i as nat, fuel as nat) == Ok::<
            (ParsedExprV, nat),
            nat,
        >((pexpr_view(e), j as nat)) && j <= chars@.len(),
        r matches Err(p) ==> spec_primary(chars@, i as nat, fuel as nat) == Err::<
            (ParsedExprV, nat),
            nat,
        >(p as nat) && p <= chars@.len(),
    decreases fuel, 2int,
{
    if fuel == 0 || i >= chars.len() {
        return Err(i);
    }
    let c = chars[i];
    if c == '(' {
        match expr_bp(chars, line, i + 1, 0, fuel - 1) {
            Err(p) => Err(p),
            Ok((e, j)) => {
                let w = skip_ws(chars, j);
                if w < chars.len() && chars[w] == ')' {
                    group_chain(chars, line, e, w + 1, i, fuel - 1)
                } else {
                    Err(w)
                }
            },
        }
    } else if char_is_digit(c) {
        match take_number(chars, i) {
            None => Err(i),
            Some(j) => {
                let value = string_from(line.substring_char(i, j));
                let w = skip_ws(chars, j);
                match units_expr(chars, line, w, fuel - 1) {
                    Some((d, k)) => {
                        let e = ParsedExpr::Number {
                            value,
                            units: Some(d),
                            span: Span::new(i, k),
                        };
                        group_chain(chars, line, e, k, i, fuel - 1)
                    },
                    None => {
                        let e = ParsedExpr::Number { value, units: None, span: Span::new(i, j) };
                        group_chain(chars, line, e, j, i, fuel - 1)
                    },
                }
            },
        }
    } else if char_is_lower(c) || char_is_upper(c) {
        let j = skip_letters(chars, i);
        let name = string_from(line.substring_char(i, j));
        if j < chars.len() && chars[j] == '(' {
            call_expr(chars, line, j + 1, name, None, i, j, fuel - 1)
        } else if j < chars.len() && char_is_digit(chars[j]) && {
            let d = skip_digits(chars, j);
            d < chars.len() && chars[d] == '('
        } {
            let d = skip_digits(chars, j);
            let base = ParsedExpr::Number {
                value: string_from(line.substring_char(j, d)),
                units: None,
                span: Span::new(j, d),
            };
            call_expr(chars, line, d + 1, name, Some(base), i, j, fuel - 1)
        } else {
            let w = skip_ws(chars, j);
            if w > j && w < chars.len() && char_is_digit(chars[w]) {
                match prim(chars, line, w, fuel - 1) {
                    Err(p) => Err(p),
                    Ok((arg, k)) => {
                        let ghost argv = pexpr_view(arg);
                        let mut args: Vec<ParsedExpr> = Vec::new();
                        args.push(arg);
                        let e = ParsedExpr::FunctionCall {
                            name,
                            args,
                            base: None,
                            span: Span::new(i, k),
                            function_span: Span::new(i, j),
                        };
                        proof {
                            assert(pexpr_view(e)->FunctionCall_args =~= seq![argv]);
                        }
                        Ok((e, k))
                    },
                }
            } else {
                Ok((ParsedExpr::Variable { name, span: Span::new(i, j) }, j))
            }
        }
    } else {
        Err(i)
    }
}

fn call_expr(
    chars: &Vec<char>,
    line: &str,
    i: usize,
    name: String,
    base: Option<ParsedExpr>,
    start: usize,
    name_end: usize,
    fuel: u64,
) -> (r: Result<(ParsedExpr, usize), usize>)
    requires
        chars@ == line@,
        i <= chars@.len(),
    ensures
        r matches Ok((e, j)) ==> spec_call(
            chars@,
            i as nat,
            name@,
            match base {
                Some(b) => Some(pexpr_view(b)),
                None => None,
            },
            start as nat,
            name_end as nat,
            fuel as nat,
        ) == Ok::<(ParsedExprV, nat), nat>((pexpr_view(e), j as nat)) && j <= chars@.len(),
        r matches Err(p) ==> spec_call(
            chars@,
            i as nat,
            name@,
            match base {
                Some(b) => Some(pexpr_view(b)),
                None => None,
            },
            start as nat,
            name_end as nat,
            fuel as nat,
        ) == Err::<(ParsedExprV, nat), nat>(p as nat) && p <= chars@.len(),
    decreases fuel, 1int,
{
    let args: Vec<ParsedExpr> = Vec::new();
    proof {
        assert(pexprs_view(args@) =~= Seq::<ParsedExprV>::empty());
    }
    match call_args(chars, line, i, args, fuel) {
        Err(p) => Err(p),
        Ok((argv, j)) => {
            let e = ParsedExpr::FunctionCall {
                name,
                args: argv,
                base: match base {
                    Some(b) => Some(Box::new(b)),
                    None => None,
                },
                span: Span::new(start, j),
                function_span: Span::new(start, name_end),
            };
            proof {
                assert(pexpr_view(e)->FunctionCall_args =~= pexprs_view(
                    e->FunctionCall_args@,
                ));
            }
            Ok((e, j))
        },
    }
}

fn call_args(
    chars: &Vec<char>,
    line: &str,
    i: usize,
    acc: Vec<ParsedExpr>,
    fuel: u64,
) -> (r: Result<(Vec<ParsedExpr>, usize), usize>)
    requires
        chars@ == line@,
        i <= chars@.len(),
    ensures
        r matches Ok((v, j)) ==> spec_call_args(
            chars@,
            i as nat,
            pexprs_view(acc@),
            fuel as nat,
        ) == Ok::<(Seq<ParsedExprV>, nat), nat>((pexprs_view(v@), j as nat)) && j
            <= chars@.len(),
        r matches Err(p) ==> spec_call_args(chars@, i as nat, pexprs_view(acc@), fuel as nat)
            == Err::<(Seq<ParsedExprV>, nat), nat>(p as nat) && p <= chars@.len(),
    decreases fuel, 0int,
{
    if fuel == 0 {
        return Err(i);
    }
    match expr_bp(chars, line, i, 0, fuel - 1) {
        Err(p) => Err(p),
        Ok((e, j)) => {
            let w = skip_ws(chars, j);
            let ghost accv = pexprs_view(acc@);
            let ghost ev = pexpr_view(e);
            if w < chars.len() && chars[w] == ',' {
                let mut acc2 = acc;
                acc2.push(e);
                proof {
                    assert(pexprs_view(acc2@) =~= accv.push(ev));
                }
                call_args(chars, line, w + 1, acc2, fuel - 1)
            } else if w < chars.len() && chars[w] == ')' {
                let mut acc2 = acc;
                acc2.push(e);
                proof {
                    assert(pexprs_view(acc2@) =~= accv.push(ev));
                }
                Ok((acc2, w + 1))
            } else {
                Err(w)
            }
        },
    }
}

fn group_chain(
    chars: &Vec<char>,
    line: &str,
    lhs: ParsedExpr,
    i: usize,
    start: usize,
    fuel: u64,
) -> (r: Result<(ParsedExpr, usize), usize>)
    requires
        chars@ == line@,
        i <= chars@.len(),
    ensures
        r matches Ok((e, j)) ==> spec_group_chain(
            chars@,
            pexpr_view(lhs),
            i as nat,
            start as nat,
            fuel as nat,
        ) == Ok::<(ParsedExprV, nat), nat>((pexpr_view(e), j as nat)) && j <= chars@.len(),
        r matches Err(p) ==> spec_group_chain(
            chars@,
            pexpr_view(lhs),
            i as nat,
            start as nat,
            fuel as nat,
        ) == Err::<(ParsedExprV, nat), nat>(p as nat) && p <= chars@.len(),
    decreases fuel, 0int,
{
    if fuel == 0 {
        return Err(i);
    }
    if i < chars.len() && chars[i] == '(' {
        match expr_bp(chars, line, i + 1, 0, fuel - 1) {
            Err(p) => Err(p),
            Ok((e, j)) => {
                let w = skip_ws(chars, j);
                if w < chars.len() && chars[w] == ')' {
                    let combined = ParsedExpr::BinOp {
                        lhs: Box::new(lhs),
                        op: Op::Multiply,
                        rhs: Box::new(e),
                        span: Span::new(start, w + 1),
                    };
                    group_chain(chars, line, combined, w + 1, start, fuel - 1)
                } else {
                    Err(w)
                }
            },
        }
    } else {
        Ok((lhs, i))
    }
}

fn expr_bp(chars: &Vec<char>, line: &str, i: usize, min_bp: u64, fuel: u64) -> (r: Result<
    (ParsedExpr, usize),
    usize,
>)
    requires
        chars@ == line@,
        i <= chars@.len(),
    ensures
        r matches Ok((e, j)) ==> spec_expr(chars@, i as nat, min_bp as nat, fuel as nat) == Ok::<
            (ParsedExprV, nat),
            nat,
        >((pexpr_view(e), j as nat)) && j <= chars@.len(),
        r matches Err(p) ==> spec_expr(chars@, i as nat, min_bp as nat, fuel as nat) == Err::<
            (ParsedExprV, nat),
            nat,
        >(p as nat) && p <= chars@.len(),
    decreases fuel, 3int,
{
    if fuel == 0 {
        return Err(i);
    }
    let w = skip_ws(chars, i);
    let first: Result<(ParsedExpr, usize), usize> = if w < chars.len() && chars[w] == '-' {
        match expr_bp(chars, line, w + 1, 4, fuel - 1) {
            Err(p) => Err(p),
            Ok((rhs, j)) => Ok(
                (
                    ParsedExpr::UnOpPre {
                        op: OpPre::Negate,
                        rhs: Box::new(rhs),
                        span: Span::new(w, w + 1),
                    },
                    j,
                ),
            ),
        }
    } else {
        prim(chars, line, w, fuel - 1)
    };
    match first {
        Err(p) => Err(p),
        Ok((lhs, j)) => expr_more(chars, line, lhs, j, min_bp, fuel - 1),
    }
}

#[verifier::rlimit(100)]
fn expr_more(
    chars: &Vec<char>,
    line: &str,
    lhs: ParsedExpr,
    i: usize,
    min_bp: u64,
    fuel: u64,
) -> (r: Result<(ParsedExpr, usize), usize>)
    requires
        chars@ == line@,
        i <= chars@.len(),
    ensures
        r matches Ok((e, j)) ==> spec_expr_more(
            chars@,
            pexpr_view(lhs),
            i as nat,
            min_bp as nat,
            fuel as nat,
        ) == Ok::<(ParsedExprV, nat), nat>((pexpr_view(e), j as nat)) && j <= chars@.len(),
        r matches Err(p) ==> spec_expr_more(
            chars@,
            pexpr_view(lhs),
            i as nat,
            min_bp as nat,
            fuel as nat,
        ) == Err::<(ParsedExprV, nat), nat>(p as nat) && p <= chars@.len(),
    decreases fuel, 4int,
{
    if fuel == 0 {
        return Err(i);
    }
    let w = skip_ws(chars, i);
    if w >= chars.len() {
        return Ok((lhs, i));
    }
    let c = chars[w];
    if (c == '+' || c == '-') && min_bp <= 1 {
        match expr_bp(chars, line, w + 1, 2, fuel - 1) {
            Err(p) => Err(p),
            Ok((rhs, j)) => {
                let combined = ParsedExpr::BinOp {
                    lhs: Box::new(lhs),
                    op: if c == '+' {
                        Op::Add
                    } else {
                        Op::Subtract
                    },
                    rhs: Box::new(rhs),
                    span: Span::new(w, w + 1),
                };
                expr_more(chars, line, combined, j, min_bp, fuel - 1)
            },
        }
    } else if (c == '*' || c == '/') && min_bp <= 3 {
        match expr_bp(chars, line, w + 1, 4, fuel - 1) {
            Err(p) => Err(p),
            Ok((rhs, j)) => {
                let combined = ParsedExpr::BinOp {
                    lhs: Box::new(lhs),
                    op: if c == '*' {
                        Op::Multiply
                    } else {
                        Op::Divide
                    },
                    rhs: Box::new(rhs),
                    span: Span::new(w, w + 1),
                };
                expr_more(chars, line, combined, j, min_bp, fuel - 1)
            },
        }
    } else if c == '^' && min_bp <= 5 {
        match expr_bp(chars, line, w + 1, 5, fuel - 1) {
            Err(p) => Err(p),
            Ok((rhs, j)) => {
                let combined = ParsedExpr::BinOp {
                    lhs: Box::new(lhs),
                    op: Op::Exponent,
                    rhs: Box::new(rhs),
                    span: Span::new(w, w + 1),
                };
                expr_more(chars, line, combined, j, min_bp, fuel - 1)
            },
        }
    } else if c == '!' && min_bp <= 7 {
        let combined = ParsedExpr::UnOpPost {
            lhs: Box::new(lhs),
            op: OpPost::Factorial,
            span: Span::new(w, w + 1),
        };
        expr_more(chars, line, combined, w + 1, min_bp, fuel - 1)
    } else if c == '%' && min_bp <= 3 {
        let combined = ParsedExpr::UnOpPost {
            lhs: Box::new(lhs),
            op: OpPost::Percent,
            span: Span::new(w, w + 1),
        };
        expr_more(chars, line, combined, w + 1, min_bp, fuel - 1)
    } else if c == 'a' && w + 1 < chars.len() && chars[w + 1] == 's' && (w + 2 >= chars.len() || !(
    char_is_lower(chars[w + 2]) || char_is_upper(chars[w + 2]) || char_is_digit(chars[w + 2])))
        && min_bp <= 3 {
        let w2 = skip_ws(chars, w + 2);
        match units_expr(chars, line, w2, fuel) {
            None => Err(w2),
            Some((d, j)) => {
                let combined = ParsedExpr::UnOpPost {
                    lhs: Box::new(lhs),
                    op: OpPost::Convert(d),
                    span: Span::new(w, j),
                };
                expr_more(chars, line, combined, j, min_bp, fuel - 1)
            },
        }
    } else {
        Ok((lhs, i))
    }
}

fn rtrim_pos(chars: &Vec<char>) -> (j: usize)
    ensures
        j == rtrim(chars@),
        j <= chars@.len(),
{
    let mut j = chars.len();
    proof {
        assert(chars@.subrange(0, chars@.len() as int) =~= chars@);
    }
    while j > 0 && (chars[j - 1] == ' ' || chars[j - 1] == '\t' || chars[j - 1] == '\r'
        || chars[j - 1] == '\n')
        invariant
            j <= chars@.len(),
            rtrim(chars@.subrange(0, j as int)) == rtrim(chars@),
        decreases j,
    {
        proof {
            assert(chars@.subrange(0, j as int).drop_last() =~= chars@.subrange(0, j as int - 1));
            assert(chars@.subrange(0, j as int).last() == chars@[j as int - 1]);
        }
        j = j - 1;
    }
    proof {
        if j > 0 {
            assert(chars@.subrange(0, j as int).last() == chars@[j as int - 1]);
        }
        assert(rtrim(chars@.subrange(0, j as int)) == j);
    }
    j
}

/// Parses one line of source text: a comment (or blank line), a `name =
/// expression` assignment, or a bare expression; for a malformed line, the
/// position where parsing stopped.
pub fn parse_line(line: &str) -> (r: Result<ParsedLine, usize>)
    ensures
        r matches Ok(pl) ==> spec_parse_line(line@) == Ok::<ParsedLineV, nat>(pline_view(pl)),
        r matches Err(p) ==> spec_parse_line(line@) == Err::<ParsedLineV, nat>(p as nat) && p
            <= 100000000 && p <= line@.len(),
{
    let chars = to_char_vec(line);
    if chars.len() > 100000000 {
        return Err(0);
    }
    let ghost s = line@;
    let fuel: u64 = chars.len() as u64 * 8 + 64;
    proof {
        assert(fuel as nat == line_fuel(s.len()));
    }
    let t = skip_ws(&chars, 0);
    if t >= chars.len() {
        return Ok(ParsedLine::Comment);
    }
    if t + 1 < chars.len() && chars[t] == '/' && chars[t + 1] == '/' {
        return Ok(ParsedLine::Comment);
    }
    if t + 1 < chars.len() && chars[t] == '/' && chars[t + 1] == '*' {
        let e = rtrim_pos(&chars);
        if e >= t + 4 && chars[e - 2] == '*' && chars[e - 1] == '/' {
            return Ok(ParsedLine::Comment);
        } else {
            return Err(t);
        }
    }
    if char_is_lower(chars[t]) || char_is_upper(chars[t]) {
        let j = skip_letters(&chars, t);
        let w = skip_ws(&chars, j);
        if w < chars.len() && chars[w] == '=' {
            let name = string_from(line.substring_char(t, j));
            return match expr_bp(&chars, line, w + 1, 0, fuel) {
                Err(p) => Err(p),
                Ok((e, k)) => {
                    let k2 = skip_ws(&chars, k);
                    if k2 >= chars.len() {
                        Ok(ParsedLine::Variable(name, e))
                    } else {
                        Err(k2)
                    }
                },
            };
        }
    }
    match expr_bp(&chars, line, 0, 0, fuel) {
        Err(p) => Err(p),
        Ok((e, k)) => {
            let k2 = skip_ws(&chars, k);
            if k2 >= chars.len() {
                Ok(ParsedLine::Expression(e))
            } else {
                Err(k2)
            }
        },
    }
}

/// The grammar front end: parses one line of notebook input.
#[derive(Debug)]
pub struct SiffraParser;

impl SiffraParser {
    /// Parses one line; for a malformed line, the position where parsing
    /// stopped.
    pub fn parse(line: &str) -> (r: Result<ParsedLine, usize>)
        ensures
            r matches Ok(pl) ==> spec_parse_line(line@) == Ok::<ParsedLineV, nat>(
                pline_view(pl),
            ),
            r matches Err(p) ==> spec_parse_line(line@) == Err::<ParsedLineV, nat>(p as nat),
    {
        parse_line(line)
    }
}

/// Parses a whole piece of text as one expression.
pub fn parse_expr(text: &str) -> (r: Option<ParsedExpr>)
    ensures
        r matches Some(e) ==> (spec_expr(text@, 0, 0, line_fuel(text@.len())) matches Ok(p)
            && p.0 == pexpr_view(e)),
        text@.len() <= 100000000 && r is None ==> !(spec_expr(
            text@,
            0,
            0,
            line_fuel(text@.len()),
        ) matches Ok(p) && scan_ws(text@, p.1) >= text@.len()),
{
    let chars = to_char_vec(text);
    if chars.len() > 100000000 {
        return None;
    }
    let fuel: u64 = chars.len() as u64 * 8 + 64;
    match expr_bp(&chars, text, 0, 0, fuel) {
        Err(_) => None,
        Ok((e, k)) => {
            let k2 = skip_ws(&chars, k);
            if k2 >= chars.len() {
                Some(e)
            } else {
                None
            }
        },
    }
}

/// Parses a whole piece of text as one unit expression.
pub fn parse_unit_expr(text: &str) -> (r: Option<ParsedDimension>)
    ensures
        r matches Some(d) ==> (spec_units_expr(text@, 0, line_fuel(text@.len())) matches Some(p)
            && p.0 == pdim_view(d)),
        text@.len() <= 100000000 && r is None ==> !(spec_units_expr(
            text@,
            0,
            line_fuel(text@.len()),
        ) matches Some(p) && p.1 >= text@.len()),
{
    let chars = to_char_vec(text);
    if chars.len() > 100000000 {
        return None;
    }
    let fuel: u64 = chars.len() as u64 * 8 + 64;
    match units_expr(&chars, text, 0, fuel) {
        None => None,
        Some((d, k)) => {
            if k >= chars.len() {
                Some(d)
            } else {
                None
            }
        },
    }
}

} // verus!

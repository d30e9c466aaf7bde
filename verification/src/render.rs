//! Canonical display of numbers, dimensions and values.
//!
//! The number's raw scientific text (`d.ddd...e±exp`) is canonicalized: the
//! digits are cut to thirty, runs of trailing nines are collapsed by rounding
//! up, and the result is written in plain decimal while the exponent stays
//! within ±6, in `mE±exp` form beyond. A dimension renders as a `*`-joined
//! numerator and denominator of unit symbols with their powers.

use vstd::prelude::*;
use crate::dimension::{DimEntry, Dimension, Quantity};
use crate::float::{
    cmp_model, format_model, int_model, neg_model, same_value, Float, FloatModel,
};
use crate::text::{
    char_is_digit, clamped_digits_val, dec_string, is_digit, push_char, read_digits, skip_digits,
    string_from, to_char_vec, u64_to_string,
};
use crate::value::{Value, ValueModel};

verus! {

/// A run of `n` zero digits.
pub open spec fn zeros(n: nat) -> Seq<char>
    decreases n,
{
    if n == 0 {
        Seq::empty()
    } else {
        zeros((n - 1) as nat).push('0')
    }
}

/// The length and content of a zero run.
pub proof fn lemma_zeros(n: nat)
    ensures
        zeros(n).len() == n,
        forall|k: int| 0 <= k < n ==> zeros(n)[k] == '0',
    decreases n,
{
    if n > 0 {
        lemma_zeros((n - 1) as nat);
    }
}

fn push_zeros(v: &mut Vec<char>, n: usize)
    ensures
        final(v)@ == old(v)@ + zeros(n as nat),
        final(v)@.len() == old(v)@.len() + n,
    decreases n,
{
    proof {
        lemma_zeros(n as nat);
    }
    if n == 0 {
        proof {
            assert(old(v)@ + zeros(0) =~= old(v)@);
        }
    } else {
        push_zeros(v, n - 1);
        v.push('0');
        proof {
            assert(old(v)@ + zeros(n as nat) =~= (old(v)@ + zeros((n - 1) as nat)).push('0'));
        }
    }
}

/// The position of the first `e` in the text, or its length.
pub open spec fn find_e(s: Seq<char>, i: nat) -> nat
    decreases s.len() - i,
{
    if i >= s.len() {
        s.len()
    } else if s[i as int] == 'e' {
        i
    } else {
        find_e(s, i + 1)
    }
}

proof fn lemma_find_e(s: Seq<char>, i: nat)
    requires
        i <= s.len(),
    ensures
        i <= find_e(s, i) <= s.len(),
        forall|k: int| i <= k < find_e(s, i) ==> s[k] != 'e',
        find_e(s, i) < s.len() ==> s[find_e(s, i) as int] == 'e',
    decreases s.len() - i,
{
    if i < s.len() && s[i as int] != 'e' {
        lemma_find_e(s, i + 1);
    }
}

fn scan_e(chars: &Vec<char>) -> (j: usize)
    ensures
        j == find_e(chars@, 0),
        j <= chars@.len(),
        j < chars@.len() ==> chars@[j as int] == 'e',
        forall|k: int| 0 <= k < j ==> chars@[k] != 'e',
{
    let mut j: usize = 0;
    while j < chars.len() && chars[j] != 'e'
        invariant
            j <= chars@.len(),
            find_e(chars@, j as nat) == find_e(chars@, 0),
            forall|k: int| 0 <= k < j ==> chars@[k] != 'e',
        decreases chars@.len() - j,
    {
        j = j + 1;
    }
    proof {
        lemma_find_e(chars@, 0);
    }
    j
}

/// The digits of an exponent text, after an optional sign.
pub open spec fn exp_digits(s: Seq<char>) -> Seq<char> {
    if s.len() > 0 && (s[0] == '-' || s[0] == '+') {
        s.subrange(1, s.len() as int)
    } else {
        s
    }
}

/// The exponent text read as an integer: an optional sign and digits, the
/// magnitude capped just above what the number library can produce.
pub open spec fn spec_exp_value(s: Seq<char>) -> Option<int> {
    let ds = exp_digits(s);
    if s.len() == 0 || ds.len() == 0 || (exists|k: int| 0 <= k < ds.len() && !is_digit(ds[k])) {
        None
    } else if s[0] == '-' {
        Some(-(clamped_digits_val(ds) as int))
    } else {
        Some(clamped_digits_val(ds) as int)
    }
}

fn parse_exp(chars: &Vec<char>, start: usize) -> (r: Option<i64>)
    requires
        start <= chars@.len(),
    ensures
        r matches Some(v) ==> spec_exp_value(chars@.subrange(start as int, chars@.len() as int))
            == Some(v as int) && -0x1_0000_0000 <= v <= 0x1_0000_0000,
        r is None <==> spec_exp_value(chars@.subrange(start as int, chars@.len() as int)) is None,
{
    let ghost s = chars@.subrange(start as int, chars@.len() as int);
    if start == chars.len() {
        return None;
    }
    let c0 = chars[start];
    let (negative, dstart): (bool, usize) = if c0 == '-' {
        (true, start + 1)
    } else if c0 == '+' {
        (false, start + 1)
    } else {
        (false, start)
    };
    let ghost ds = chars@.subrange(dstart as int, chars@.len() as int);
    let ghost dss = exp_digits(s);
    proof {
        assert(s[0] == chars@[start as int]);
        if c0 == '-' || c0 == '+' {
            assert(ds =~= s.subrange(1, s.len() as int));
        } else {
            assert(ds =~= s);
        }
        assert(dss == ds);
    }
    let dend = skip_digits(chars, dstart);
    if dstart == dend || dend < chars.len() {
        proof {
            if ds.len() == 0 {
                assert(dss.len() == 0);
                assert(spec_exp_value(s) is None);
            } else if dstart == dend {
                assert(dss[0] == chars@[dstart as int]);
                assert(!is_digit(dss[0]));
                assert(exists|k: int| 0 <= k < dss.len() && !is_digit(dss[k]));
                assert(spec_exp_value(s) is None);
            } else {
                assert(!is_digit(chars@[dend as int]));
                assert(dss[dend - dstart] == chars@[dend as int]);
                assert(exists|k: int| 0 <= k < dss.len() && !is_digit(dss[k]));
                assert(spec_exp_value(s) is None);
            }
        }
        return None;
    }
    let v = read_digits(chars, dstart, dend);
    proof {
        assert(chars@.subrange(dstart as int, dend as int) =~= ds);
        assert(forall|k: int| 0 <= k < dss.len() ==> is_digit(dss[k]));
        assert(dss.len() > 0);
    }
    if negative {
        Some(-(v as i64))
    } else {
        Some(v as i64)
    }
}

/// The first thirty digits, padded with zeros when fewer.
pub open spec fn take_thirty(d: Seq<char>) -> Seq<char> {
    if d.len() >= 30 {
        d.subrange(0, 30)
    } else {
        d + zeros((30 - d.len()) as nat)
    }
}

/// How many nines end the digit string.
pub open spec fn trailing_nines(d: Seq<char>) -> nat
    decreases d.len(),
{
    if d.len() > 0 && d.last() == '9' {
        trailing_nines(d.drop_last()) + 1
    } else {
        0
    }
}

proof fn lemma_trailing_nines(d: Seq<char>)
    ensures
        trailing_nines(d) <= d.len(),
        forall|k: int| d.len() - trailing_nines(d) <= k < d.len() ==> d[k] == '9',
        trailing_nines(d) < d.len() ==> d[d.len() - trailing_nines(d) - 1] != '9',
    decreases d.len(),
{
    if d.len() > 0 && d.last() == '9' {
        lemma_trailing_nines(d.drop_last());
        assert forall|k: int|
            d.len() - trailing_nines(d) <= k < d.len() implies d[k] == '9' by {
            if k < d.len() - 1 {
                assert(d.drop_last()[k] == d[k]);
            }
        }
    }
}

/// The next digit character up.
pub open spec fn inc_digit(c: char) -> char {
    if c == '0' {
        '1'
    } else if c == '1' {
        '2'
    } else if c == '2' {
        '3'
    } else if c == '3' {
        '4'
    } else if c == '4' {
        '5'
    } else if c == '5' {
        '6'
    } else if c == '6' {
        '7'
    } else if c == '7' {
        '8'
    } else {
        '9'
    }
}

/// Collapses a run of trailing nines by rounding up: the digits before the
/// run, its last one incremented; all nines round up to a one with the
/// exponent raised.
pub open spec fn round_nines(d: Seq<char>, exp: int) -> (Seq<char>, int) {
    let n = trailing_nines(d);
    if n == 0 {
        (d, exp)
    } else if n == d.len() {
        (seq!['1'] + zeros(29), exp + 1)
    } else {
        let kept = d.subrange(0, d.len() - n as int);
        (kept.update(kept.len() - 1, inc_digit(kept.last())), exp)
    }
}

/// Drops trailing zero characters.
pub open spec fn strip_trailing_zeros(s: Seq<char>) -> Seq<char>
    decreases s.len(),
{
    if s.len() > 0 && s.last() == '0' {
        strip_trailing_zeros(s.drop_last())
    } else {
        s
    }
}

/// Drops one trailing dot, if the text ends with one.
pub open spec fn strip_trailing_dot(s: Seq<char>) -> Seq<char> {
    if s.len() > 0 && s.last() == '.' {
        s.drop_last()
    } else {
        s
    }
}

/// Drops leading zero characters.
pub open spec fn strip_leading_zeros(s: Seq<char>) -> Seq<char>
    decreases s.len(),
{
    if s.len() > 0 && s[0] == '0' {
        strip_leading_zeros(s.subrange(1, s.len() as int))
    } else {
        s
    }
}

/// The plain-decimal rendering of digits `d` read as `d[0].d[1..] * 10^exp`:
/// the dot is placed after the integer part, spurious zeros fall away, a bare
/// fraction gets a leading zero, and the sign is prepended.
pub open spec fn render_fixed(d: Seq<char>, exp: int, negative: bool) -> Seq<char> {
    let total = zeros(6) + d;
    let pos = 7 + exp;
    let padded = if total.len() < pos {
        total + zeros((pos - total.len()) as nat)
    } else {
        total
    };
    let dotted = padded.subrange(0, pos) + seq!['.'] + padded.subrange(pos, padded.len() as int);
    let stripped = strip_leading_zeros(strip_trailing_dot(strip_trailing_zeros(dotted)));
    let with_zero = if stripped.len() > 0 && stripped[0] == '.' {
        seq!['0'] + stripped
    } else {
        stripped
    };
    if negative {
        seq!['-'] + with_zero
    } else {
        with_zero
    }
}

/// The text of a signed exponent.
pub open spec fn exp_string(exp: int) -> Seq<char> {
    if exp < 0 {
        seq!['-'] + dec_string((-exp) as nat)
    } else {
        dec_string(exp as nat)
    }
}

/// The scientific rendering `mE±exp`, the mantissa dot after the first digit
/// and spurious zeros dropped.
pub open spec fn render_scientific(d: Seq<char>, exp: int, negative: bool) -> Seq<char> {
    let dotted = d.subrange(0, 1) + seq!['.'] + d.subrange(1, d.len() as int);
    let stripped = strip_trailing_dot(strip_trailing_zeros(dotted));
    let signed = if negative {
        seq!['-'] + stripped
    } else {
        stripped
    };
    signed + seq!['E'] + exp_string(exp)
}

/// Whether the mantissa has the shape the number library emits: a digit, a
/// dot, then digits.
pub open spec fn mantissa_shape_ok(m: Seq<char>) -> bool {
    &&& m.len() >= 2
    &&& is_digit(m[0])
    &&& m[1] == '.'
    &&& forall|k: int| 2 <= k < m.len() ==> is_digit(m[k])
}

/// The canonical decimal text of a raw `d.ddd...e±exp` rendering: thirty
/// digits, trailing nines rounded up, plain decimal within exponent ±6 and
/// scientific form beyond. Text in any other shape (`NaN`, `Inf`, `0.0`)
/// passes through unchanged.
pub open spec fn spec_canonical_decimal(raw: Seq<char>) -> Seq<char> {
    let e = find_e(raw, 0);
    if e >= raw.len() {
        raw
    } else {
        let m0 = raw.subrange(0, e as int);
        let exp0 = spec_exp_value(raw.subrange(e as int + 1, raw.len() as int));
        if exp0 is None {
            raw
        } else {
            let (negative, m) = if m0.len() > 0 && m0[0] == '-' {
                (true, m0.subrange(1, m0.len() as int))
            } else {
                (false, m0)
            };
            if !mantissa_shape_ok(m) {
                raw
            } else {
                let digits = m.subrange(0, 1) + m.subrange(2, m.len() as int);
                let (d, exp) = round_nines(take_thirty(digits), exp0->Some_0);
                if -6 <= exp <= 6 {
                    render_fixed(d, exp, negative)
                } else {
                    render_scientific(d, exp, negative)
                }
            }
        }
    }
}

/// The canonical decimal text of a number's value.
pub open spec fn spec_float_string(v: FloatModel) -> Seq<char> {
    spec_canonical_decimal(format_model(v))
}

fn pop_trailing_zeros(v: &mut Vec<char>)
    ensures
        final(v)@ == strip_trailing_zeros(old(v)@),
{
    while v.len() > 0 && v[v.len() - 1] == '0'
        invariant
            strip_trailing_zeros(v@) == strip_trailing_zeros(old(v)@),
        decreases v@.len(),
    {
        let ghost before = v@;
        v.pop();
        proof {
            assert(v@ =~= before.drop_last());
        }
    }
}

fn pop_trailing_dot(v: &mut Vec<char>)
    ensures
        final(v)@ == strip_trailing_dot(old(v)@),
{
    if v.len() > 0 && v[v.len() - 1] == '.' {
        let ghost before = v@;
        v.pop();
        proof {
            assert(v@ =~= before.drop_last());
        }
    }
}

fn drop_leading_zeros(v: &mut Vec<char>)
    ensures
        final(v)@ == strip_leading_zeros(old(v)@),
{
    while v.len() > 0 && v[0] == '0'
        invariant
            strip_leading_zeros(v@) == strip_leading_zeros(old(v)@),
        decreases v@.len(),
    {
        let ghost before = v@;
        v.remove(0);
        proof {
            assert(v@ =~= before.subrange(1, before.len() as int));
        }
    }
}

fn chars_to_string(v: &Vec<char>) -> (s: String)
    ensures
        s@ == v@,
{
    let mut s = String::new();
    let mut i: usize = 0;
    while i < v.len()
        invariant
            i <= v@.len(),
            s@ == v@.subrange(0, i as int),
        decreases v@.len() - i,
    {
        push_char(&mut s, v[i]);
        proof {
            assert(s@ =~= v@.subrange(0, i as int + 1));
        }
        i = i + 1;
    }
    proof {
        assert(v@.subrange(0, v@.len() as int) =~= v@);
    }
    s
}

/// Renders raw scientific text in canonical decimal form.
#[verifier::rlimit(100)]
fn canonical_decimal(raw: &str) -> (r: String)
    ensures
        r@ == spec_canonical_decimal(raw@),
{
    let chars = to_char_vec(raw);
    let e = scan_e(&chars);
    if e >= chars.len() {
        return string_from(raw);
    }
    let exp0 = match parse_exp(&chars, e + 1) {
        None => {
            return string_from(raw);
        },
        Some(x) => x,
    };
    proof {
        assert(chars@.subrange(e as int + 1, chars@.len() as int) == raw@.subrange(
            e as int + 1,
            raw@.len() as int,
        ));
    }
    let ghost m0 = raw@.subrange(0, e as int);
    let (negative, mstart): (bool, usize) = if chars[0] == '-' {
        (true, 1)
    } else {
        (false, 0)
    };
    let ghost m = raw@.subrange(mstart as int, e as int);
    proof {
        assert(m0 =~= chars@.subrange(0, e as int));
        if negative {
            assert(m =~= m0.subrange(1, m0.len() as int));
        } else {
            assert(m =~= m0);
        }
    }
    // the mantissa must look like d.ddd
    if e < mstart + 2 {
        proof {
            assert(!mantissa_shape_ok(m));
        }
        return string_from(raw);
    }
    if !char_is_digit(chars[mstart]) || chars[mstart + 1] != '.' {
        proof {
            assert(m[0] == chars@[mstart as int]);
            assert(m[1] == chars@[mstart as int + 1]);
        }
        return string_from(raw);
    }
    let frac_end = skip_digits(&chars, mstart + 2);
    if frac_end < e {
        proof {
            assert(!is_digit(chars@[frac_end as int]));
            assert(m[frac_end - mstart] == chars@[frac_end as int]);
        }
        return string_from(raw);
    }
    proof {
        assert(mantissa_shape_ok(m)) by {
            assert(m[0] == chars@[mstart as int]);
            assert(m[1] == chars@[mstart as int + 1]);
            assert(forall|k: int|
                2 <= k < m.len() ==> m[k] == chars@[mstart + k] && is_digit(chars@[mstart + k]));
        }
    }
    let ghost digits_spec = m.subrange(0, 1) + m.subrange(2, m.len() as int);
    // gather the digits: the leading digit, then the fraction
    let mut digits: Vec<char> = Vec::new();
    digits.push(chars[mstart]);
    let mut i: usize = mstart + 2;
    while i < e
        invariant
            mstart + 2 <= i <= e <= chars@.len(),
            chars@ == raw@,
            m == raw@.subrange(mstart as int, e as int),
            digits@ == seq![chars@[mstart as int]] + chars@.subrange(mstart as int + 2, i as int),
        decreases e - i,
    {
        digits.push(chars[i]);
        proof {
            assert(digits@ =~= seq![chars@[mstart as int]] + chars@.subrange(
                mstart as int + 2,
                i as int + 1,
            ));
        }
        i = i + 1;
    }
    proof {
        assert(digits@ =~= digits_spec);
    }
    // cut to thirty digits, padding with zeros
    if digits.len() >= 30 {
        digits.truncate(30);
        proof {
            assert(digits@ =~= take_thirty(digits_spec));
        }
    } else {
        let n = 30 - digits.len();
        push_zeros(&mut digits, n);
        proof {
            assert(digits@ =~= take_thirty(digits_spec));
        }
    }
    let ghost d30 = digits@;
    // collapse trailing nines by rounding up
    let mut exp: i64 = exp0;
    proof {
        lemma_trailing_nines(d30);
    }
    let mut nines: usize = 0;
    while nines < digits.len() && digits[digits.len() - 1 - nines] == '9'
        invariant
            nines <= d30.len(),
            digits@ == d30,
            forall|k: int| d30.len() - nines <= k < d30.len() ==> d30[k] == '9',
            nines <= trailing_nines(d30),
        decreases d30.len() - nines,
    {
        proof {
            lemma_trailing_nines(d30);
        }
        nines = nines + 1;
        proof {
            lemma_nines_lower(d30, nines as nat);
        }
    }
    proof {
        lemma_trailing_nines(d30);
        assert(nines == trailing_nines(d30));
    }
    if nines > 0 {
        if nines == digits.len() {
            digits = Vec::new();
            digits.push('1');
            push_zeros(&mut digits, 29);
            exp = exp + 1;
            proof {
                assert(digits@ =~= seq!['1'] + zeros(29));
            }
        } else {
            digits.truncate(digits.len() - nines);
            let last = digits.len() - 1;
            let c = digits[last];
            proof {
                assert(d30.subrange(0, d30.len() - nines as int).last() == d30[d30.len() - nines
                    - 1]);
                assert(c != '9');
                assert(is_digit(c));
            }
            let up: char = if c == '0' {
                '1'
            } else if c == '1' {
                '2'
            } else if c == '2' {
                '3'
            } else if c == '3' {
                '4'
            } else if c == '4' {
                '5'
            } else if c == '5' {
                '6'
            } else if c == '6' {
                '7'
            } else if c == '7' {
                '8'
            } else {
                '9'
            };
            digits.set(last, up);
            proof {
                let kept = d30.subrange(0, d30.len() - nines as int);
                assert(digits@ =~= kept.update(kept.len() - 1, inc_digit(kept.last())));
            }
        }
    }
    proof {
        assert((digits@, exp as int) == round_nines(take_thirty(digits_spec), exp0 as int));
    }
    let ghost d = digits@;
    if -6 <= exp && exp <= 6 {
        render_fixed_exec(digits, exp, negative)
    } else {
        render_scientific_exec(digits, exp, negative)
    }
}

/// Writes digits read as `d[0].d[1..] * 10^exp` in plain decimal form.
fn render_fixed_exec(digits: Vec<char>, exp: i64, negative: bool) -> (r: String)
    requires
        -6 <= exp <= 6,
        digits@.len() >= 1,
    ensures
        r@ == render_fixed(digits@, exp as int, negative),
{
    let ghost d = digits@;
    {
        // plain decimal form
        let mut out: Vec<char> = Vec::new();
        push_zeros(&mut out, 6);
        let mut k: usize = 0;
        while k < digits.len()
            invariant
                k <= digits@.len(),
                digits@ == d,
                out@ == zeros(6) + d.subrange(0, k as int),
            decreases digits@.len() - k,
        {
            out.push(digits[k]);
            proof {
                assert(out@ =~= zeros(6) + d.subrange(0, k as int + 1));
            }
            k = k + 1;
        }
        proof {
            assert(d.subrange(0, d.len() as int) =~= d);
            assert(out@ =~= zeros(6) + d);
        }
        let pos = (7 + exp) as usize;
        let ghost total = zeros(6) + d;
        if out.len() < pos {
            let n = pos - out.len();
            push_zeros(&mut out, n);
        }
        let ghost padded = out@;
        proof {
            if total.len() < pos as int {
                assert(padded =~= total + zeros((pos - total.len()) as nat));
            } else {
                assert(padded =~= total);
            }
        }
        out.insert(pos, '.');
        proof {
            assert(out@ =~= padded.subrange(0, pos as int) + seq!['.'] + padded.subrange(
                pos as int,
                padded.len() as int,
            ));
        }
        pop_trailing_zeros(&mut out);
        pop_trailing_dot(&mut out);
        drop_leading_zeros(&mut out);
        if out.len() > 0 && out[0] == '.' {
            out.insert(0, '0');
            proof {
                let stripped = out@.subrange(1, out@.len() as int);
                assert(out@ =~= seq!['0'] + stripped);
            }
        }
        if negative {
            out.insert(0, '-');
            proof {
                let rest = out@.subrange(1, out@.len() as int);
                assert(out@ =~= seq!['-'] + rest);
            }
        }
        proof {
            assert(out@ =~= render_fixed(d, exp as int, negative));
        }
        chars_to_string(&out)
    }
}

/// Writes digits read as `d[0].d[1..] * 10^exp` in scientific form.
fn render_scientific_exec(digits: Vec<char>, exp: i64, negative: bool) -> (r: String)
    requires
        digits@.len() >= 1,
        -0x2_0000_0000 <= exp <= 0x2_0000_0000,
    ensures
        r@ == render_scientific(digits@, exp as int, negative),
{
    let ghost d = digits@;
    {
        // scientific form
        let mut out: Vec<char> = Vec::new();
        out.push(digits[0]);
        out.push('.');
        let mut k: usize = 1;
        while k < digits.len()
            invariant
                1 <= k <= digits@.len(),
                digits@ == d,
                d.len() >= 1,
                out@ == d.subrange(0, 1) + seq!['.'] + d.subrange(1, k as int),
            decreases digits@.len() - k,
        {
            out.push(digits[k]);
            proof {
                assert(out@ =~= d.subrange(0, 1) + seq!['.'] + d.subrange(1, k as int + 1));
            }
            k = k + 1;
        }
        proof {
            assert(out@ =~= d.subrange(0, 1) + seq!['.'] + d.subrange(1, d.len() as int));
        }
        pop_trailing_zeros(&mut out);
        pop_trailing_dot(&mut out);
        if negative {
            out.insert(0, '-');
            proof {
                let rest = out@.subrange(1, out@.len() as int);
                assert(out@ =~= seq!['-'] + rest);
            }
        }
        out.push('E');
        if exp < 0 {
            out.push('-');
        }
        let mut s = chars_to_string(&out);
        let mag: u64 = if exp < 0 {
            (-exp) as u64
        } else {
            exp as u64
        };
        let digits_str = u64_to_string(mag);
        s.append(digits_str.as_str());
        proof {
            assert(s@ =~= render_scientific(d, exp as int, negative));
        }
        s
    }
}

proof fn lemma_nines_lower(d: Seq<char>, n: nat)
    requires
        n <= d.len(),
        forall|k: int| d.len() - n <= k < d.len() ==> d[k] == '9',
    ensures
        n <= trailing_nines(d),
    decreases n,
{
    if n > 0 {
        lemma_nines_lower(d.drop_last(), (n - 1) as nat);
    }
}

impl Float {
    /// The canonical decimal text of this number.
    pub fn to_decimal_string(&self) -> (r: String)
        ensures
            r@ == spec_float_string(self@),
    {
        let raw = self.raw_decimal();
        canonical_decimal(raw.as_str())
    }
}

/// The dimension's numerator and denominator texts, gathered left to right:
/// positive powers go to the numerator, negative ones (negated) to the
/// denominator; a power of one (or minus one) is left silent.
pub open spec fn spec_dim_parts(s: Seq<DimEntry>, i: nat, num: Seq<char>, den: Seq<char>) -> (
    Seq<char>,
    Seq<char>,
)
    decreases s.len() - i,
{
    if i >= s.len() {
        (num, den)
    } else {
        let sh = Quantity::spec_shorthand(s[i as int].0);
        let p = s[i as int].1;
        if cmp_model(p, int_model(0)) == Some(1i8) {
            let piece = if num.len() > 0 {
                seq!['*'] + sh
            } else {
                sh
            };
            let powered = if cmp_model(p, int_model(1)) == Some(1i8) {
                piece + seq!['^'] + spec_float_string(p)
            } else {
                piece
            };
            spec_dim_parts(s, i + 1, num + powered, den)
        } else if cmp_model(p, int_model(0)) == Some(-1i8) {
            let piece = if den.len() > 0 {
                seq!['*'] + sh
            } else {
                sh
            };
            let powered = if !same_value(p, int_model(-1)) {
                piece + seq!['^'] + spec_float_string(neg_model(p))
            } else {
                piece
            };
            spec_dim_parts(s, i + 1, num, den + powered)
        } else {
            spec_dim_parts(s, i + 1, num, den)
        }
    }
}

/// The display text of a dimension: `num`, `num/den` or `/den`; the unitless
/// dimension renders empty.
pub open spec fn spec_dimension_string(s: Seq<DimEntry>) -> Seq<char> {
    let (num, den) = spec_dim_parts(s, 0, Seq::empty(), Seq::empty());
    if den.len() > 0 {
        num + seq!['/'] + den
    } else {
        num
    }
}

impl Dimension {
    /// Renders the dimension as unit symbols with powers.
    pub fn to_display_string(&self) -> (r: String)
        requires
            self.wf(),
        ensures
            r@ == spec_dimension_string(self@),
    {
        let ghost s = self@;
        let zero = Float::from_i64(0);
        let one = Float::from_i64(1);
        let minus_one = Float::from_i64(-1);
        let mut num = String::new();
        let mut den = String::new();
        let parts = self.entries();
        let mut i: usize = 0;
        while i < parts.len()
            invariant
                i <= parts@.len(),
                s == self@,
                crate::dimension::entries_view(parts@) == s,
                zero@ == int_model(0),
                one@ == int_model(1),
                minus_one@ == int_model(-1),
                self.wf(),
                spec_dim_parts(s, i as nat, num@, den@) == spec_dim_parts(
                    s,
                    0,
                    Seq::empty(),
                    Seq::empty(),
                ),
            decreases parts@.len() - i,
        {
            let ghost num0 = num@;
            let ghost den0 = den@;
            let ghost shv = Quantity::spec_shorthand(s[i as int].0);
            let ghost pv = s[i as int].1;
            proof {
                crate::dimension::lemma_entries_view(parts@);
                assert(quantity_wf_at(s, i as int));
            }
            let sh = parts[i].0.shorthand();
            let p = &parts[i].1;
            if p.gt_value(&zero) {
                if !num.as_str().is_empty() {
                    push_char(&mut num, '*');
                }
                num.append(sh.as_str());
                if p.gt_value(&one) {
                    push_char(&mut num, '^');
                    let ps = p.to_decimal_string();
                    num.append(ps.as_str());
                }
                proof {
                    let piece = if num0.len() > 0 {
                        seq!['*'] + shv
                    } else {
                        shv
                    };
                    let powered = if cmp_model(pv, int_model(1)) == Some(1i8) {
                        piece + seq!['^'] + spec_float_string(pv)
                    } else {
                        piece
                    };
                    assert(num@ =~= num0 + powered);
                }
            } else if p.lt_value(&zero) {
                if !den.as_str().is_empty() {
                    push_char(&mut den, '*');
                }
                den.append(sh.as_str());
                if !p.eq_value(&minus_one) {
                    push_char(&mut den, '^');
                    let ps = p.neg().to_decimal_string();
                    den.append(ps.as_str());
                }
                proof {
                    let piece = if den0.len() > 0 {
                        seq!['*'] + shv
                    } else {
                        shv
                    };
                    let powered = if !same_value(pv, int_model(-1)) {
                        piece + seq!['^'] + spec_float_string(neg_model(pv))
                    } else {
                        piece
                    };
                    assert(den@ =~= den0 + powered);
                }
            }
            i = i + 1;
        }
        if !den.as_str().is_empty() {
            push_char(&mut num, '/');
            num.append(den.as_str());
        }
        num
    }
}

/// The compound tag inside entry `i` of the dimension, if any, is well
/// formed.
pub open spec fn quantity_wf_at(s: Seq<DimEntry>, i: int) -> bool {
    0 <= i < s.len() ==> crate::dimension::quantity_wf(s[i].0)
}

/// The display text of a value: the canonical number, then the dimension
/// after one space when there is one.
pub open spec fn spec_display_value(v: ValueModel) -> Seq<char> {
    let num = spec_float_string(v.number);
    let dim = spec_dimension_string(v.dimension);
    if dim.len() > 0 {
        num + seq![' '] + dim
    } else {
        num
    }
}

/// Renders a value for display.
pub fn display_value(val: Value) -> (r: String)
    requires
        val.wf(),
    ensures
        r@ == spec_display_value(val@),
{
    let (number, dimension) = val.into_parts();
    let mut output = number.to_decimal_string();
    let dim_string = dimension.to_display_string();
    if !dim_string.as_str().is_empty() {
        push_char(&mut output, ' ');
        output.append(dim_string.as_str());
    }
    output
}

} // verus!

//! Chemical elements and compounds.
//!
//! An [`Element`] is a handle into the periodic-table data source, carried as
//! its atomic number. A [`Compound`] maps elements to positive multiplicities,
//! kept sorted by atomic number so equal formulas written in different orders
//! compare equal. [`Compound::parse`] reads formulas such as `Ca(OH)2`.
//!
//! Atomic masses come from the table as low-precision scalars; chemistry
//! conversions inherit that precision by design.

use vstd::prelude::*;
use vstd::string::StrSliceExecFns;
use crate::float::{add_model, int_model, mul_model, Float, FloatModel};
use crate::text::{
    char_is_upper, clamped_digits_val, dec_string, is_upper, scan_digits, scan_lower,
    skip_digits, skip_lower, read_digits, to_char_vec, u64_to_string,
};

verus! {

/// The atomic number the periodic table assigns to a chemical symbol, if any.
pub uninterp spec fn element_of_symbol(sym: Seq<char>) -> Option<u8>;

/// The symbol the periodic table spells an element with.
pub uninterp spec fn symbol_of_element(z: u8) -> Seq<char>;

/// The atomic mass of an element, read from the table's decimal text at the
/// working precision.
pub uninterp spec fn mass_of_element(z: u8) -> FloatModel;

/// True of text that sorts at or above `Ac`, the first symbol of the
/// periodic table: the first character is an ASCII capital, and a leading `A`
/// is followed by a character at least `c`. The table's binary search
/// underflows on text below its first entry, so lookups stay in this range;
/// every element symbol lies in it.
pub open spec fn symbol_in_table_range(s: Seq<char>) -> bool {
    &&& s.len() > 0
    &&& is_upper(s[0])
    &&& (s[0] == 'A' ==> s.len() >= 2 && s[1] as u32 >= 99)
}

/// Relies on periodic_table_on_an_enum::Element::from_symbol and
/// get_atomic_number: looks a chemical symbol up; the table's atomic numbers
/// are 1 through 118. Its binary search moves its upper bound below zero for
/// text that sorts below the table's first symbol, `Ac`, so such text is
/// excluded here.
#[verifier::external_body]
fn lookup_symbol(sym: &str) -> (r: Option<u8>)
    requires
        symbol_in_table_range(sym@),
    ensures
        r == element_of_symbol(sym@),
        r matches Some(z) ==> 1 <= z <= 118,
{
    periodic_table_on_an_enum::Element::from_symbol(sym).map(|e| e.get_atomic_number() as u8)
}

/// The element a piece of text names: a table lookup for text in the range
/// the table's search accepts; no element symbol lies outside that range, so
/// other text names no element.
pub open spec fn spec_element_lookup(s: Seq<char>) -> Option<u8> {
    if symbol_in_table_range(s) {
        element_of_symbol(s)
    } else {
        None
    }
}

/// Looks a symbol up, keeping the table's search inside its range.
fn element_lookup(sym: &str) -> (r: Option<u8>)
    ensures
        r == spec_element_lookup(sym@),
        r matches Some(z) ==> 1 <= z <= 118,
{
    let n = sym.unicode_len();
    if n == 0 {
        return None;
    }
    let c0 = sym.get_char(0);
    if !char_is_upper(c0) {
        return None;
    }
    if c0 == 'A' && (n == 1 || (sym.get_char(1) as u32) < 99) {
        return None;
    }
    lookup_symbol(sym)
}

/// Relies on periodic_table_on_an_enum::Element::from_atomic_number and
/// get_symbol: every atomic number from 1 through 118 has an element, whose
/// symbol this returns.
#[verifier::external_body]
fn element_symbol_text(z: u8) -> (r: String)
    requires
        1 <= z <= 118,
    ensures
        r@ == symbol_of_element(z),
{
    periodic_table_on_an_enum::Element::from_atomic_number(z as usize)
        .expect("atomic number in table range")
        .get_symbol()
        .to_string()
}

/// Relies on periodic_table_on_an_enum::Element::get_atomic_mass, whose
/// decimal text BigFloat::parse reads back; the table's masses are plain
/// finite decimals.
#[verifier::external_body]
fn element_mass(z: u8) -> (r: Float)
    requires
        1 <= z <= 118,
    ensures
        r@ == mass_of_element(z),
{
    let m = periodic_table_on_an_enum::Element::from_atomic_number(z as usize)
        .expect("atomic number in table range")
        .get_atomic_mass();
    Float::parse(&m.to_string()).expect("a finite decimal")
}

/// An element of the periodic table, held as its atomic number.
#[derive(Debug, Clone, Copy, PartialEq, Eq, Structural)]
pub struct Element {
    z: u8,
}

impl View for Element {
    type V = u8;

    closed spec fn view(&self) -> u8 {
        self.z
    }
}

impl Element {
    /// The handle is within the table: atomic numbers run 1 through 118.
    pub open spec fn wf(&self) -> bool {
        1 <= self@ <= 118
    }

    /// Looks an element up by its chemical symbol.
    pub fn from_symbol(sym: &str) -> (r: Option<Element>)
        ensures
            r matches Some(e) ==> spec_element_lookup(sym@) == Some(e@) && e.wf(),
            r is None <==> spec_element_lookup(sym@) is None,
    {
        match element_lookup(sym) {
            Some(z) => Some(Element { z }),
            None => None,
        }
    }

    /// Looks an element up by atomic number; the table runs 1 through 118.
    pub fn from_atomic_number(z: usize) -> (r: Option<Element>)
        ensures
            r matches Some(e) ==> e@ == z && e.wf(),
            r is Some <==> 1 <= z <= 118,
    {
        if 1 <= z && z <= 118 {
            Some(Element { z: z as u8 })
        } else {
            None
        }
    }

    pub fn atomic_number(&self) -> (r: u8)
        ensures
            r == self@,
    {
        self.z
    }

    /// The chemical symbol of this element.
    pub fn symbol(&self) -> (r: String)
        requires
            self.wf(),
        ensures
            r@ == symbol_of_element(self@),
    {
        element_symbol_text(self.z)
    }

    /// The atomic mass in unified atomic-mass units, as a number at the
    /// working precision. The underlying table stores a low-precision scalar.
    pub fn atomic_mass(&self) -> (r: Float)
        requires
            self.wf(),
        ensures
            r@ == mass_of_element(self@),
    {
        element_mass(self.z)
    }
}

/// Saturating add on multiplicities.
pub open spec fn sat_add16(a: u16, b: u16) -> u16 {
    if a + b > 65535 {
        65535
    } else {
        (a + b) as u16
    }
}

/// A natural number clamped into a multiplicity.
pub open spec fn to_u16_sat(n: nat) -> u16 {
    if n > 65535 {
        65535
    } else {
        n as u16
    }
}

/// Adds `n` to the multiplicity of `z` in a sorted element-count sequence,
/// inserting the element in order when absent.
pub open spec fn spec_add_count(s: Seq<(u8, u16)>, z: u8, n: u16) -> Seq<(u8, u16)>
    decreases s.len(),
{
    if s.len() == 0 {
        seq![(z, n)]
    } else if s[0].0 == z {
        seq![(z, sat_add16(s[0].1, n))] + s.subrange(1, s.len() as int)
    } else if z < s[0].0 {
        seq![(z, n)] + s
    } else {
        seq![s[0]] + spec_add_count(s.subrange(1, s.len() as int), z, n)
    }
}

/// Well-formed element counts: table-range elements with positive
/// multiplicities, strictly sorted by atomic number.
pub open spec fn counts_wf(s: Seq<(u8, u16)>) -> bool {
    &&& forall|i: int| 0 <= i < s.len() ==> 1 <= (#[trigger] s[i]).0 <= 118 && s[i].1 >= 1
    &&& forall|i: int, j: int| 0 <= i < j < s.len() ==> s[i].0 < s[j].0
}

proof fn lemma_add_count_at(s: Seq<(u8, u16)>, z: u8, n: u16, idx: int)
    requires
        0 <= idx <= s.len(),
        forall|k: int| 0 <= k < idx ==> (#[trigger] s[k]).0 < z,
        idx < s.len() ==> s[idx].0 >= z,
    ensures
        (idx < s.len() && s[idx].0 == z) ==> spec_add_count(s, z, n) =~= s.update(
            idx,
            (z, sat_add16(s[idx].1, n)),
        ),
        !(idx < s.len() && s[idx].0 == z) ==> spec_add_count(s, z, n) =~= s.insert(idx, (z, n)),
    decreases s.len(),
{
    if s.len() == 0 {
        assert(spec_add_count(s, z, n) =~= s.insert(0, (z, n)));
    } else if idx == 0 {
        if s[0].0 == z {
            assert(spec_add_count(s, z, n) =~= s.update(0, (z, sat_add16(s[0].1, n))));
        } else {
            assert(z < s[0].0);
            assert(spec_add_count(s, z, n) =~= s.insert(0, (z, n)));
        }
    } else {
        assert(s[0].0 < z);
        let tail = s.subrange(1, s.len() as int);
        lemma_add_count_at(tail, z, n, idx - 1);
        if idx < s.len() && s[idx].0 == z {
            assert(tail[idx - 1].0 == z);
            assert(spec_add_count(s, z, n) =~= s.update(idx, (z, sat_add16(s[idx].1, n))));
        } else {
            assert(spec_add_count(s, z, n) =~= s.insert(idx, (z, n)));
        }
    }
}

/// An element-multiplicity map in insertion-sorted order by atomic number.
#[derive(Debug)]
pub struct Compound {
    parts: Vec<(u8, u16)>,
}

impl Clone for Compound {
    fn clone(&self) -> (r: Self)
        ensures
            r@ == self@,
    {
        let mut parts: Vec<(u8, u16)> = Vec::new();
        let mut i: usize = 0;
        while i < self.parts.len()
            invariant
                i <= self.parts@.len(),
                parts@ == self.parts@.subrange(0, i as int),
            decreases self.parts@.len() - i,
        {
            parts.push(self.parts[i]);
            proof {
                assert(parts@ =~= self.parts@.subrange(0, i as int + 1));
            }
            i = i + 1;
        }
        proof {
            assert(self.parts@.subrange(0, self.parts@.len() as int) =~= self.parts@);
        }
        Compound { parts }
    }
}

impl View for Compound {
    type V = Seq<(u8, u16)>;

    closed spec fn view(&self) -> Seq<(u8, u16)> {
        self.parts@
    }
}

impl Compound {
    pub open spec fn wf(&self) -> bool {
        counts_wf(self@)
    }

    /// The compound with no elements.
    pub fn empty() -> (r: Compound)
        ensures
            r@ == Seq::<(u8, u16)>::empty(),
            r.wf(),
    {
        Compound { parts: Vec::new() }
    }

    pub fn len(&self) -> (r: usize)
        ensures
            r == self@.len(),
    {
        self.parts.len()
    }

    /// Adds `n` atoms of the element with atomic number `z`, saturating the
    /// multiplicity.
    fn add_count(&mut self, z: u8, n: u16)
        requires
            old(self).wf(),
            1 <= z <= 118,
            n >= 1,
        ensures
            final(self)@ == spec_add_count(old(self)@, z, n),
            final(self).wf(),
    {
        let ghost s0 = self@;
        let mut idx: usize = 0;
        while idx < self.parts.len() && self.parts[idx].0 < z
            invariant
                idx <= self@.len(),
                self@ == s0,
                forall|k: int| 0 <= k < idx ==> (#[trigger] self@[k]).0 < z,
            decreases self@.len() - idx,
        {
            idx = idx + 1;
        }
        proof {
            lemma_add_count_at(s0, z, n, idx as int);
        }
        if idx < self.parts.len() && self.parts[idx].0 == z {
            let c = self.parts[idx].1;
            let m: u16 = if c as u32 + n as u32 > 65535 {
                65535
            } else {
                c + n
            };
            self.parts.set(idx, (z, m));
            proof {
                assert(self@ =~= s0.update(idx as int, (z, sat_add16(s0[idx as int].1, n))));
            }
        } else {
            self.parts.insert(idx, (z, n));
            proof {
                assert(self@ =~= s0.insert(idx as int, (z, n)));
            }
        }
    }

    /// Adds `n` atoms of an element, keeping the map sorted.
    pub fn insert_element(&mut self, e: Element, n: u16)
        requires
            old(self).wf(),
            e.wf(),
            n >= 1,
        ensures
            final(self)@ == spec_add_count(old(self)@, e@, n),
            final(self).wf(),
    {
        self.add_count(e.atomic_number(), n);
    }

    /// True when the two compounds hold the same elements with the same
    /// multiplicities.
    pub fn eq_compound(&self, other: &Compound) -> (r: bool)
        ensures
            r == (self@ == other@),
    {
        if self.parts.len() != other.parts.len() {
            return false;
        }
        let mut i: usize = 0;
        while i < self.parts.len()
            invariant
                i <= self@.len(),
                self@.len() == other@.len(),
                forall|k: int| 0 <= k < i ==> self@[k] == other@[k],
            decreases self@.len() - i,
        {
            let a = self.parts[i];
            let b = other.parts[i];
            if a.0 != b.0 || a.1 != b.1 {
                return false;
            }
            i = i + 1;
        }
        proof {
            assert(self@ =~= other@);
        }
        true
    }
}

/// The multiplier that follows an element or a closing parenthesis: the
/// digits' value, with no digits, zero, or an overflowing value read as one.
pub open spec fn clamp_mult(digits: Seq<char>) -> nat {
    let v = clamped_digits_val(digits);
    if v == 0 || v > 0x7FFF_FFFF {
        1
    } else {
        v
    }
}

/// A multiplicity scaled by a group multiplier, saturating.
pub open spec fn spec_mul_sat(c: u16, m: nat) -> u16 {
    to_u16_sat((c * m) as nat)
}

/// Merges a finished parenthesised group, scaled by its multiplier, into the
/// enclosing group.
pub open spec fn spec_merge_scaled(base: Seq<(u8, u16)>, top: Seq<(u8, u16)>, m: nat) -> Seq<
    (u8, u16),
>
    decreases top.len(),
{
    if top.len() == 0 {
        base
    } else {
        spec_merge_scaled(
            spec_add_count(base, top[0].0, spec_mul_sat(top[0].1, m)),
            top.subrange(1, top.len() as int),
            m,
        )
    }
}

/// A position clamped into a range.
pub open spec fn clamp_pos(j: nat, lo: nat, hi: nat) -> nat {
    if j < lo {
        lo
    } else if j > hi {
        hi
    } else {
        j
    }
}

/// One step of the formula parser: an explicit stack of partial maps, `(`
/// pushing, `)` popping and merging with an optional multiplier, and
/// otherwise an element symbol (one leading character plus lowercase letters)
/// with an optional multiplier. The formula is accepted when exactly one map
/// remains.
pub open spec fn spec_parse_step(s: Seq<char>, i: nat, stack: Seq<Seq<(u8, u16)>>) -> Option<
    Seq<(u8, u16)>,
>
    decreases s.len() - i,
{
    if i >= s.len() {
        if stack.len() == 1 {
            Some(stack[0])
        } else {
            None
        }
    } else if s[i as int] == '(' {
        spec_parse_step(s, i + 1, stack.push(Seq::empty()))
    } else if s[i as int] == ')' {
        if stack.len() <= 1 {
            None
        } else {
            let top = stack.last();
            let rest = stack.drop_last();
            let j = clamp_pos(scan_digits(s, i + 1), i + 1, s.len());
            let m = clamp_mult(s.subrange(i as int + 1, j as int));
            let merged = spec_merge_scaled(rest.last(), top, m);
            spec_parse_step(s, j, rest.drop_last().push(merged))
        }
    } else {
        let j = clamp_pos(scan_lower(s, i + 1), i + 1, s.len());
        let k = clamp_pos(scan_digits(s, j), j, s.len());
        let m = clamp_mult(s.subrange(j as int, k as int));
        match spec_element_lookup(s.subrange(i as int, j as int)) {
            None => None,
            Some(z) => spec_parse_step(
                s,
                k,
                stack.drop_last().push(spec_add_count(stack.last(), z, to_u16_sat(m))),
            ),
        }
    }
}

/// What parsing a whole formula yields: the single map left on the stack, or
/// nothing for an unknown symbol or unbalanced parentheses.
pub open spec fn spec_parse_compound(s: Seq<char>) -> Option<Seq<(u8, u16)>> {
    spec_parse_step(s, 0, seq![Seq::<(u8, u16)>::empty()])
}

/// The views of a stack of compounds.
pub open spec fn views_of(st: Seq<Compound>) -> Seq<Seq<(u8, u16)>> {
    st.map_values(|c: Compound| c@)
}

fn mul_sat16(c: u16, m: u64) -> (r: u16)
    requires
        m <= 0x7FFF_FFFF,
    ensures
        r == spec_mul_sat(c, m as nat),
{
    proof {
        assert((c as u64) * m <= 65535 * 0x7FFF_FFFFu64) by (nonlinear_arith)
            requires
                c <= 65535 && m <= 0x7FFF_FFFF,
        ;
    }
    let p: u64 = (c as u64) * m;
    if p > 65535 {
        65535
    } else {
        p as u16
    }
}

impl Compound {
    /// Parses a chemical formula over element symbols, digits and matched
    /// parentheses into an element-multiplicity map.
    pub fn parse(formula: &str) -> (r: Option<Compound>)
        ensures
            r matches Some(c) ==> spec_parse_compound(formula@) == Some(c@) && c.wf(),
            r is None <==> spec_parse_compound(formula@) is None,
    {
        let chars = to_char_vec(formula);
        let ghost s = formula@;
        let mut stack: Vec<Compound> = Vec::new();
        stack.push(Compound::empty());
        proof {
            assert(views_of(stack@) =~= seq![Seq::<(u8, u16)>::empty()]);
        }
        let mut i: usize = 0;
        while i < chars.len()
            invariant
                chars@ == s,
                formula@ == s,
                i <= s.len(),
                stack@.len() >= 1,
                forall|k: int| 0 <= k < stack@.len() ==> (#[trigger] stack@[k]).wf(),
                spec_parse_step(s, i as nat, views_of(stack@)) == spec_parse_compound(s),
            decreases s.len() - i,
        {
            let ghost views0 = views_of(stack@);
            let c = chars[i];
            if c == '(' {
                stack.push(Compound::empty());
                proof {
                    assert(views_of(stack@) =~= views0.push(Seq::<(u8, u16)>::empty()));
                }
                i = i + 1;
            } else if c == ')' {
                if stack.len() == 1 {
                    proof {
                        assert(views0.len() == 1);
                        assert(i < s.len() && s[i as int] == ')');
                        assert(spec_parse_step(s, i as nat, views0) is None);
                        assert(spec_parse_compound(s) is None);
                    }
                    return None;
                }
                let top = stack.pop().unwrap();
                let mut base = stack.pop().unwrap();
                proof {
                    assert(views0.last() == top@);
                    assert(views0.drop_last().last() == base@);
                }
                let j = skip_digits(&chars, i + 1);
                let v = read_digits(&chars, i + 1, j);
                let m: u64 = if v == 0 || v > 0x7FFF_FFFF {
                    1
                } else {
                    v
                };
                proof {
                    assert(m == clamp_mult(s.subrange(i as int + 1, j as int)));
                    assert(clamp_pos(scan_digits(s, i as nat + 1), i as nat + 1, s.len())
                        == j as nat);
                }
                let ghost mult = m as nat;
                let ghost basev0 = base@;
                let ghost topv = top@;
                let mut k: usize = 0;
                proof {
                    assert(topv.subrange(0, topv.len() as int) =~= topv);
                }
                while k < top.parts.len()
                    invariant
                        k <= topv.len(),
                        topv == top@,
                        top.wf(),
                        base.wf(),
                        m <= 0x7FFF_FFFF,
                        m >= 1,
                        mult == m as nat,
                        spec_merge_scaled(base@, topv.subrange(k as int, topv.len() as int), mult)
                            == spec_merge_scaled(basev0, topv, mult),
                    decreases topv.len() - k,
                {
                    let ghost rem = topv.subrange(k as int, topv.len() as int);
                    let (z, cnt) = top.parts[k];
                    let scaled = mul_sat16(cnt, m);
                    proof {
                        assert(rem[0] == topv[k as int]);
                        assert(scaled >= 1) by {
                            assert(cnt >= 1 && mult >= 1);
                            assert(cnt * mult >= 1) by (nonlinear_arith)
                                requires
                                    cnt >= 1 && mult >= 1,
                            ;
                        }
                    }
                    base.add_count(z, scaled);
                    proof {
                        assert(topv.subrange(k as int + 1, topv.len() as int) =~= rem.subrange(
                            1,
                            rem.len() as int,
                        ));
                    }
                    k = k + 1;
                }
                proof {
                    assert(topv.subrange(topv.len() as int, topv.len() as int)
                        =~= Seq::<(u8, u16)>::empty());
                    assert(base@ == spec_merge_scaled(basev0, topv, mult));
                }
                stack.push(base);
                proof {
                    assert(views_of(stack@) =~= views0.drop_last().drop_last().push(
                        spec_merge_scaled(views0.drop_last().last(), views0.last(), mult),
                    ));
                }
                i = j;
            } else {
                let start = i;
                let j = skip_lower(&chars, i + 1);
                let k = skip_digits(&chars, j);
                let v = read_digits(&chars, j, k);
                let m: u64 = if v == 0 || v > 0x7FFF_FFFF {
                    1
                } else {
                    v
                };
                proof {
                    assert(clamp_pos(scan_lower(s, i as nat + 1), i as nat + 1, s.len())
                        == j as nat);
                    assert(clamp_pos(scan_digits(s, j as nat), j as nat, s.len()) == k as nat);
                    assert(m == clamp_mult(s.subrange(j as int, k as int)));
                }
                let sym = formula.substring_char(start, j);
                match element_lookup(sym) {
                    None => {
                        proof {
                            assert(sym@ == s.subrange(start as int, j as int));
                            assert(spec_parse_step(s, i as nat, views0) is None);
                        }
                        return None;
                    },
                    Some(z) => {
                        let n: u16 = if m > 65535 {
                            65535
                        } else {
                            m as u16
                        };
                        proof {
                            assert(n == to_u16_sat(m as nat));
                        }
                        let mut topc = stack.pop().unwrap();
                        proof {
                            assert(views0.last() == topc@);
                        }
                        topc.add_count(z, n);
                        stack.push(topc);
                        proof {
                            assert(views_of(stack@) =~= views0.drop_last().push(
                                spec_add_count(views0.last(), z, to_u16_sat(m as nat)),
                            ));
                        }
                        i = k;
                    },
                }
            }
        }
        if stack.len() == 1 {
            let c = stack.pop().unwrap();
            proof {
                assert(views_of(stack@.push(c)).len() == 1);
                assert(spec_parse_compound(s) == Some(c@));
            }
            Some(c)
        } else {
            None
        }
    }

    /// The particulate mass: the sum over the elements of atomic mass times
    /// multiplicity, at the working precision.
    pub open spec fn spec_particulate_mass(s: Seq<(u8, u16)>) -> FloatModel
        decreases s.len(),
    {
        if s.len() == 0 {
            int_model(0)
        } else {
            add_model(
                Self::spec_particulate_mass(s.drop_last()),
                mul_model(mass_of_element(s.last().0), int_model(s.last().1 as int)),
            )
        }
    }

    pub fn particulate_mass(&self) -> (r: Float)
        requires
            self.wf(),
        ensures
            r@ == Self::spec_particulate_mass(self@),
    {
        let mut acc = Float::from_i64(0);
        let mut i: usize = 0;
        while i < self.parts.len()
            invariant
                i <= self@.len(),
                self.wf(),
                acc@ == Self::spec_particulate_mass(self@.subrange(0, i as int)),
            decreases self@.len() - i,
        {
            let (z, cnt) = self.parts[i];
            let m = element_mass(z);
            let contribution = m.mul(&Float::from_i64(cnt as i64));
            acc = acc.add(&contribution);
            proof {
                let cur = self@.subrange(0, i as int + 1);
                assert(cur.drop_last() =~= self@.subrange(0, i as int));
                assert(cur.last() == self@[i as int]);
            }
            i = i + 1;
        }
        proof {
            assert(self@.subrange(0, self@.len() as int) =~= self@);
        }
        acc
    }

    /// The formula text: symbols in atomic-number order, each followed by its
    /// multiplicity when above one.
    pub open spec fn spec_formula(s: Seq<(u8, u16)>) -> Seq<char>
        decreases s.len(),
    {
        if s.len() == 0 {
            Seq::empty()
        } else {
            let head = if s[0].1 > 1 {
                symbol_of_element(s[0].0) + dec_string(s[0].1 as nat)
            } else {
                symbol_of_element(s[0].0)
            };
            head + Self::spec_formula(s.subrange(1, s.len() as int))
        }
    }

    pub fn formula_string(&self) -> (r: String)
        requires
            self.wf(),
        ensures
            r@ == Self::spec_formula(self@),
    {
        let mut out = String::new();
        let mut i: usize = 0;
        proof {
            assert(self@.subrange(0, self@.len() as int) =~= self@);
            assert(Seq::<char>::empty() + Self::spec_formula(self@) =~= Self::spec_formula(
                self@,
            ));
        }
        while i < self.parts.len()
            invariant
                i <= self@.len(),
                self.wf(),
                out@ + Self::spec_formula(self@.subrange(i as int, self@.len() as int))
                    == Self::spec_formula(self@),
            decreases self@.len() - i,
        {
            let ghost rem = self@.subrange(i as int, self@.len() as int);
            let (z, cnt) = self.parts[i];
            proof {
                assert(rem[0] == self@[i as int]);
            }
            let sym = element_symbol_text(z);
            out.append(sym.as_str());
            if cnt > 1 {
                let digits = u64_to_string(cnt as u64);
                out.append(digits.as_str());
            }
            proof {
                assert(self@.subrange(i as int + 1, self@.len() as int) =~= rem.subrange(
                    1,
                    rem.len() as int,
                ));
            }
            i = i + 1;
        }
        proof {
            assert(self@.subrange(self@.len() as int, self@.len() as int) =~= Seq::<(
                u8,
                u16,
            )>::empty());
        }
        out
    }
}

} // verus!

//! The dimension algebra: canonical products of powers of physical
//! quantities, with optional chemical-compound tags on mass and amount, the
//! cross-kind conversion ratio (bridging mass and amount through a compound's
//! molar mass), and unit reconciliation for multiplication.

use vstd::prelude::*;
use crate::chem::{counts_wf, Compound};
use crate::float::{
    add_model, div_model, int_model, model_is_zero, mul_model, neg_model, pow_model, same_value,
    Float, FloatModel,
};
use crate::text::push_char;
use crate::units::{AmountUnit, AngleUnit, LengthUnit, MassUnit, TimeUnit};

verus! {

/// The physical dimension categories.
#[derive(Debug, Clone, Copy, PartialEq, Eq, Structural)]
pub enum QuantityKind {
    Length,
    Time,
    Mass,
    Amount,
    Angle,
}

/// A named unit of one quantity kind; mass and amount optionally carry the
/// chemical compound the quantity is of.
#[derive(Debug)]
pub enum Quantity {
    Length(LengthUnit),
    Time(TimeUnit),
    Mass(MassUnit, Option<Compound>),
    Amount(AmountUnit, Option<Compound>),
    Angle(AngleUnit),
}

/// The view of a quantity: the same shape with the compound read as its
/// element-count sequence.
pub enum QuantityModel {
    Length(LengthUnit),
    Time(TimeUnit),
    Mass(MassUnit, Option<Seq<(u8, u16)>>),
    Amount(AmountUnit, Option<Seq<(u8, u16)>>),
    Angle(AngleUnit),
}

impl View for Quantity {
    type V = QuantityModel;

    closed spec fn view(&self) -> QuantityModel {
        match self {
            Quantity::Length(u) => QuantityModel::Length(*u),
            Quantity::Time(u) => QuantityModel::Time(*u),
            Quantity::Mass(u, c) => QuantityModel::Mass(
                *u,
                match c {
                    Some(cc) => Some(cc@),
                    None => None,
                },
            ),
            Quantity::Amount(u, c) => QuantityModel::Amount(
                *u,
                match c {
                    Some(cc) => Some(cc@),
                    None => None,
                },
            ),
            Quantity::Angle(u) => QuantityModel::Angle(*u),
        }
    }
}

/// The kind of a quantity.
pub open spec fn spec_kind(q: QuantityModel) -> QuantityKind {
    match q {
        QuantityModel::Length(_) => QuantityKind::Length,
        QuantityModel::Time(_) => QuantityKind::Time,
        QuantityModel::Mass(_, _) => QuantityKind::Mass,
        QuantityModel::Amount(_, _) => QuantityKind::Amount,
        QuantityModel::Angle(_) => QuantityKind::Angle,
    }
}

/// The ratio of a quantity's unit to its kind's base unit.
pub open spec fn spec_unit_ratio(q: QuantityModel) -> FloatModel {
    match q {
        QuantityModel::Length(u) => u.spec_ratio(),
        QuantityModel::Time(u) => u.spec_ratio(),
        QuantityModel::Mass(u, _) => u.spec_ratio(),
        QuantityModel::Amount(u, _) => u.spec_ratio(),
        QuantityModel::Angle(u) => u.spec_ratio(),
    }
}

/// A quantity's compound tag, when it carries one, is a well-formed map.
pub open spec fn quantity_wf(q: QuantityModel) -> bool {
    match q {
        QuantityModel::Mass(_, Some(c)) => counts_wf(c),
        QuantityModel::Amount(_, Some(c)) => counts_wf(c),
        _ => true,
    }
}

/// A quantity named by a piece of text: each kind is scanned in declaration
/// order (length, time, mass, amount, angle) and the first match wins.
pub open spec fn spec_quantity_from_text(s: Seq<char>) -> Option<QuantityModel> {
    if LengthUnit::spec_from_text(s) is Some {
        Some(QuantityModel::Length(LengthUnit::spec_from_text(s)->Some_0))
    } else if TimeUnit::spec_from_text(s) is Some {
        Some(QuantityModel::Time(TimeUnit::spec_from_text(s)->Some_0))
    } else if MassUnit::spec_from_text(s) is Some {
        Some(QuantityModel::Mass(MassUnit::spec_from_text(s)->Some_0, None))
    } else if AmountUnit::spec_from_text(s) is Some {
        Some(QuantityModel::Amount(AmountUnit::spec_from_text(s)->Some_0, None))
    } else if AngleUnit::spec_from_text(s) is Some {
        Some(QuantityModel::Angle(AngleUnit::spec_from_text(s)->Some_0))
    } else {
        None
    }
}

impl Clone for Quantity {
    fn clone(&self) -> (r: Self)
        ensures
            r@ == self@,
    {
        match self {
            Quantity::Length(u) => Quantity::Length(*u),
            Quantity::Time(u) => Quantity::Time(*u),
            Quantity::Mass(u, c) => Quantity::Mass(
                *u,
                match c {
                    Some(cc) => Some(cc.clone()),
                    None => None,
                },
            ),
            Quantity::Amount(u, c) => Quantity::Amount(
                *u,
                match c {
                    Some(cc) => Some(cc.clone()),
                    None => None,
                },
            ),
            Quantity::Angle(u) => Quantity::Angle(*u),
        }
    }
}

impl Quantity {
    pub open spec fn wf(&self) -> bool {
        quantity_wf(self@)
    }

    /// Looks a unit name up across the kinds, in their fixed order.
    pub fn from_text(s: &str) -> (r: Option<Quantity>)
        ensures
            r matches Some(q) ==> spec_quantity_from_text(s@) == Some(q@) && q.wf(),
            r is None <==> spec_quantity_from_text(s@) is None,
    {
        if let Some(u) = LengthUnit::from_text(s) {
            Some(Quantity::Length(u))
        } else if let Some(u) = TimeUnit::from_text(s) {
            Some(Quantity::Time(u))
        } else if let Some(u) = MassUnit::from_text(s) {
            Some(Quantity::Mass(u, None))
        } else if let Some(u) = AmountUnit::from_text(s) {
            Some(Quantity::Amount(u, None))
        } else if let Some(u) = AngleUnit::from_text(s) {
            Some(Quantity::Angle(u))
        } else {
            None
        }
    }

    /// Tags a mass or amount with the compound it measures; other kinds are
    /// returned unchanged.
    pub fn with_chemical(self, compound: Compound) -> (r: Quantity)
        ensures
            r@ == match self@ {
                QuantityModel::Mass(u, _) => QuantityModel::Mass(u, Some(compound@)),
                QuantityModel::Amount(u, _) => QuantityModel::Amount(u, Some(compound@)),
                _ => self@,
            },
    {
        match self {
            Quantity::Mass(u, _) => Quantity::Mass(u, Some(compound)),
            Quantity::Amount(u, _) => Quantity::Amount(u, Some(compound)),
            _ => self,
        }
    }

    pub fn quantity_kind(&self) -> (r: QuantityKind)
        ensures
            r == spec_kind(self@),
    {
        match self {
            Quantity::Length(_) => QuantityKind::Length,
            Quantity::Time(_) => QuantityKind::Time,
            Quantity::Mass(_, _) => QuantityKind::Mass,
            Quantity::Amount(_, _) => QuantityKind::Amount,
            Quantity::Angle(_) => QuantityKind::Angle,
        }
    }

    /// The ratio of this quantity's unit to its kind's base unit.
    pub fn get_ratio(&self) -> (r: Float)
        ensures
            r@ == spec_unit_ratio(self@),
    {
        match self {
            Quantity::Length(u) => u.ratio(),
            Quantity::Time(u) => u.ratio(),
            Quantity::Mass(u, _) => u.ratio(),
            Quantity::Amount(u, _) => u.ratio(),
            Quantity::Angle(u) => u.ratio(),
        }
    }

    /// The quantity's short symbol; a compound tag follows after a space.
    pub open spec fn spec_shorthand(q: QuantityModel) -> Seq<char> {
        match q {
            QuantityModel::Length(u) => u.spec_shorthand(),
            QuantityModel::Time(u) => u.spec_shorthand(),
            QuantityModel::Mass(u, None) => u.spec_shorthand(),
            QuantityModel::Mass(u, Some(c)) => u.spec_shorthand() + seq![' ']
                + Compound::spec_formula(c),
            QuantityModel::Amount(u, None) => u.spec_shorthand(),
            QuantityModel::Amount(u, Some(c)) => u.spec_shorthand() + seq![' ']
                + Compound::spec_formula(c),
            QuantityModel::Angle(u) => u.spec_shorthand(),
        }
    }

    pub fn shorthand(&self) -> (r: String)
        requires
            self.wf(),
        ensures
            r@ == Self::spec_shorthand(self@),
    {
        match self {
            Quantity::Length(u) => u.shorthand(),
            Quantity::Time(u) => u.shorthand(),
            Quantity::Mass(u, c) => {
                match c {
                    None => u.shorthand(),
                    Some(cc) => {
                        let mut s = u.shorthand();
                        push_char(&mut s, ' ');
                        let f = cc.formula_string();
                        s.append(f.as_str());
                        proof {
                            assert(s@ == u.spec_shorthand() + seq![' '] + Compound::spec_formula(
                                cc@,
                            ));
                        }
                        s
                    },
                }
            },
            Quantity::Amount(u, c) => {
                match c {
                    None => u.shorthand(),
                    Some(cc) => {
                        let mut s = u.shorthand();
                        push_char(&mut s, ' ');
                        let f = cc.formula_string();
                        s.append(f.as_str());
                        proof {
                            assert(s@ == u.spec_shorthand() + seq![' '] + Compound::spec_formula(
                                cc@,
                            ));
                        }
                        s
                    },
                }
            },
            Quantity::Angle(u) => u.shorthand(),
        }
    }

    /// Structural equality of quantities, compounds compared as maps.
    pub fn eq_quantity(&self, other: &Quantity) -> (r: bool)
        ensures
            r == (self@ == other@),
    {
        match (self, other) {
            (Quantity::Length(a), Quantity::Length(b)) => a == b,
            (Quantity::Time(a), Quantity::Time(b)) => a == b,
            (Quantity::Mass(a, c1), Quantity::Mass(b, c2)) => a == b && match (c1, c2) {
                (None, None) => true,
                (Some(x), Some(y)) => x.eq_compound(y),
                _ => false,
            },
            (Quantity::Amount(a, c1), Quantity::Amount(b, c2)) => a == b && match (c1, c2) {
                (None, None) => true,
                (Some(x), Some(y)) => x.eq_compound(y),
                _ => false,
            },
            (Quantity::Angle(a), Quantity::Angle(b)) => a == b,
            _ => false,
        }
    }
}

/// One factor of a dimension: a quantity and its (arbitrary-precision)
/// exponent.
pub type DimEntry = (QuantityModel, FloatModel);

/// The view of a list of quantity-power pairs.
pub open spec fn entries_view(v: Seq<(Quantity, Float)>) -> Seq<DimEntry> {
    v.map_values(|p: (Quantity, Float)| (p.0@, p.1@))
}

/// The pointwise reading of an entry list's view.
pub proof fn lemma_entries_view(v: Seq<(Quantity, Float)>)
    ensures
        entries_view(v).len() == v.len(),
        forall|k: int|
            0 <= k < v.len() ==> #[trigger] entries_view(v)[k] == ((v[k].0@, v[k].1@)),
{
}

/// An ordered product of quantities raised to powers; the empty sequence is
/// the unitless dimension.
#[derive(Debug)]
pub struct Dimension {
    parts: Vec<(Quantity, Float)>,
}

impl View for Dimension {
    type V = Seq<DimEntry>;

    closed spec fn view(&self) -> Seq<DimEntry> {
        entries_view(self.parts@)
    }
}

/// All compound tags inside a dimension are well-formed maps.
pub open spec fn dim_wf(s: Seq<DimEntry>) -> bool {
    forall|i: int| 0 <= i < s.len() ==> quantity_wf((#[trigger] s[i]).0)
}

/// Folds one quantity-power pair into an accumulated list: the power is added
/// to the first entry with an equal quantity, or the pair is appended.
pub open spec fn spec_fold_one(acc: Seq<DimEntry>, q: QuantityModel, p: FloatModel) -> Seq<
    DimEntry,
>
    decreases acc.len(),
{
    if acc.len() == 0 {
        seq![(q, p)]
    } else if acc[0].0 == q {
        seq![(q, add_model(p, acc[0].1))] + acc.subrange(1, acc.len() as int)
    } else {
        seq![acc[0]] + spec_fold_one(acc.subrange(1, acc.len() as int), q, p)
    }
}

/// Folds a whole entry list, in order, onto an accumulator.
pub open spec fn spec_fold(acc: Seq<DimEntry>, s: Seq<DimEntry>) -> Seq<DimEntry>
    decreases s.len(),
{
    if s.len() == 0 {
        acc
    } else {
        spec_fold(spec_fold_one(acc, s[0].0, s[0].1), s.subrange(1, s.len() as int))
    }
}

/// Drops the entries whose power is zero, keeping order.
pub open spec fn spec_drop_zeros(s: Seq<DimEntry>) -> Seq<DimEntry>
    decreases s.len(),
{
    if s.len() == 0 {
        s
    } else if model_is_zero(s.last().1) {
        spec_drop_zeros(s.drop_last())
    } else {
        spec_drop_zeros(s.drop_last()).push(s.last())
    }
}

/// The canonical form: equal quantities folded together by summing exponents
/// (order of first occurrence kept), then zero exponents dropped.
pub open spec fn spec_simplify(s: Seq<DimEntry>) -> Seq<DimEntry> {
    spec_drop_zeros(spec_fold(Seq::empty(), s))
}

proof fn lemma_fold_one_at(acc: Seq<DimEntry>, q: QuantityModel, p: FloatModel, idx: int)
    requires
        0 <= idx <= acc.len(),
        forall|k: int| 0 <= k < idx ==> (#[trigger] acc[k]).0 != q,
        idx < acc.len() ==> acc[idx].0 == q,
    ensures
        idx < acc.len() ==> spec_fold_one(acc, q, p) =~= acc.update(
            idx,
            (q, add_model(p, acc[idx].1)),
        ),
        idx == acc.len() ==> spec_fold_one(acc, q, p) =~= acc.push((q, p)),
    decreases acc.len(),
{
    if acc.len() == 0 {
        assert(spec_fold_one(acc, q, p) =~= acc.push((q, p)));
    } else if idx == 0 {
        if acc[0].0 == q {
            assert(spec_fold_one(acc, q, p) =~= acc.update(0, (q, add_model(p, acc[0].1))));
        }
    } else {
        let tail = acc.subrange(1, acc.len() as int);
        lemma_fold_one_at(tail, q, p, idx - 1);
        if idx < acc.len() {
            assert(tail[idx - 1].0 == q);
            assert(spec_fold_one(acc, q, p) =~= acc.update(idx, (q, add_model(p, acc[idx].1))));
        } else {
            assert(spec_fold_one(acc, q, p) =~= acc.push((q, p)));
        }
    }
}

/// Sanity: no two entries name the same quantity kind with different units or
/// tags, so each kind has one consistent unit choice.
pub open spec fn spec_sane(s: Seq<DimEntry>) -> bool {
    forall|i: int, j: int|
        0 <= i < s.len() && 0 <= j < s.len() && spec_kind((#[trigger] s[i]).0) == spec_kind(
            (#[trigger] s[j]).0,
        ) ==> s[i].0 == s[j].0
}

/// Structural equality of dimensions, powers compared as values.
pub open spec fn spec_dim_eq(a: Seq<DimEntry>, b: Seq<DimEntry>) -> bool {
    &&& a.len() == b.len()
    &&& forall|i: int|
        0 <= i < a.len() ==> (#[trigger] a[i]).0 == (#[trigger] b[i]).0 && same_value(
            a[i].1,
            b[i].1,
        )
}

impl Clone for Dimension {
    fn clone(&self) -> (r: Self)
        ensures
            r@ == self@,
    {
        let mut parts: Vec<(Quantity, Float)> = Vec::new();
        let mut i: usize = 0;
        while i < self.parts.len()
            invariant
                i <= self.parts@.len(),
                parts@.len() == i,
                entries_view(parts@) == self@.subrange(0, i as int),
            decreases self.parts@.len() - i,
        {
            let q = self.parts[i].0.clone();
            let p = self.parts[i].1.clone();
            let ghost pv0 = parts@;
            parts.push((q, p));
            proof {
                lemma_entries_view(parts@);
                lemma_entries_view(pv0);
                lemma_entries_view(self.parts@);
                assert(entries_view(parts@) =~= self@.subrange(0, i as int + 1));
            }
            i = i + 1;
        }
        proof {
            assert(self@.subrange(0, self@.len() as int) =~= self@);
        }
        Dimension { parts }
    }
}

impl Dimension {
    pub open spec fn wf(&self) -> bool {
        dim_wf(self@)
    }

    /// The dimension with the given factors, brought to canonical form.
    pub fn new(quantities: Vec<(Quantity, Float)>) -> (r: Dimension)
        ensures
            r@ == spec_simplify(entries_view(quantities@)),
            dim_wf(entries_view(quantities@)) ==> r.wf(),
    {
        (Dimension { parts: quantities }).simplify()
    }

    /// The unitless dimension.
    pub fn empty() -> (r: Dimension)
        ensures
            r@ == Seq::<DimEntry>::empty(),
            r.wf(),
    {
        Dimension { parts: Vec::new() }
    }

    pub fn is_unitless(&self) -> (r: bool)
        ensures
            r == (self@.len() == 0),
    {
        self.parts.len() == 0
    }

    pub fn len(&self) -> (r: usize)
        ensures
            r == self@.len(),
    {
        self.parts.len()
    }

    /// Structural equality, powers compared as values.
    pub fn eq_dimension(&self, other: &Dimension) -> (r: bool)
        ensures
            r == spec_dim_eq(self@, other@),
    {
        if self.parts.len() != other.parts.len() {
            return false;
        }
        let mut i: usize = 0;
        while i < self.parts.len()
            invariant
                i <= self@.len(),
                self@.len() == other@.len(),
                forall|k: int|
                    0 <= k < i ==> (#[trigger] self@[k]).0 == other@[k].0 && same_value(
                        self@[k].1,
                        other@[k].1,
                    ),
            decreases self@.len() - i,
        {
            if !self.parts[i].0.eq_quantity(&other.parts[i].0) {
                proof {
                    assert(self@[i as int].0 != other@[i as int].0);
                }
                return false;
            }
            if !self.parts[i].1.eq_value(&other.parts[i].1) {
                proof {
                    assert(!same_value(self@[i as int].1, other@[i as int].1));
                }
                return false;
            }
            i = i + 1;
        }
        true
    }

    /// Brings the dimension to canonical form: equal quantities folded by
    /// summing exponents (first-occurrence order kept), zero exponents
    /// dropped.
    pub fn simplify(&self) -> (r: Dimension)
        ensures
            r@ == spec_simplify(self@),
            self.wf() ==> r.wf(),
    {
        let ghost s = self@;
        let mut folded: Vec<(Quantity, Float)> = Vec::new();
        let mut i: usize = 0;
        proof {
            assert(s.subrange(0, s.len() as int) =~= s);
            assert(entries_view(folded@) =~= Seq::<DimEntry>::empty());
        }
        while i < self.parts.len()
            invariant
                i <= self.parts@.len(),
                s == self@,
                s == entries_view(self.parts@),
                spec_fold(entries_view(folded@), s.subrange(i as int, s.len() as int))
                    == spec_fold(Seq::empty(), s),
                dim_wf(s) ==> dim_wf(entries_view(folded@)),
            decreases self.parts@.len() - i,
        {
            let ghost rem = s.subrange(i as int, s.len() as int);
            let ghost acc0 = entries_view(folded@);
            let q = self.parts[i].0.clone();
            let p = self.parts[i].1.clone();
            proof {
                assert(rem[0] == s[i as int]);
                assert((q@, p@) == s[i as int]);
            }
            let mut idx: usize = 0;
            while idx < folded.len() && !folded[idx].0.eq_quantity(&q)
                invariant
                    idx <= folded@.len(),
                    entries_view(folded@) == acc0,
                    q@ == s[i as int].0,
                    forall|k: int| 0 <= k < idx ==> (#[trigger] acc0[k]).0 != q@,
                decreases folded@.len() - idx,
            {
                idx = idx + 1;
            }
            proof {
                if idx < folded@.len() {
                    assert(acc0[idx as int].0 == q@);
                }
                lemma_fold_one_at(acc0, q@, p@, idx as int);
            }
            let ghost qv = q@;
            let ghost pv = p@;
            let ghost fv0 = folded@;
            if idx < folded.len() {
                let existing = folded[idx].1.clone();
                let newp = p.add(&existing);
                folded.set(idx, (q, newp));
                proof {
                    lemma_entries_view(folded@);
                    lemma_entries_view(fv0);
                    assert(entries_view(folded@) =~= acc0.update(
                        idx as int,
                        (qv, add_model(pv, acc0[idx as int].1)),
                    ));
                }
            } else {
                folded.push((q, p));
                proof {
                    lemma_entries_view(folded@);
                    lemma_entries_view(fv0);
                    assert(entries_view(folded@) =~= acc0.push((qv, pv)));
                }
            }
            proof {
                assert(s.subrange(i as int + 1, s.len() as int) =~= rem.subrange(
                    1,
                    rem.len() as int,
                ));
            }
            i = i + 1;
        }
        proof {
            assert(s.subrange(s.len() as int, s.len() as int) =~= Seq::<DimEntry>::empty());
        }
        let ghost foldv = entries_view(folded@);
        let mut out: Vec<(Quantity, Float)> = Vec::new();
        let mut j: usize = 0;
        proof {
            assert(foldv.subrange(0, 0) =~= Seq::<DimEntry>::empty());
            assert(entries_view(out@) =~= spec_drop_zeros(foldv.subrange(0, 0)));
        }
        while j < folded.len()
            invariant
                j <= folded@.len(),
                foldv == entries_view(folded@),
                entries_view(out@) == spec_drop_zeros(foldv.subrange(0, j as int)),
                dim_wf(foldv) ==> dim_wf(entries_view(out@)),
            decreases folded@.len() - j,
        {
            let ghost pre = foldv.subrange(0, j as int);
            let ghost cur = foldv.subrange(0, j as int + 1);
            proof {
                assert(cur.drop_last() =~= pre);
                assert(cur.last() == foldv[j as int]);
            }
            if !folded[j].1.is_zero() {
                let q = folded[j].0.clone();
                let p = folded[j].1.clone();
                let ghost ov0 = out@;
                out.push((q, p));
                proof {
                    lemma_entries_view(out@);
                    lemma_entries_view(ov0);
                    lemma_entries_view(folded@);
                    assert(entries_view(out@) =~= spec_drop_zeros(pre).push(foldv[j as int]));
                }
            }
            j = j + 1;
        }
        proof {
            assert(foldv.subrange(0, foldv.len() as int) =~= foldv);
        }
        Dimension { parts: out }
    }

    /// Checks sanity: every kind appears with one consistent unit choice.
    pub fn sanity_check(&self) -> (r: bool)
        ensures
            r == spec_sane(self@),
    {
        let n = self.parts.len();
        let mut i: usize = 0;
        while i < n
            invariant
                n == self@.len(),
                i <= n,
                forall|a: int, b: int|
                    0 <= a < i && 0 <= b < n && spec_kind((#[trigger] self@[a]).0) == spec_kind(
                        (#[trigger] self@[b]).0,
                    ) ==> self@[a].0 == self@[b].0,
            decreases n - i,
        {
            let mut j: usize = 0;
            while j < n
                invariant
                    n == self@.len(),
                    i < n,
                    j <= n,
                    forall|b: int|
                        0 <= b < j && spec_kind(self@[i as int].0) == spec_kind(
                            (#[trigger] self@[b]).0,
                        ) ==> self@[i as int].0 == self@[b].0,
                decreases n - j,
            {
                let ka = self.parts[i].0.quantity_kind();
                let kb = self.parts[j].0.quantity_kind();
                if ka == kb {
                    if !self.parts[i].0.eq_quantity(&self.parts[j].0) {
                        proof {
                            assert(spec_kind(self@[i as int].0) == spec_kind(self@[j as int].0));
                            assert(self@[i as int].0 != self@[j as int].0);
                        }
                        return false;
                    }
                }
                j = j + 1;
            }
            i = i + 1;
        }
        true
    }

    /// Raises the dimension to a power: every exponent is multiplied by it,
    /// and the result is brought to canonical form.
    pub fn pow(&self, power: &Float) -> (r: Dimension)
        ensures
            r@ == spec_simplify(
                self@.map_values(|e: DimEntry| (e.0, mul_model(e.1, power@))),
            ),
            self.wf() ==> r.wf(),
    {
        let ghost target = self@.map_values(|e: DimEntry| (e.0, mul_model(e.1, power@)));
        let mut parts: Vec<(Quantity, Float)> = Vec::new();
        let mut i: usize = 0;
        while i < self.parts.len()
            invariant
                i <= self.parts@.len(),
                parts@.len() == i,
                target == self@.map_values(|e: DimEntry| (e.0, mul_model(e.1, power@))),
                entries_view(parts@) == target.subrange(0, i as int),
                dim_wf(self@) ==> dim_wf(entries_view(parts@)),
            decreases self.parts@.len() - i,
        {
            let q = self.parts[i].0.clone();
            let p = self.parts[i].1.mul(power);
            let ghost pv0 = parts@;
            parts.push((q, p));
            proof {
                lemma_entries_view(parts@);
                lemma_entries_view(pv0);
                lemma_entries_view(self.parts@);
                assert(entries_view(parts@) =~= target.subrange(0, i as int + 1));
            }
            i = i + 1;
        }
        proof {
            assert(target.subrange(0, target.len() as int) =~= target);
        }
        (Dimension { parts }).simplify()
    }
}

/// The view of a quantity list.
pub open spec fn quantities_view(v: Seq<Quantity>) -> Seq<QuantityModel> {
    v.map_values(|q: Quantity| q@)
}

/// The pointwise reading of a quantity list's view.
pub proof fn lemma_quantities_view(v: Seq<Quantity>)
    ensures
        quantities_view(v).len() == v.len(),
        forall|k: int| 0 <= k < v.len() ==> #[trigger] quantities_view(v)[k] == v[k]@,
{
}

/// The first quantity of a given kind in a list, if any.
pub open spec fn spec_find_kind(m: Seq<QuantityModel>, k: QuantityKind) -> Option<QuantityModel>
    decreases m.len(),
{
    if m.len() == 0 {
        None
    } else if spec_kind(m[0]) == k {
        Some(m[0])
    } else {
        spec_find_kind(m.subrange(1, m.len() as int), k)
    }
}

/// The unit choices of a dimension, one per kind, in order of first
/// occurrence.
pub open spec fn spec_qmap_acc(acc: Seq<QuantityModel>, s: Seq<DimEntry>) -> Seq<QuantityModel>
    decreases s.len(),
{
    if s.len() == 0 {
        acc
    } else {
        let q = s[0].0;
        let acc2 = if spec_find_kind(acc, spec_kind(q)) is Some {
            acc
        } else {
            acc.push(q)
        };
        spec_qmap_acc(acc2, s.subrange(1, s.len() as int))
    }
}

/// Rewrites each entry's quantity to the map's choice for its kind, keeping
/// powers.
pub open spec fn spec_apply_qmap(s: Seq<DimEntry>, m: Seq<QuantityModel>) -> Seq<DimEntry> {
    s.map_values(
        |e: DimEntry|
            (
                match spec_find_kind(m, spec_kind(e.0)) {
                    Some(q) => q,
                    None => e.0,
                },
                e.1,
            ),
    )
}

/// The unit choice a dimension makes for each quantity kind it mentions.
#[derive(Debug)]
pub struct QuantityMap {
    entries: Vec<Quantity>,
}

impl View for QuantityMap {
    type V = Seq<QuantityModel>;

    closed spec fn view(&self) -> Seq<QuantityModel> {
        quantities_view(self.entries@)
    }
}

impl QuantityMap {
    pub open spec fn wf(&self) -> bool {
        forall|i: int| 0 <= i < self@.len() ==> quantity_wf(#[trigger] self@[i])
    }

    /// The map's unit choice for a kind, if it has one.
    pub fn lookup(&self, k: QuantityKind) -> (r: Option<Quantity>)
        ensures
            r matches Some(q) ==> spec_find_kind(self@, k) == Some(q@),
            r is None <==> spec_find_kind(self@, k) is None,
            self.wf() ==> (r matches Some(q) ==> q.wf()),
    {
        let ghost mv = self@;
        let mut i: usize = 0;
        proof {
            assert(mv.subrange(0, mv.len() as int) =~= mv);
        }
        while i < self.entries.len()
            invariant
                i <= self.entries@.len(),
                mv == self@,
                spec_find_kind(mv.subrange(i as int, mv.len() as int), k) == spec_find_kind(mv, k),
            decreases self.entries@.len() - i,
        {
            let ghost rem = mv.subrange(i as int, mv.len() as int);
            proof {
                lemma_quantities_view(self.entries@);
                assert(rem[0] == mv[i as int]);
            }
            if self.entries[i].quantity_kind() == k {
                let q = self.entries[i].clone();
                return Some(q);
            }
            proof {
                assert(mv.subrange(i as int + 1, mv.len() as int) =~= rem.subrange(
                    1,
                    rem.len() as int,
                ));
            }
            i = i + 1;
        }
        None
    }
}

impl Dimension {
    /// The unit choices of a sane dimension, one quantity per kind, in order
    /// of first occurrence.
    pub fn get_quantity_map(&self) -> (r: QuantityMap)
        ensures
            r@ == spec_qmap_acc(Seq::empty(), self@),
            self.wf() ==> r.wf(),
    {
        let ghost s = self@;
        let mut entries: Vec<Quantity> = Vec::new();
        let mut i: usize = 0;
        proof {
            assert(s.subrange(0, s.len() as int) =~= s);
            assert(quantities_view(entries@) =~= Seq::<QuantityModel>::empty());
        }
        while i < self.parts.len()
            invariant
                i <= self.parts@.len(),
                s == self@,
                spec_qmap_acc(quantities_view(entries@), s.subrange(i as int, s.len() as int))
                    == spec_qmap_acc(Seq::empty(), s),
                dim_wf(s) ==> forall|k: int|
                    0 <= k < quantities_view(entries@).len() ==> quantity_wf(
                        #[trigger] quantities_view(entries@)[k],
                    ),
            decreases self.parts@.len() - i,
        {
            let ghost rem = s.subrange(i as int, s.len() as int);
            let ghost acc0 = quantities_view(entries@);
            proof {
                lemma_entries_view(self.parts@);
                assert(rem[0] == s[i as int]);
            }
            let k = self.parts[i].0.quantity_kind();
            let probe = QuantityMap { entries };
            let hit = probe.lookup(k);
            entries = probe.entries;
            match hit {
                Some(_) => {
                },
                None => {
                    let q = self.parts[i].0.clone();
                    let ghost ev0 = entries@;
                    entries.push(q);
                    proof {
                        lemma_quantities_view(entries@);
                        lemma_quantities_view(ev0);
                        assert(quantities_view(entries@) =~= acc0.push(s[i as int].0));
                    }
                },
            }
            proof {
                assert(s.subrange(i as int + 1, s.len() as int) =~= rem.subrange(
                    1,
                    rem.len() as int,
                ));
            }
            i = i + 1;
        }
        proof {
            assert(s.subrange(s.len() as int, s.len() as int) =~= Seq::<DimEntry>::empty());
        }
        QuantityMap { entries }
    }

    /// Rewrites each factor's unit to the map's choice for its kind, keeping
    /// the exponents: the reconciliation step before multiplication.
    pub fn apply_quantity_map(&mut self, map: &QuantityMap)
        ensures
            final(self)@ == spec_apply_qmap(old(self)@, map@),
            old(self).wf() && map.wf() ==> final(self).wf(),
    {
        let ghost s = old(self)@;
        let ghost target = spec_apply_qmap(s, map@);
        let mut i: usize = 0;
        while i < self.parts.len()
            invariant
                i <= self.parts@.len(),
                self.parts@.len() == s.len(),
                target == spec_apply_qmap(s, map@),
                forall|k: int| i <= k < s.len() ==> #[trigger] self@[k] == s[k],
                forall|k: int| 0 <= k < i ==> #[trigger] self@[k] == target[k],
                dim_wf(s) && map.wf() ==> forall|k: int|
                    0 <= k < i ==> quantity_wf((#[trigger] self@[k]).0),
            decreases self.parts@.len() - i,
        {
            proof {
                lemma_entries_view(self.parts@);
                assert(self@[i as int] == s[i as int]);
                assert(entries_view(self.parts@)[i as int] == s[i as int]);
                assert(self.parts@[i as int].1@ == s[i as int].1);
            }
            let k = self.parts[i].0.quantity_kind();
            match map.lookup(k) {
                Some(q) => {
                    let ghost qv = q@;
                    let p = self.parts[i].1.clone();
                    let ghost pv0 = self.parts@;
                    self.parts.set(i, (q, p));
                    proof {
                        lemma_entries_view(self.parts@);
                        lemma_entries_view(pv0);
                        assert(self@[i as int].0 == qv);
                        assert(entries_view(pv0)[i as int].1 == s[i as int].1);
                        assert(self@[i as int].1 == s[i as int].1);
                        assert(spec_kind(s[i as int].0) == k);
                        assert(spec_find_kind(map@, k) == Some(qv));
                        assert(target[i as int] == (qv, s[i as int].1));
                        assert(forall|kk: int|
                            0 <= kk < s.len() && kk != i ==> #[trigger] self@[kk] == entries_view(
                                pv0,
                            )[kk]);
                    }
                },
                None => {
                    proof {
                        assert(self@[i as int] == s[i as int]);
                        assert(target[i as int] == s[i as int]);
                    }
                },
            }
            i = i + 1;
        }
        proof {
            lemma_entries_view(self.parts@);
            assert(final(self)@ =~= target);
        }
    }
}

/// One pass over the target dimension for one source factor: every target
/// entry of the same kind must carry an equal exponent, and each contributes
/// the factor `(target_unit_ratio / source_unit_ratio) ^ exponent`.
pub open spec fn spec_kind_scan(
    e: DimEntry,
    b: Seq<DimEntry>,
    acc: FloatModel,
    found: bool,
) -> Option<(FloatModel, bool)>
    decreases b.len(),
{
    if b.len() == 0 {
        Some((acc, found))
    } else if spec_kind(b[0].0) == spec_kind(e.0) {
        if !same_value(e.1, b[0].1) {
            None
        } else {
            spec_kind_scan(
                e,
                b.subrange(1, b.len() as int),
                mul_model(
                    acc,
                    pow_model(div_model(spec_unit_ratio(b[0].0), spec_unit_ratio(e.0)), e.1),
                ),
                true,
            )
        }
    } else {
        spec_kind_scan(e, b.subrange(1, b.len() as int), acc, found)
    }
}

/// The chemistry bridge for an unmatched mass carrying a compound: each
/// target amount entry with no tag or the same compound, where both exponents
/// are one, converts through grams and moles and multiplies by the compound's
/// particulate mass.
pub open spec fn spec_bridge_from_mass(
    mu: MassUnit,
    ch: Seq<(u8, u16)>,
    p: FloatModel,
    b: Seq<DimEntry>,
    acc: FloatModel,
    found: bool,
) -> (FloatModel, bool)
    decreases b.len(),
{
    if b.len() == 0 {
        (acc, found)
    } else {
        let rest = b.subrange(1, b.len() as int);
        match b[0].0 {
            QuantityModel::Amount(au, och) => {
                let compound_ok = match och {
                    Some(oc) => oc == ch,
                    None => true,
                };
                if !compound_ok {
                    spec_bridge_from_mass(mu, ch, p, rest, acc, found)
                } else if !(same_value(p, int_model(1)) && same_value(b[0].1, int_model(1))) {
                    spec_bridge_from_mass(mu, ch, p, rest, acc, found)
                } else {
                    let amount_ratio = div_model(AmountUnit::Mole.spec_ratio(), au.spec_ratio());
                    let mass_ratio = div_model(MassUnit::Gram.spec_ratio(), mu.spec_ratio());
                    let qr = mul_model(
                        div_model(mass_ratio, amount_ratio),
                        Compound::spec_particulate_mass(ch),
                    );
                    spec_bridge_from_mass(mu, ch, p, rest, mul_model(acc, qr), true)
                }
            },
            _ => spec_bridge_from_mass(mu, ch, p, rest, acc, found),
        }
    }
}

/// The chemistry bridge for an unmatched amount carrying a compound: the
/// mirror image of the mass bridge, dividing by the particulate mass.
pub open spec fn spec_bridge_from_amount(
    au: AmountUnit,
    ch: Seq<(u8, u16)>,
    p: FloatModel,
    b: Seq<DimEntry>,
    acc: FloatModel,
    found: bool,
) -> (FloatModel, bool)
    decreases b.len(),
{
    if b.len() == 0 {
        (acc, found)
    } else {
        let rest = b.subrange(1, b.len() as int);
        match b[0].0 {
            QuantityModel::Mass(mu, och) => {
                let compound_ok = match och {
                    Some(oc) => oc == ch,
                    None => true,
                };
                if !compound_ok {
                    spec_bridge_from_amount(au, ch, p, rest, acc, found)
                } else if !(same_value(p, int_model(1)) && same_value(b[0].1, int_model(1))) {
                    spec_bridge_from_amount(au, ch, p, rest, acc, found)
                } else {
                    let amount_ratio = div_model(AmountUnit::Mole.spec_ratio(), au.spec_ratio());
                    let mass_ratio = div_model(MassUnit::Gram.spec_ratio(), mu.spec_ratio());
                    let qr = div_model(
                        div_model(amount_ratio, mass_ratio),
                        Compound::spec_particulate_mass(ch),
                    );
                    spec_bridge_from_amount(au, ch, p, rest, mul_model(acc, qr), true)
                }
            },
            _ => spec_bridge_from_amount(au, ch, p, rest, acc, found),
        }
    }
}

/// The contribution of one source factor against the whole target dimension:
/// a direct kind match, or else the chemistry bridge for a tagged mass or
/// amount; an unmatched factor makes the dimensions incompatible.
pub open spec fn spec_entry_ratio(acc: FloatModel, e: DimEntry, b: Seq<DimEntry>) -> Option<
    FloatModel,
> {
    match spec_kind_scan(e, b, acc, false) {
        None => None,
        Some((acc1, found)) => if found {
            Some(acc1)
        } else {
            match e.0 {
                QuantityModel::Mass(mu, Some(ch)) => {
                    let (acc2, f2) = spec_bridge_from_mass(mu, ch, e.1, b, acc1, false);
                    if f2 {
                        Some(acc2)
                    } else {
                        None
                    }
                },
                QuantityModel::Amount(au, Some(ch)) => {
                    let (acc2, f2) = spec_bridge_from_amount(au, ch, e.1, b, acc1, false);
                    if f2 {
                        Some(acc2)
                    } else {
                        None
                    }
                },
                _ => None,
            }
        },
    }
}

/// The product of the contributions of all source factors, left to right.
pub open spec fn spec_ratio_fold(acc: FloatModel, a: Seq<DimEntry>, b: Seq<DimEntry>) -> Option<
    FloatModel,
>
    decreases a.len(),
{
    if a.len() == 0 {
        Some(acc)
    } else {
        match spec_entry_ratio(acc, a[0], b) {
            None => None,
            Some(acc2) => spec_ratio_fold(acc2, a.subrange(1, a.len() as int), b),
        }
    }
}

/// The scalar by which a value in dimension `a` multiplies to express the
/// same physical quantity in dimension `b`: none when a dimension is insane
/// or the dimensions are incompatible, one for equal dimensions, otherwise
/// the product of per-factor contributions.
pub open spec fn spec_get_ratio(a: Seq<DimEntry>, b: Seq<DimEntry>) -> Option<FloatModel> {
    if !spec_sane(a) || !spec_sane(b) {
        None
    } else if spec_dim_eq(a, b) {
        Some(int_model(1))
    } else {
        spec_ratio_fold(int_model(1), a, b)
    }
}

impl Dimension {
    /// The conversion ratio from this dimension to another, bridging tagged
    /// mass and amount through the compound's molar mass.
    pub fn get_ratio(&self, other: &Dimension) -> (r: Option<Float>)
        requires
            self.wf(),
        ensures
            r matches Some(f) ==> spec_get_ratio(self@, other@) == Some(f@),
            r is None <==> spec_get_ratio(self@, other@) is None,
    {
        let ghost av = self@;
        let ghost bv = other@;
        if !self.sanity_check() {
            return None;
        }
        if !other.sanity_check() {
            return None;
        }
        if self.eq_dimension(other) {
            return Some(Float::from_i64(1));
        }
        let mut ratio = Float::from_i64(1);
        let mut i: usize = 0;
        proof {
            assert(av.subrange(0, av.len() as int) =~= av);
        }
        while i < self.parts.len()
            invariant
                i <= self.parts@.len(),
                av == self@,
                bv == other@,
                self.wf(),
                spec_get_ratio(av, bv) == spec_ratio_fold(int_model(1), av, bv),
                spec_ratio_fold(ratio@, av.subrange(i as int, av.len() as int), bv)
                    == spec_ratio_fold(int_model(1), av, bv),
            decreases self.parts@.len() - i,
        {
            let ghost rem = av.subrange(i as int, av.len() as int);
            let ghost acc0 = ratio@;
            proof {
                lemma_entries_view(self.parts@);
                assert(rem[0] == av[i as int]);
            }
            let ghost e = av[i as int];
            let mut found = false;
            let mut j: usize = 0;
            proof {
                assert(bv.subrange(0, bv.len() as int) =~= bv);
            }
            while j < other.parts.len()
                invariant
                    j <= other.parts@.len(),
                    av == self@,
                    bv == other@,
                    self.wf(),
                    i < self.parts@.len(),
                    e == av[i as int],
                    spec_get_ratio(av, bv) == spec_ratio_fold(int_model(1), av, bv),
                    spec_ratio_fold(acc0, av.subrange(i as int, av.len() as int), bv)
                        == spec_ratio_fold(int_model(1), av, bv),
                    spec_kind_scan(e, bv.subrange(j as int, bv.len() as int), ratio@, found)
                        == spec_kind_scan(e, bv, acc0, false),
                decreases other.parts@.len() - j,
            {
                let ghost brem = bv.subrange(j as int, bv.len() as int);
                proof {
                    lemma_entries_view(other.parts@);
                    lemma_entries_view(self.parts@);
                    assert(brem[0] == bv[j as int]);
                }
                let ka = self.parts[i].0.quantity_kind();
                let kb = other.parts[j].0.quantity_kind();
                if ka == kb {
                    if !self.parts[i].1.eq_value(&other.parts[j].1) {
                        proof {
                            assert(spec_kind_scan(e, brem, ratio@, found) is None);
                            assert(spec_kind_scan(e, bv, acc0, false) is None);
                            assert(spec_entry_ratio(acc0, e, bv) is None);
                            assert(spec_ratio_fold(
                                acc0,
                                av.subrange(i as int, av.len() as int),
                                bv,
                            ) is None);
                        }
                        return None;
                    }
                    let tr = other.parts[j].0.get_ratio();
                    let sr = self.parts[i].0.get_ratio();
                    let qr = tr.div(&sr).pow(&self.parts[i].1);
                    ratio = ratio.mul(&qr);
                    found = true;
                }
                proof {
                    assert(bv.subrange(j as int + 1, bv.len() as int) =~= brem.subrange(
                        1,
                        brem.len() as int,
                    ));
                }
                j = j + 1;
            }
            proof {
                assert(bv.subrange(bv.len() as int, bv.len() as int) =~= Seq::<DimEntry>::empty());
                assert(spec_kind_scan(e, bv, acc0, false) == Some((ratio@, found)));
            }
            if !found {
                let ghost acc1 = ratio@;
                let one = Float::from_i64(1);
                match &self.parts[i].0 {
                    Quantity::Mass(mu, Some(ch)) => {
                        let ghost muv = *mu;
                        let ghost chv = ch@;
                        proof {
                            lemma_entries_view(self.parts@);
                            assert(e.0 == QuantityModel::Mass(muv, Some(chv)));
                            assert(quantity_wf(e.0));
                        }
                        let mut j2: usize = 0;
                        proof {
                            assert(bv.subrange(0, bv.len() as int) =~= bv);
                        }
                        while j2 < other.parts.len()
                            invariant
                                j2 <= other.parts@.len(),
                                av == self@,
                                bv == other@,
                                self.wf(),
                                i < self.parts@.len(),
                                e == av[i as int],
                                e.0 == QuantityModel::Mass(muv, Some(chv)),
                                *mu == muv,
                                ch@ == chv,
                                counts_wf(chv),
                                one@ == int_model(1),
                                spec_bridge_from_mass(
                                    muv,
                                    chv,
                                    e.1,
                                    bv.subrange(j2 as int, bv.len() as int),
                                    ratio@,
                                    found,
                                ) == spec_bridge_from_mass(muv, chv, e.1, bv, acc1, false),
                            decreases other.parts@.len() - j2,
                        {
                            let ghost brem = bv.subrange(j2 as int, bv.len() as int);
                            proof {
                                lemma_entries_view(other.parts@);
                                lemma_entries_view(self.parts@);
                                assert(brem[0] == bv[j2 as int]);
                            }
                            match &other.parts[j2].0 {
                                Quantity::Amount(au, och) => {
                                    let compound_ok = match och {
                                        Some(oc) => oc.eq_compound(ch),
                                        None => true,
                                    };
                                    if compound_ok {
                                        let p_one = self.parts[i].1.eq_value(&one);
                                        let op_one = other.parts[j2].1.eq_value(&one);
                                        if p_one && op_one {
                                            let amount_ratio = AmountUnit::Mole.ratio().div(
                                                &au.ratio(),
                                            );
                                            let mass_ratio = MassUnit::Gram.ratio().div(
                                                &mu.ratio(),
                                            );
                                            let qr = mass_ratio.div(&amount_ratio).mul(
                                                &ch.particulate_mass(),
                                            );
                                            ratio = ratio.mul(&qr);
                                            found = true;
                                        }
                                    }
                                },
                                _ => {},
                            }
                            proof {
                                assert(bv.subrange(j2 as int + 1, bv.len() as int) =~= brem
                                    .subrange(1, brem.len() as int));
                            }
                            j2 = j2 + 1;
                        }
                        proof {
                            assert(bv.subrange(bv.len() as int, bv.len() as int) =~= Seq::<
                                DimEntry,
                            >::empty());
                            assert(spec_bridge_from_mass(muv, chv, e.1, bv, acc1, false) == (
                                ratio@,
                                found,
                            ));
                        }
                    },
                    Quantity::Amount(au, Some(ch)) => {
                        let ghost auv = *au;
                        let ghost chv = ch@;
                        proof {
                            lemma_entries_view(self.parts@);
                            assert(e.0 == QuantityModel::Amount(auv, Some(chv)));
                            assert(quantity_wf(e.0));
                        }
                        let mut j2: usize = 0;
                        proof {
                            assert(bv.subrange(0, bv.len() as int) =~= bv);
                        }
                        while j2 < other.parts.len()
                            invariant
                                j2 <= other.parts@.len(),
                                av == self@,
                                bv == other@,
                                self.wf(),
                                i < self.parts@.len(),
                                e == av[i as int],
                                e.0 == QuantityModel::Amount(auv, Some(chv)),
                                *au == auv,
                                ch@ == chv,
                                counts_wf(chv),
                                one@ == int_model(1),
                                spec_bridge_from_amount(
                                    auv,
                                    chv,
                                    e.1,
                                    bv.subrange(j2 as int, bv.len() as int),
                                    ratio@,
                                    found,
                                ) == spec_bridge_from_amount(auv, chv, e.1, bv, acc1, false),
                            decreases other.parts@.len() - j2,
                        {
                            let ghost brem = bv.subrange(j2 as int, bv.len() as int);
                            proof {
                                lemma_entries_view(other.parts@);
                                lemma_entries_view(self.parts@);
                                assert(brem[0] == bv[j2 as int]);
                            }
                            match &other.parts[j2].0 {
                                Quantity::Mass(mu, och) => {
                                    let compound_ok = match och {
                                        Some(oc) => oc.eq_compound(ch),
                                        None => true,
                                    };
                                    if compound_ok {
                                        let p_one = self.parts[i].1.eq_value(&one);
                                        let op_one = other.parts[j2].1.eq_value(&one);
                                        if p_one && op_one {
                                            let amount_ratio = AmountUnit::Mole.ratio().div(
                                                &au.ratio(),
                                            );
                                            let mass_ratio = MassUnit::Gram.ratio().div(
                                                &mu.ratio(),
                                            );
                                            let qr = amount_ratio.div(&mass_ratio).div(
                                                &ch.particulate_mass(),
                                            );
                                            ratio = ratio.mul(&qr);
                                            found = true;
                                        }
                                    }
                                },
                                _ => {},
                            }
                            proof {
                                assert(bv.subrange(j2 as int + 1, bv.len() as int) =~= brem
                                    .subrange(1, brem.len() as int));
                            }
                            j2 = j2 + 1;
                        }
                        proof {
                            assert(bv.subrange(bv.len() as int, bv.len() as int) =~= Seq::<
                                DimEntry,
                            >::empty());
                            assert(spec_bridge_from_amount(auv, chv, e.1, bv, acc1, false) == (
                                ratio@,
                                found,
                            ));
                        }
                    },
                    _ => {
                        proof {
                            assert(spec_entry_ratio(acc0, e, bv) is None);
                            assert(spec_ratio_fold(
                                acc0,
                                av.subrange(i as int, av.len() as int),
                                bv,
                            ) is None);
                        }
                        return None;
                    },
                }
                if !found {
                    proof {
                        assert(spec_entry_ratio(acc0, e, bv) is None);
                        assert(spec_ratio_fold(
                            acc0,
                            av.subrange(i as int, av.len() as int),
                            bv,
                        ) is None);
                    }
                    return None;
                }
            }
            proof {
                assert(spec_entry_ratio(acc0, e, bv) == Some(ratio@));
                assert(av.subrange(i as int + 1, av.len() as int) =~= rem.subrange(
                    1,
                    rem.len() as int,
                ));
            }
            i = i + 1;
        }
        proof {
            assert(av.subrange(av.len() as int, av.len() as int) =~= Seq::<DimEntry>::empty());
            assert(spec_ratio_fold(int_model(1), av, bv) == Some(ratio@));
        }
        Some(ratio)
    }
}

/// Some entry of the list names this quantity.
pub open spec fn contains_q(s: Seq<DimEntry>, q: QuantityModel) -> bool {
    exists|i: int| 0 <= i < s.len() && (#[trigger] s[i]).0 == q
}

/// No two entries of the list name the same quantity.
pub open spec fn distinct_q(s: Seq<DimEntry>) -> bool {
    forall|i: int, j: int|
        0 <= i < j < s.len() ==> (#[trigger] s[i]).0 != (#[trigger] s[j]).0
}

proof fn lemma_contains_unfold(s: Seq<DimEntry>, q: QuantityModel)
    requires
        s.len() > 0,
    ensures
        contains_q(s, q) <==> (s[0].0 == q || contains_q(s.subrange(1, s.len() as int), q)),
{
    let tail = s.subrange(1, s.len() as int);
    if contains_q(s, q) {
        let i = choose|i: int| 0 <= i < s.len() && (#[trigger] s[i]).0 == q;
        if i > 0 {
            assert(tail[i - 1].0 == q);
        }
    }
    if contains_q(tail, q) {
        let i = choose|i: int| 0 <= i < tail.len() && (#[trigger] tail[i]).0 == q;
        assert(s[i + 1].0 == q);
    }
}

proof fn lemma_contains_push(s: Seq<DimEntry>, e: DimEntry, q: QuantityModel)
    ensures
        contains_q(s.push(e), q) <==> (contains_q(s, q) || e.0 == q),
{
    let t = s.push(e);
    if contains_q(t, q) {
        let i = choose|i: int| 0 <= i < t.len() && (#[trigger] t[i]).0 == q;
        if i < s.len() {
            assert(s[i].0 == q);
        }
    }
    if contains_q(s, q) {
        let i = choose|i: int| 0 <= i < s.len() && (#[trigger] s[i]).0 == q;
        assert(t[i].0 == q);
    }
    if e.0 == q {
        assert(t[s.len() as int].0 == q);
    }
}

proof fn lemma_fold_one_found(acc: Seq<DimEntry>, q: QuantityModel, p: FloatModel)
    requires
        contains_q(acc, q),
    ensures
        spec_fold_one(acc, q, p).len() == acc.len(),
        forall|k: int|
            0 <= k < acc.len() ==> (#[trigger] spec_fold_one(acc, q, p)[k]).0 == acc[k].0,
    decreases acc.len(),
{
    let r = spec_fold_one(acc, q, p);
    let tail = acc.subrange(1, acc.len() as int);
    lemma_contains_unfold(acc, q);
    if acc[0].0 == q {
        assert(forall|k: int| 0 <= k < acc.len() ==> (#[trigger] r[k]).0 == acc[k].0);
    } else {
        lemma_fold_one_found(tail, q, p);
        assert(forall|k: int|
            0 <= k < acc.len() ==> (#[trigger] r[k]).0 == acc[k].0) by {
            assert(forall|k: int|
                1 <= k < acc.len() ==> (#[trigger] r[k]).0 == spec_fold_one(tail, q, p)[k
                    - 1].0);
        }
    }
}

proof fn lemma_fold_one_notfound(acc: Seq<DimEntry>, q: QuantityModel, p: FloatModel)
    requires
        !contains_q(acc, q),
    ensures
        spec_fold_one(acc, q, p) =~= acc.push((q, p)),
    decreases acc.len(),
{
    if acc.len() == 0 {
    } else {
        let tail = acc.subrange(1, acc.len() as int);
        lemma_contains_unfold(acc, q);
        assert(acc[0].0 != q);
        lemma_fold_one_notfound(tail, q, p);
    }
}

proof fn lemma_fold_distinct(acc: Seq<DimEntry>, s: Seq<DimEntry>)
    requires
        distinct_q(acc),
    ensures
        distinct_q(spec_fold(acc, s)),
        forall|q: QuantityModel|
            #[trigger] contains_q(spec_fold(acc, s), q) <==> (contains_q(acc, q) || contains_q(
                s,
                q,
            )),
    decreases s.len(),
{
    if s.len() == 0 {
        assert(forall|q: QuantityModel| !contains_q(s, q));
    } else {
        let q0 = s[0].0;
        let p0 = s[0].1;
        let tail = s.subrange(1, s.len() as int);
        if contains_q(acc, q0) {
            let acc1 = spec_fold_one(acc, q0, p0);
            lemma_fold_one_found(acc, q0, p0);
            assert(distinct_q(acc1));
            assert forall|q: QuantityModel| #[trigger]
                contains_q(acc1, q) <==> contains_q(acc, q) by {
                if contains_q(acc1, q) {
                    let i = choose|i: int| 0 <= i < acc1.len() && (#[trigger] acc1[i]).0 == q;
                    assert(acc[i].0 == q);
                }
                if contains_q(acc, q) {
                    let i = choose|i: int| 0 <= i < acc.len() && (#[trigger] acc[i]).0 == q;
                    assert(acc1[i].0 == q);
                }
            }
            lemma_fold_distinct(acc1, tail);
            assert forall|q: QuantityModel| #[trigger]
                contains_q(spec_fold(acc, s), q) <==> (contains_q(acc, q) || contains_q(
                s,
                q,
            )) by {
                lemma_contains_unfold(s, q);
            }
        } else {
            let acc1 = acc.push((q0, p0));
            lemma_fold_one_notfound(acc, q0, p0);
            assert(spec_fold_one(acc, q0, p0) == acc1);
            assert(distinct_q(acc1)) by {
                assert(forall|i: int|
                    0 <= i < acc.len() ==> (#[trigger] acc1[i]).0 == acc[i].0);
                assert(acc1[acc.len() as int].0 == q0);
                assert forall|i: int, j: int|
                    0 <= i < j < acc1.len() implies (#[trigger] acc1[i]).0 != (
                #[trigger] acc1[j]).0 by {
                    if j == acc.len() {
                        assert(acc1[i].0 == acc[i].0);
                        if acc[i].0 == q0 {
                            assert(contains_q(acc, q0));
                        }
                    }
                }
            }
            lemma_fold_distinct(acc1, tail);
            assert forall|q: QuantityModel| #[trigger]
                contains_q(spec_fold(acc, s), q) <==> (contains_q(acc, q) || contains_q(
                s,
                q,
            )) by {
                lemma_contains_unfold(s, q);
                lemma_contains_push(acc, (q0, p0), q);
            }
        }
    }
}

proof fn lemma_fold_identity(acc: Seq<DimEntry>, s: Seq<DimEntry>)
    requires
        distinct_q(acc + s),
    ensures
        spec_fold(acc, s) =~= acc + s,
    decreases s.len(),
{
    if s.len() == 0 {
        assert(spec_fold(acc, s) =~= acc + s);
    } else {
        let q0 = s[0].0;
        let p0 = s[0].1;
        let tail = s.subrange(1, s.len() as int);
        assert(!contains_q(acc, q0)) by {
            if contains_q(acc, q0) {
                let i = choose|i: int| 0 <= i < acc.len() && (#[trigger] acc[i]).0 == q0;
                assert((acc + s)[i].0 == q0);
                assert((acc + s)[acc.len() as int].0 == q0);
            }
        }
        lemma_fold_one_notfound(acc, q0, p0);
        assert(distinct_q(acc.push((q0, p0)) + tail)) by {
            assert(acc.push((q0, p0)) + tail =~= acc + s);
        }
        lemma_fold_identity(acc.push((q0, p0)), tail);
        assert(acc.push((q0, p0)) + tail =~= acc + s);
    }
}

proof fn lemma_drop_zeros_props(s: Seq<DimEntry>)
    ensures
        forall|k: int|
            0 <= k < spec_drop_zeros(s).len() ==> !model_is_zero(
                (#[trigger] spec_drop_zeros(s)[k]).1,
            ),
        forall|q: QuantityModel|
            #[trigger] contains_q(spec_drop_zeros(s), q) ==> contains_q(s, q),
        distinct_q(s) ==> distinct_q(spec_drop_zeros(s)),
    decreases s.len(),
{
    if s.len() == 0 {
    } else {
        let front = s.drop_last();
        lemma_drop_zeros_props(front);
        assert(distinct_q(s) ==> distinct_q(front));
        assert forall|q: QuantityModel| #[trigger]
            contains_q(spec_drop_zeros(s), q) implies contains_q(s, q) by {
            if contains_q(spec_drop_zeros(s), q) {
                let r = spec_drop_zeros(s);
                let i = choose|i: int| 0 <= i < r.len() && (#[trigger] r[i]).0 == q;
                if model_is_zero(s.last().1) {
                    assert(contains_q(spec_drop_zeros(front), q));
                    let j = choose|j: int|
                        0 <= j < front.len() && (#[trigger] front[j]).0 == q;
                    assert(s[j].0 == q);
                } else {
                    if i < r.len() - 1 {
                        assert(spec_drop_zeros(front)[i].0 == q);
                        assert(contains_q(spec_drop_zeros(front), q));
                        let j = choose|j: int|
                            0 <= j < front.len() && (#[trigger] front[j]).0 == q;
                        assert(s[j].0 == q);
                    } else {
                        assert(s[s.len() - 1].0 == q);
                    }
                }
            }
        }
        if distinct_q(s) {
            if !model_is_zero(s.last().1) {
                let r = spec_drop_zeros(s);
                let rf = spec_drop_zeros(front);
                assert forall|i: int, j: int|
                    0 <= i < j < r.len() implies (#[trigger] r[i]).0 != (#[trigger] r[j]).0 by {
                    if j < r.len() - 1 {
                        assert(rf[i].0 != rf[j].0);
                    } else {
                        assert(r[i].0 == rf[i].0);
                        if r[i].0 == s.last().0 {
                            assert(contains_q(rf, r[i].0)) by {
                                assert(rf[i].0 == r[i].0);
                            }
                            assert(contains_q(front, r[i].0));
                            let w = choose|w: int|
                                0 <= w < front.len() && (#[trigger] front[w]).0 == r[i].0;
                            assert(s[w].0 == s[s.len() - 1].0);
                        }
                    }
                }
            }
        }
    }
}

proof fn lemma_drop_zeros_identity(s: Seq<DimEntry>)
    requires
        forall|k: int| 0 <= k < s.len() ==> !model_is_zero((#[trigger] s[k]).1),
    ensures
        spec_drop_zeros(s) =~= s,
    decreases s.len(),
{
    if s.len() > 0 {
        lemma_drop_zeros_identity(s.drop_last());
    }
}

/// Simplifying is idempotent: bringing a dimension to canonical form a second
/// time changes nothing.
pub proof fn lemma_simplify_idempotent(s: Seq<DimEntry>)
    ensures
        spec_simplify(spec_simplify(s)) == spec_simplify(s),
{
    let f = spec_fold(Seq::empty(), s);
    let r = spec_drop_zeros(f);
    lemma_fold_distinct(Seq::empty(), s);
    lemma_drop_zeros_props(f);
    assert(distinct_q(r));
    assert(distinct_q(Seq::<DimEntry>::empty() + r)) by {
        assert(Seq::<DimEntry>::empty() + r =~= r);
    }
    lemma_fold_identity(Seq::empty(), r);
    assert(spec_fold(Seq::empty(), r) =~= r) by {
        assert(Seq::<DimEntry>::empty() + r =~= r);
    }
    lemma_drop_zeros_identity(r);
}

impl Dimension {
    /// Appends another dimension's factors, keeping both orders.
    pub fn append_entries(&mut self, other: &Dimension)
        ensures
            final(self)@ == old(self)@ + other@,
            old(self).wf() && other.wf() ==> final(self).wf(),
    {
        let ghost s0 = old(self)@;
        let ghost ov = other@;
        let mut i: usize = 0;
        proof {
            assert(self@ =~= s0 + ov.subrange(0, 0));
        }
        while i < other.parts.len()
            invariant
                i <= other.parts@.len(),
                ov == other@,
                self@ == s0 + ov.subrange(0, i as int),
            decreases other.parts@.len() - i,
        {
            proof {
                lemma_entries_view(other.parts@);
                lemma_entries_view(self.parts@);
                assert(entries_view(self.parts@) == s0 + ov.subrange(0, i as int));
            }
            let q = other.parts[i].0.clone();
            let p = other.parts[i].1.clone();
            let ghost qv = q@;
            let ghost pv = p@;
            let ghost pv0 = self.parts@;
            self.parts.push((q, p));
            proof {
                lemma_entries_view(self.parts@);
                lemma_entries_view(pv0);
                assert(pv0.len() == s0.len() + i);
                assert(entries_view(self.parts@).len() == s0.len() + i + 1);
                assert((qv, pv) == ov[i as int]);
                assert(entries_view(self.parts@)[s0.len() + i as int] == ov[i as int]);
                assert(forall|k: int|
                    0 <= k < pv0.len() ==> #[trigger] entries_view(self.parts@)[k]
                        == entries_view(pv0)[k]);
                assert(self@ =~= s0 + ov.subrange(0, i as int + 1));
            }
            i = i + 1;
        }
        proof {
            assert(ov.subrange(0, ov.len() as int) =~= ov);
        }
    }

    /// Every exponent negated, without simplifying.
    pub fn negate_powers(&self) -> (r: Dimension)
        ensures
            r@ == self@.map_values(|e: DimEntry| (e.0, neg_model(e.1))),
            self.wf() ==> r.wf(),
    {
        let ghost target = self@.map_values(|e: DimEntry| (e.0, neg_model(e.1)));
        let mut parts: Vec<(Quantity, Float)> = Vec::new();
        let mut i: usize = 0;
        proof {
            assert(entries_view(parts@) =~= target.subrange(0, 0));
        }
        while i < self.parts.len()
            invariant
                i <= self.parts@.len(),
                parts@.len() == i,
                target == self@.map_values(|e: DimEntry| (e.0, neg_model(e.1))),
                entries_view(parts@) == target.subrange(0, i as int),
            decreases self.parts@.len() - i,
        {
            let q = self.parts[i].0.clone();
            let p = self.parts[i].1.neg();
            let ghost pv0 = parts@;
            parts.push((q, p));
            proof {
                lemma_entries_view(parts@);
                lemma_entries_view(pv0);
                lemma_entries_view(self.parts@);
                assert(entries_view(parts@) =~= target.subrange(0, i as int + 1));
            }
            i = i + 1;
        }
        proof {
            assert(target.subrange(0, target.len() as int) =~= target);
        }
        Dimension { parts }
    }
}

impl Dimension {
    /// The factors of the dimension, in order.
    pub fn entries(&self) -> (r: &Vec<(Quantity, Float)>)
        ensures
            entries_view(r@) == self@,
    {
        &self.parts
    }
}

} // verus!

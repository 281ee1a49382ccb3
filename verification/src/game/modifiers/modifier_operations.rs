//! How the modifiers in effect for a player combine into one multiplier.
//!
//! Additive magnitudes are summed and added to the base of 1; each
//! multiplicative magnitude multiplies the total by `1 + magnitude`; of the
//! highest-only modifiers only the highest magnitude of each stacking group
//! applies, as a multiplicative one. The total is kept between 0.5 and 3.
//! The arithmetic is exact.
use vstd::prelude::*;

use crate::domain::decimal::{self, Decimal, DecimalView};
use crate::domain::modifier::{ModifierTarget, StackingBehaviour};
use crate::domain::resource::ResourceType;

verus! {

/// A modifier in effect for a player: what it targets, its magnitude and how
/// it stacks with others.
#[derive(Debug)]
pub struct FullModifier {
    pub target_type: ModifierTarget,
    pub target_resource: Option<ResourceType>,
    pub magnitude: Decimal,
    pub stacking_behaviour: StackingBehaviour,
    /// Highest-only modifiers of one group compete; those without a group
    /// form one group together.
    pub stacking_group: Option<String>,
}

/// A modifier as values: target, magnitude, stacking and group.
pub struct ModifierView {
    pub target_type: ModifierTarget,
    pub target_resource: Option<ResourceType>,
    pub magnitude: DecimalView,
    pub stacking_behaviour: StackingBehaviour,
    pub group: Option<Seq<char>>,
}

impl View for FullModifier {
    type V = ModifierView;

    open spec fn view(&self) -> ModifierView {
        ModifierView {
            target_type: self.target_type,
            target_resource: self.target_resource,
            magnitude: self.magnitude@,
            stacking_behaviour: self.stacking_behaviour,
            group: match self.stacking_group {
                Some(g) => Some(g@),
                None => None,
            },
        }
    }
}

impl Clone for FullModifier {
    fn clone(&self) -> (r: Self)
        ensures
            r@ == self@,
    {
        FullModifier {
            target_type: self.target_type,
            target_resource: self.target_resource,
            magnitude: self.magnitude.clone(),
            stacking_behaviour: self.stacking_behaviour,
            stacking_group: match &self.stacking_group {
                Some(g) => Some(g.clone()),
                None => None,
            },
        }
    }
}

/// The modifiers as values.
pub open spec fn views(mods: Seq<FullModifier>) -> Seq<ModifierView> {
    mods.map_values(|m: FullModifier| m@)
}

/// The decimals as values.
pub open spec fn decimal_views(ds: Seq<Decimal>) -> Seq<DecimalView> {
    ds.map_values(|d: Decimal| d@)
}

/// The base multiplier, 1.
pub open spec fn one() -> DecimalView {
    decimal::int_decimal(1)
}

/// The lowest total multiplier, 0.5.
pub open spec fn floor_multiplier() -> DecimalView {
    (5, 1)
}

/// The highest total multiplier, 3.
pub open spec fn cap_multiplier() -> DecimalView {
    decimal::int_decimal(3)
}

/// The sum of the additive magnitudes, from 0.
pub open spec fn additive_sum(s: Seq<ModifierView>) -> DecimalView
    decreases s.len(),
{
    if s.len() == 0 {
        decimal::int_decimal(0)
    } else if s.last().stacking_behaviour == StackingBehaviour::Additive {
        decimal::sum_of(additive_sum(s.drop_last()), s.last().magnitude)
    } else {
        additive_sum(s.drop_last())
    }
}

/// The magnitudes of the multiplicative modifiers, in order.
pub open spec fn multiplicative_magnitudes(s: Seq<ModifierView>) -> Seq<DecimalView>
    decreases s.len(),
{
    if s.len() == 0 {
        Seq::empty()
    } else if s.last().stacking_behaviour == StackingBehaviour::Multiplicative {
        multiplicative_magnitudes(s.drop_last()).push(s.last().magnitude)
    } else {
        multiplicative_magnitudes(s.drop_last())
    }
}

/// The position of group `k` in `gs`, or -1.
pub open spec fn group_position(gs: Seq<(Option<Seq<char>>, DecimalView)>, k: Option<Seq<char>>) -> int
    decreases gs.len(),
{
    if gs.len() == 0 {
        -1
    } else if group_position(gs.drop_last(), k) >= 0 {
        group_position(gs.drop_last(), k)
    } else if gs.last().0 == k {
        gs.len() - 1
    } else {
        -1
    }
}

/// The groups after modifier `m`: a highest-only modifier enters its group
/// (appended when new) unless it is below the group's highest magnitude.
pub open spec fn highest_step(prev: Seq<(Option<Seq<char>>, DecimalView)>, m: ModifierView) -> Seq<(Option<Seq<char>>, DecimalView)> {
    if m.stacking_behaviour == StackingBehaviour::HighestOnly {
        let i = group_position(prev, m.group);
        if i >= 0 {
            if decimal::less_than(m.magnitude, prev[i].1) {
                prev
            } else {
                prev.update(i, (m.group, m.magnitude))
            }
        } else {
            prev.push((m.group, m.magnitude))
        }
    } else {
        prev
    }
}

/// The stacking groups of the highest-only modifiers, in order of first
/// appearance, each with its highest magnitude (the last one among equals).
pub open spec fn highest_per_group(s: Seq<ModifierView>) -> Seq<(Option<Seq<char>>, DecimalView)>
    decreases s.len(),
{
    if s.len() == 0 {
        Seq::empty()
    } else {
        highest_step(highest_per_group(s.drop_last()), s.last())
    }
}

/// The magnitudes that multiply the total: the multiplicative ones, then the
/// highest of each group.
pub open spec fn factor_magnitudes(s: Seq<ModifierView>) -> Seq<DecimalView> {
    multiplicative_magnitudes(s) + highest_per_group(s).map_values(|g: (Option<Seq<char>>, DecimalView)| g.1)
}

/// The product of `1 + m` over the magnitudes `ms`, from 1 in order; `None`
/// when its scale would not fit in 32 bits.
pub open spec fn factor_product(ms: Seq<DecimalView>) -> Option<DecimalView>
    decreases ms.len(),
{
    if ms.len() == 0 {
        Some(one())
    } else {
        match factor_product(ms.drop_last()) {
            Some(acc) => decimal::product_of(acc, decimal::sum_of(one(), ms.last())),
            None => None,
        }
    }
}

/// The total multiplier of the modifiers `s`: 1 when there are none, else
/// `(1 + additive sum) * product of factors`, kept between 0.5 and 3.
/// `None` only when the number of decimal places passes 2^32.
pub open spec fn stacked_total(s: Seq<ModifierView>) -> Option<DecimalView> {
    if s.len() == 0 {
        Some(one())
    } else {
        match factor_product(factor_magnitudes(s)) {
            Some(p) => match decimal::product_of(decimal::sum_of(one(), additive_sum(s)), p) {
                Some(t) => Some(decimal::clamped(t, floor_multiplier(), cap_multiplier())),
                None => None,
            },
            None => None,
        }
    }
}

/// The modifiers of `s` aimed at the given target, in order.
pub open spec fn aimed_at(
    s: Seq<ModifierView>,
    target_type: ModifierTarget,
    target_resource: Option<ResourceType>,
) -> Seq<ModifierView>
    decreases s.len(),
{
    if s.len() == 0 {
        Seq::empty()
    } else if s.last().target_type == target_type && s.last().target_resource == target_resource {
        aimed_at(s.drop_last(), target_type, target_resource).push(s.last())
    } else {
        aimed_at(s.drop_last(), target_type, target_resource)
    }
}

/// `r` holds the decimal `v`, or nothing when there is none.
pub open spec fn holds(r: Option<Decimal>, v: Option<DecimalView>) -> bool {
    match v {
        Some(x) => r matches Some(d) && d@ == x,
        None => r is None,
    }
}

fn same_group(a: &Option<String>, b: &Option<String>) -> (r: bool)
    ensures
        r == (match a {
            Some(x) => Some(x@),
            None => None::<Seq<char>>,
        } == match b {
            Some(y) => Some(y@),
            None => None::<Seq<char>>,
        }),
{
    match (a, b) {
        (Some(x), Some(y)) => x.eq(y),
        (None, None) => true,
        _ => false,
    }
}

/// The groups as keys and magnitudes, each key taken from the modifier that
/// the group's index points at.
pub open spec fn group_view(vs: Seq<ModifierView>, groups: Seq<(usize, Decimal)>) -> Seq<(Option<Seq<char>>, DecimalView)> {
    groups.map_values(|g: (usize, Decimal)| (vs[g.0 as int].group, g.1@))
}

/// The position of the group of `m` among `groups` (each named by the index
/// of its first member in `mods`), as `group_position` gives it.
fn find_group(mods: &Vec<FullModifier>, groups: &Vec<(usize, Decimal)>, m: &FullModifier) -> (r: Option<usize>)
    requires
        forall|j: int| 0 <= j < groups.len() ==> groups[j].0 < mods.len(),
    ensures
        match r {
            Some(j) => j < groups.len() && group_position(group_view(views(mods@), groups@), m@.group) == j,
            None => group_position(group_view(views(mods@), groups@), m@.group) == -1,
        },
{
    let ghost gv = group_view(views(mods@), groups@);
    let mut j: usize = 0;
    while j < groups.len()
        invariant
            j <= groups.len(),
            gv == group_view(views(mods@), groups@),
            forall|i: int| 0 <= i < groups.len() ==> groups[i].0 < mods.len(),
            forall|i: int| 0 <= i < j ==> gv[i].0 != m@.group,
        decreases groups.len() - j,
    {
        let gi = groups[j].0;
        if same_group(&mods[gi].stacking_group, &m.stacking_group) {
            proof {
                assert(gv[j as int].0 == views(mods@)[gi as int].group);
                lemma_first_position(gv, m@.group, j as int);
            }
            return Some(j);
        }
        assert(gv[j as int].0 == views(mods@)[gi as int].group);
        j = j + 1;
    }
    proof {
        lemma_no_position(gv, m@.group);
    }
    None
}

proof fn lemma_first_position(gs: Seq<(Option<Seq<char>>, DecimalView)>, k: Option<Seq<char>>, j: int)
    requires
        0 <= j < gs.len(),
        gs[j].0 == k,
        forall|i: int| 0 <= i < j ==> gs[i].0 != k,
    ensures
        group_position(gs, k) == j,
    decreases gs.len(),
{
    if j < gs.len() - 1 {
        lemma_first_position(gs.drop_last(), k, j);
    } else {
        lemma_no_position(gs.drop_last(), k);
    }
}

proof fn lemma_no_position(gs: Seq<(Option<Seq<char>>, DecimalView)>, k: Option<Seq<char>>)
    requires
        forall|i: int| 0 <= i < gs.len() ==> gs[i].0 != k,
    ensures
        group_position(gs, k) == -1,
    decreases gs.len(),
{
    if gs.len() > 0 {
        lemma_no_position(gs.drop_last(), k);
    }
}

proof fn lemma_position_bounds(gs: Seq<(Option<Seq<char>>, DecimalView)>, k: Option<Seq<char>>)
    ensures
        -1 <= group_position(gs, k) < gs.len(),
        group_position(gs, k) >= 0 ==> gs[group_position(gs, k)].0 == k,
    decreases gs.len(),
{
    if gs.len() > 0 {
        lemma_position_bounds(gs.drop_last(), k);
    }
}

/// The product of `1 + m` over `ms`, as `factor_product` gives it.
fn multiply_factors(ms: &Vec<Decimal>) -> (r: Option<Decimal>)
    ensures
        holds(r, factor_product(decimal_views(ms@))),
{
    let one = Decimal::from_int(1);
    let mut acc: Option<Decimal> = Some(Decimal::from_int(1));
    let mut i: usize = 0;
    while i < ms.len()
        invariant
            i <= ms.len(),
            one@ == crate::game::modifiers::modifier_operations::one(),
            holds(acc, factor_product(decimal_views(ms@).take(i as int))),
        decreases ms.len() - i,
    {
        proof {
            assert(decimal_views(ms@).take(i as int + 1).drop_last() =~= decimal_views(ms@).take(i as int));
            assert(decimal_views(ms@).take(i as int + 1).last() == ms@[i as int]@);
        }
        acc = match acc {
            Some(a) => a.checked_mul(&one.sum(&ms[i])),
            None => None,
        };
        i = i + 1;
    }
    proof {
        assert(decimal_views(ms@).take(ms.len() as int) =~= decimal_views(ms@));
    }
    acc
}

proof fn lemma_floor_below_cap()
    ensures
        !decimal::less_than(cap_multiplier(), floor_multiplier()),
        decimal::less_than(floor_multiplier(), cap_multiplier()),
        !decimal::less_than(one(), floor_multiplier()),
        !decimal::less_than(cap_multiplier(), one()),
{
    let lo = floor_multiplier();
    let hi = cap_multiplier();
    assert(decimal::common_scale(hi, lo) == 1);
    assert(decimal::common_scale(lo, hi) == 1);
    assert(decimal::pow10(0) == 1);
    assert(decimal::pow10(1) == 10);
    assert(decimal::aligned(hi, 1) == 30);
    assert(decimal::aligned(lo, 1) == 5);
    assert(decimal::common_scale(one(), lo) == 1);
    assert(decimal::common_scale(hi, one()) == 0);
    assert(decimal::aligned(one(), 1) == 10);
}

/// Combines the modifiers `mods` into one multiplier: 1 when there are none;
/// else the additive magnitudes summed and added to 1, times `1 + m` for each
/// multiplicative magnitude and for the highest magnitude of each stacking
/// group, kept between 0.5 and 3. The arithmetic is exact; `None` only when
/// the number of decimal places would pass 2^32.
pub fn apply_stacking_rules(mods: &Vec<FullModifier>) -> (r: Option<Decimal>)
    ensures
        holds(r, stacked_total(views(mods@))),
{
    let ghost vs = views(mods@);
    if mods.len() == 0 {
        return Some(Decimal::from_int(1));
    }
    let mut additive = Decimal::from_int(0);
    let mut factors: Vec<Decimal> = Vec::new();
    let mut groups: Vec<(usize, Decimal)> = Vec::new();
    let mut i: usize = 0;
    while i < mods.len()
        invariant
            i <= mods.len(),
            vs == views(mods@),
            additive@ == additive_sum(vs.take(i as int)),
            decimal_views(factors@) == multiplicative_magnitudes(vs.take(i as int)),
            group_view(vs, groups@) == highest_per_group(vs.take(i as int)),
            forall|j: int| 0 <= j < groups.len() ==> groups[j].0 < mods.len(),
        decreases mods.len() - i,
    {
        proof {
            assert(vs.take(i as int + 1).drop_last() =~= vs.take(i as int));
            assert(vs.take(i as int + 1).last() == mods@[i as int]@);
        }
        let m = &mods[i];
        match m.stacking_behaviour {
            StackingBehaviour::Additive => {
                additive = additive.sum(&m.magnitude);
            },
            StackingBehaviour::Multiplicative => {
                let ghost before = factors@;
                factors.push(m.magnitude.clone());
                proof {
                    assert(decimal_views(factors@) =~= decimal_views(before).push(m.magnitude@));
                }
            },
            StackingBehaviour::HighestOnly => {
                let ghost before = group_view(vs, groups@);
                proof {
                    lemma_position_bounds(before, m@.group);
                }
                match find_group(mods, &groups, m) {
                    Some(j) => {
                        if !m.magnitude.lt(&groups[j].1) {
                            let gi = groups[j].0;
                            proof {
                                assert(before[j as int].0 == m@.group);
                                assert(vs[gi as int].group == m@.group);
                            }
                            groups.set(j, (gi, m.magnitude.clone()));
                            proof {
                                assert(group_view(vs, groups@) =~= before.update(j as int, (m@.group, m.magnitude@)));
                            }
                        }
                    },
                    None => {
                        groups.push((i, m.magnitude.clone()));
                        proof {
                            assert(group_view(vs, groups@) =~= before.push((m@.group, m.magnitude@)));
                        }
                    },
                }
            },
        }
        i = i + 1;
    }
    proof {
        assert(vs.take(mods.len() as int) =~= vs);
    }
    let ghost gv = group_view(vs, groups@);
    let ghost mults = decimal_views(factors@);
    let mut k: usize = 0;
    while k < groups.len()
        invariant
            k <= groups.len(),
            gv == group_view(vs, groups@),
            decimal_views(factors@) == mults + gv.take(k as int).map_values(|g: (Option<Seq<char>>, DecimalView)| g.1),
        decreases groups.len() - k,
    {
        let ghost before = factors@;
        factors.push(groups[k].1.clone());
        proof {
            assert(decimal_views(factors@) =~= decimal_views(before).push(groups[k as int].1@));
            assert(gv.take(k as int + 1).map_values(|g: (Option<Seq<char>>, DecimalView)| g.1)
                =~= gv.take(k as int).map_values(|g: (Option<Seq<char>>, DecimalView)| g.1).push(groups[k as int].1@));
        }
        k = k + 1;
    }
    proof {
        assert(gv.take(groups.len() as int) =~= gv);
        assert(decimal_views(factors@) =~= factor_magnitudes(vs));
    }
    let product = multiply_factors(&factors);
    match product {
        Some(p) => {
            let base = Decimal::from_int(1).sum(&additive);
            match base.checked_mul(&p) {
                Some(t) => {
                    proof {
                        lemma_floor_below_cap();
                    }
                    Some(t.clamp(Decimal::new(5, 1), Decimal::from_int(3)))
                },
                None => None,
            }
        },
        None => None,
    }
}

/// The total multiplier of those of the player's modifiers `mods` that aim at
/// the given target, combined by `apply_stacking_rules`.
pub fn calc_multiplier(
    mods: &Vec<FullModifier>,
    target_type: ModifierTarget,
    target_resource: Option<ResourceType>,
) -> (r: Option<Decimal>)
    ensures
        holds(r, stacked_total(aimed_at(views(mods@), target_type, target_resource))),
{
    let ghost vs = views(mods@);
    let mut chosen: Vec<FullModifier> = Vec::new();
    let mut i: usize = 0;
    while i < mods.len()
        invariant
            i <= mods.len(),
            vs == views(mods@),
            views(chosen@) == aimed_at(vs.take(i as int), target_type, target_resource),
        decreases mods.len() - i,
    {
        proof {
            assert(vs.take(i as int + 1).drop_last() =~= vs.take(i as int));
            assert(vs.take(i as int + 1).last() == mods@[i as int]@);
        }
        let m = &mods[i];
        if m.target_type == target_type && m.target_resource == target_resource {
            let ghost before = chosen@;
            chosen.push(m.clone());
            proof {
                assert(views(chosen@) =~= views(before).push(mods@[i as int]@));
            }
        }
        i = i + 1;
    }
    proof {
        assert(vs.take(mods.len() as int) =~= vs);
    }
    apply_stacking_rules(&chosen)
}

/// The total multiplier is 1 without modifiers and otherwise always lies
/// between 0.5 and 3.
pub proof fn lemma_total_within_bounds(mods: Seq<ModifierView>)
    requires
        stacked_total(mods) is Some,
    ensures
        mods.len() == 0 ==> stacked_total(mods) == Some(one()),
        !decimal::less_than(stacked_total(mods).unwrap(), floor_multiplier()),
        !decimal::less_than(cap_multiplier(), stacked_total(mods).unwrap()),
{
    lemma_floor_below_cap();
    if mods.len() > 0 {
        let t = stacked_total(mods).unwrap();
        let lo = floor_multiplier();
        let hi = cap_multiplier();
        let p = factor_product(factor_magnitudes(mods)).unwrap();
        let raw = decimal::product_of(decimal::sum_of(one(), additive_sum(mods)), p).unwrap();
        assert(t == decimal::clamped(raw, lo, hi));
        if decimal::less_than(raw, lo) {
            assert(t == lo);
        } else if decimal::less_than(hi, raw) {
            assert(t == hi);
        } else {
            assert(t == raw);
        }
    }
}

proof fn lemma_pow10_add(a: nat, b: nat)
    ensures
        decimal::pow10(a + b) == decimal::pow10(a) * decimal::pow10(b),
    decreases a,
{
    if a > 0 {
        lemma_pow10_add((a - 1) as nat, b);
        assert(decimal::pow10(a + b) == 10 * decimal::pow10((a - 1 + b) as nat));
        assert(decimal::pow10(a) == 10 * decimal::pow10((a - 1) as nat));
        assert(10 * (decimal::pow10((a - 1) as nat) * decimal::pow10(b)) == (10 * decimal::pow10(
            (a - 1) as nat,
        )) * decimal::pow10(b)) by (nonlinear_arith);
    }
}

/// Writing `d` with `s1` places and then with `s2` places is writing it with `s2` places.
proof fn lemma_aligned_twice(d: DecimalView, s1: nat, s2: nat)
    requires
        d.1 <= s1 <= s2,
    ensures
        decimal::aligned((decimal::aligned(d, s1), s1), s2) == decimal::aligned(d, s2),
{
    let a = (s1 - d.1) as nat;
    let b = (s2 - s1) as nat;
    lemma_pow10_add(a, b);
    assert((a + b) as nat == (s2 - d.1) as nat);
    assert(d.0 * decimal::pow10(a) * decimal::pow10(b) == d.0 * (decimal::pow10(a) * decimal::pow10(b)))
        by (nonlinear_arith);
}

/// The sum of `a + b` written with `s` places is the sum of both written so.
proof fn lemma_aligned_sum(a: DecimalView, b: DecimalView, s: nat)
    requires
        decimal::common_scale(a, b) <= s,
    ensures
        decimal::aligned(decimal::sum_of(a, b), s) == decimal::aligned(a, s) + decimal::aligned(b, s),
{
    let c = decimal::common_scale(a, b);
    let p = decimal::pow10((s - c) as nat);
    let x = decimal::aligned(a, c);
    let y = decimal::aligned(b, c);
    assert((x + y) * p == x * p + y * p) by (nonlinear_arith);
    lemma_aligned_twice(a, c, s);
    lemma_aligned_twice(b, c, s);
}

/// Adding two decimals to a running sum gives the same result in either order.
proof fn lemma_sum_swap(t: DecimalView, u: DecimalView, v: DecimalView)
    ensures
        decimal::sum_of(decimal::sum_of(t, u), v) == decimal::sum_of(decimal::sum_of(t, v), u),
{
    let l = decimal::sum_of(decimal::sum_of(t, u), v);
    let r = decimal::sum_of(decimal::sum_of(t, v), u);
    let s = l.1;
    assert(s == r.1);
    lemma_aligned_sum(t, u, s);
    lemma_aligned_sum(t, v, s);
}

/// Multiplying a running product by two decimals gives the same result in
/// either order.
proof fn lemma_product_swap(t: DecimalView, u: DecimalView, v: DecimalView)
    ensures
        (match decimal::product_of(t, u) {
            Some(x) => decimal::product_of(x, v),
            None => None,
        }) == (match decimal::product_of(t, v) {
            Some(x) => decimal::product_of(x, u),
            None => None,
        }),
{
    assert(t.0 * u.0 * v.0 == t.0 * v.0 * u.0) by (nonlinear_arith);
}

proof fn lemma_additive_extend(a: Seq<ModifierView>, b: Seq<ModifierView>, q: Seq<ModifierView>)
    requires
        additive_sum(a) == additive_sum(b),
    ensures
        additive_sum(a + q) == additive_sum(b + q),
    decreases q.len(),
{
    if q.len() > 0 {
        lemma_additive_extend(a, b, q.drop_last());
        assert((a + q).drop_last() =~= a + q.drop_last());
        assert((b + q).drop_last() =~= b + q.drop_last());
    } else {
        assert(a + q =~= a);
        assert(b + q =~= b);
    }
}

proof fn lemma_highest_extend(a: Seq<ModifierView>, b: Seq<ModifierView>, q: Seq<ModifierView>)
    requires
        highest_per_group(a) == highest_per_group(b),
    ensures
        highest_per_group(a + q) == highest_per_group(b + q),
    decreases q.len(),
{
    if q.len() > 0 {
        lemma_highest_extend(a, b, q.drop_last());
        assert((a + q).drop_last() =~= a + q.drop_last());
        assert((b + q).drop_last() =~= b + q.drop_last());
    } else {
        assert(a + q =~= a);
        assert(b + q =~= b);
    }
}

proof fn lemma_multiplicative_concat(a: Seq<ModifierView>, q: Seq<ModifierView>)
    ensures
        multiplicative_magnitudes(a + q) == multiplicative_magnitudes(a) + multiplicative_magnitudes(q),
    decreases q.len(),
{
    if q.len() > 0 {
        lemma_multiplicative_concat(a, q.drop_last());
        assert((a + q).drop_last() =~= a + q.drop_last());
        assert(multiplicative_magnitudes(a) + multiplicative_magnitudes(q.drop_last()).push(q.last().magnitude)
            =~= (multiplicative_magnitudes(a) + multiplicative_magnitudes(q.drop_last())).push(q.last().magnitude));
    } else {
        assert(a + q =~= a);
        assert(multiplicative_magnitudes(a) + multiplicative_magnitudes(q) =~= multiplicative_magnitudes(a));
    }
}

proof fn lemma_factor_extend(a: Seq<DecimalView>, b: Seq<DecimalView>, w: Seq<DecimalView>)
    requires
        factor_product(a) == factor_product(b),
    ensures
        factor_product(a + w) == factor_product(b + w),
    decreases w.len(),
{
    if w.len() > 0 {
        lemma_factor_extend(a, b, w.drop_last());
        assert((a + w).drop_last() =~= a + w.drop_last());
        assert((b + w).drop_last() =~= b + w.drop_last());
    } else {
        assert(a + w =~= a);
        assert(b + w =~= b);
    }
}

/// Two neighbouring factors can trade places without changing the product.
proof fn lemma_factor_swap(u: Seq<DecimalView>, x: DecimalView, y: DecimalView, w: Seq<DecimalView>)
    ensures
        factor_product(u + seq![x, y] + w) == factor_product(u + seq![y, x] + w),
{
    let a = u + seq![x, y];
    let b = u + seq![y, x];
    assert(a.drop_last().drop_last() =~= u);
    assert(b.drop_last().drop_last() =~= u);
    assert(a.drop_last() =~= u.push(x));
    assert(b.drop_last() =~= u.push(y));
    assert(u.push(x).drop_last() =~= u);
    assert(u.push(y).drop_last() =~= u);
    assert(a.last() == y && b.last() == x && u.push(x).last() == x && u.push(y).last() == y);
    let fx = factor_product(u.push(x));
    let fy = factor_product(u.push(y));
    assert(fx == match factor_product(u) {
        Some(acc) => decimal::product_of(acc, decimal::sum_of(one(), x)),
        None => None,
    });
    assert(fy == match factor_product(u) {
        Some(acc) => decimal::product_of(acc, decimal::sum_of(one(), y)),
        None => None,
    });
    assert(factor_product(a) == match fx {
        Some(acc) => decimal::product_of(acc, decimal::sum_of(one(), y)),
        None => None,
    });
    assert(factor_product(b) == match fy {
        Some(acc) => decimal::product_of(acc, decimal::sum_of(one(), x)),
        None => None,
    });
    match factor_product(u) {
        Some(acc) => {
            lemma_product_swap(acc, decimal::sum_of(one(), x), decimal::sum_of(one(), y));
        },
        None => {},
    }
    assert(factor_product(a) == factor_product(b));
    lemma_factor_extend(a, b, w);
}

proof fn lemma_position_first(gs: Seq<(Option<Seq<char>>, DecimalView)>, k: Option<Seq<char>>)
    ensures
        group_position(gs, k) >= 0 ==> forall|i: int| 0 <= i < group_position(gs, k) ==> gs[i].0 != k,
        group_position(gs, k) < 0 ==> forall|i: int| 0 <= i < gs.len() ==> gs[i].0 != k,
    decreases gs.len(),
{
    if gs.len() > 0 {
        let d = gs.drop_last();
        lemma_position_first(d, k);
        lemma_position_bounds(d, k);
        assert forall|i: int| 0 <= i < d.len() implies #[trigger] d[i] == gs[i] by {}
        if group_position(d, k) >= 0 {
            assert(group_position(gs, k) == group_position(d, k));
            assert forall|i: int| 0 <= i < group_position(gs, k) implies gs[i].0 != k by {
                assert(d[i] == gs[i]);
            }
        } else {
            assert forall|i: int| 0 <= i < d.len() implies gs[i].0 != k by {
                assert(d[i] == gs[i]);
            }
        }
    }
}

/// Lists with the same group at every place give every group the same position.
proof fn lemma_same_keys_position(
    l1: Seq<(Option<Seq<char>>, DecimalView)>,
    l2: Seq<(Option<Seq<char>>, DecimalView)>,
    k: Option<Seq<char>>,
)
    requires
        l1.len() == l2.len(),
        forall|i: int| 0 <= i < l1.len() ==> #[trigger] l1[i].0 == l2[i].0,
    ensures
        group_position(l1, k) == group_position(l2, k),
{
    lemma_position_first(l1, k);
    lemma_position_bounds(l1, k);
    let p = group_position(l1, k);
    if p >= 0 {
        assert(l1[p].0 == l2[p].0);
        assert forall|i: int| 0 <= i < p implies l2[i].0 != k by {
            assert(l1[i].0 == l2[i].0);
        }
        lemma_first_position(l2, k, p);
    } else {
        assert forall|i: int| 0 <= i < l2.len() implies l2[i].0 != k by {
            assert(l1[i].0 == l2[i].0);
        }
        lemma_no_position(l2, k);
    }
}

proof fn lemma_push_position(gs: Seq<(Option<Seq<char>>, DecimalView)>, e: (Option<Seq<char>>, DecimalView), k: Option<Seq<char>>)
    ensures
        group_position(gs.push(e), k) == if group_position(gs, k) >= 0 {
            group_position(gs, k)
        } else if e.0 == k {
            gs.len() as int
        } else {
            -1
        },
{
    assert(gs.push(e).drop_last() =~= gs);
}

/// `l2` is `l1` with the neighbouring places `j` and `j + 1`, of two
/// different groups, traded.
pub open spec fn swapped_at(
    l1: Seq<(Option<Seq<char>>, DecimalView)>,
    l2: Seq<(Option<Seq<char>>, DecimalView)>,
    j: int,
) -> bool {
    &&& 0 <= j && j + 1 < l1.len()
    &&& l2.len() == l1.len()
    &&& l1[j].0 != l1[j + 1].0
    &&& l2[j] == l1[j + 1]
    &&& l2[j + 1] == l1[j]
    &&& forall|i: int| 0 <= i < l1.len() && i != j && i != j + 1 ==> #[trigger] l2[i] == l1[i]
}

spec fn swap_index(p: int, j: int) -> int {
    if p == j {
        j + 1
    } else if p == j + 1 {
        j
    } else {
        p
    }
}

proof fn lemma_swapped_position(
    l1: Seq<(Option<Seq<char>>, DecimalView)>,
    l2: Seq<(Option<Seq<char>>, DecimalView)>,
    j: int,
    k: Option<Seq<char>>,
)
    requires
        swapped_at(l1, l2, j),
    ensures
        group_position(l2, k) == swap_index(group_position(l1, k), j),
{
    lemma_position_first(l1, k);
    lemma_position_bounds(l1, k);
    let p = group_position(l1, k);
    if p < 0 {
        assert forall|i: int| 0 <= i < l2.len() implies l2[i].0 != k by {
            if i != j && i != j + 1 {
                assert(l2[i] == l1[i]);
            }
        }
        lemma_no_position(l2, k);
    } else {
        let q = swap_index(p, j);
        if p != j && p != j + 1 {
            assert(l2[p] == l1[p]);
        }
        assert forall|i: int| 0 <= i < q implies l2[i].0 != k by {
            if i != j && i != j + 1 {
                assert(l2[i] == l1[i]);
            }
        }
        lemma_first_position(l2, k, q);
    }
}

proof fn lemma_step_swapped(
    l1: Seq<(Option<Seq<char>>, DecimalView)>,
    l2: Seq<(Option<Seq<char>>, DecimalView)>,
    j: int,
    m: ModifierView,
)
    requires
        swapped_at(l1, l2, j),
    ensures
        swapped_at(highest_step(l1, m), highest_step(l2, m), j),
{
    if m.stacking_behaviour == StackingBehaviour::HighestOnly {
        let k = m.group;
        lemma_swapped_position(l1, l2, j, k);
        lemma_position_bounds(l1, k);
        let p = group_position(l1, k);
        let e = (m.group, m.magnitude);
        if p >= 0 {
            let q = swap_index(p, j);
            if p != j && p != j + 1 {
                assert(l2[p] == l1[p]);
            }
            assert(l2[q] == l1[p]);
            let n1 = l1.update(p, e);
            let n2 = l2.update(q, e);
            assert forall|i: int| 0 <= i < n1.len() && i != j && i != j + 1 implies #[trigger] n2[i] == n1[i] by {
                assert(l2[i] == l1[i]);
            }
        } else {
            let n1 = l1.push(e);
            let n2 = l2.push(e);
            assert forall|i: int| 0 <= i < n1.len() && i != j && i != j + 1 implies #[trigger] n2[i] == n1[i] by {
                if i < l1.len() {
                    assert(l2[i] == l1[i]);
                }
            }
        }
    }
}

proof fn lemma_highest_swapped_extend(a: Seq<ModifierView>, b: Seq<ModifierView>, q: Seq<ModifierView>, j: int)
    requires
        swapped_at(highest_per_group(a), highest_per_group(b), j),
    ensures
        swapped_at(highest_per_group(a + q), highest_per_group(b + q), j),
    decreases q.len(),
{
    if q.len() > 0 {
        lemma_highest_swapped_extend(a, b, q.drop_last(), j);
        assert((a + q).drop_last() =~= a + q.drop_last());
        assert((b + q).drop_last() =~= b + q.drop_last());
        lemma_step_swapped(highest_per_group(a + q.drop_last()), highest_per_group(b + q.drop_last()), j, q.last());
    } else {
        assert(a + q =~= a);
        assert(b + q =~= b);
    }
}

/// Two highest-only modifiers of different groups entering the groups in
/// either order: the groups end the same, or with the two new ones traded.
proof fn lemma_two_groups(hp: Seq<(Option<Seq<char>>, DecimalView)>, x: ModifierView, y: ModifierView)
    requires
        x.stacking_behaviour == StackingBehaviour::HighestOnly,
        y.stacking_behaviour == StackingBehaviour::HighestOnly,
        x.group != y.group,
    ensures
        highest_step(highest_step(hp, x), y) == highest_step(highest_step(hp, y), x)
            || swapped_at(highest_step(highest_step(hp, x), y), highest_step(highest_step(hp, y), x), hp.len() as int),
{
    let ex = (x.group, x.magnitude);
    let ey = (y.group, y.magnitude);
    let ix = group_position(hp, x.group);
    let iy = group_position(hp, y.group);
    lemma_position_bounds(hp, x.group);
    lemma_position_bounds(hp, y.group);
    let hx = highest_step(hp, x);
    let hy = highest_step(hp, y);
    if ix >= 0 {
        assert forall|i: int| 0 <= i < hp.len() implies #[trigger] hp[i].0 == hx[i].0 by {}
        lemma_same_keys_position(hp, hx, y.group);
        assert(hx.len() == hp.len());
    } else {
        lemma_push_position(hp, ex, y.group);
    }
    if iy >= 0 {
        assert forall|i: int| 0 <= i < hp.len() implies #[trigger] hp[i].0 == hy[i].0 by {}
        lemma_same_keys_position(hp, hy, x.group);
        assert(hy.len() == hp.len());
    } else {
        lemma_push_position(hp, ey, x.group);
    }
    let l = highest_step(hx, y);
    let r = highest_step(hy, x);
    if ix >= 0 || iy >= 0 {
        if ix >= 0 && iy >= 0 {
            assert(ix != iy);
        }
        assert(l =~= r);
    }
}

proof fn lemma_pow10_positive(n: nat)
    ensures
        decimal::pow10(n) > 0,
    decreases n,
{
    if n > 0 {
        lemma_pow10_positive((n - 1) as nat);
    }
}

/// Comparing two decimals is comparing their mantissas written with any
/// common number of places.
proof fn lemma_compare_at(a: DecimalView, b: DecimalView, s: nat)
    requires
        a.1 <= s,
        b.1 <= s,
    ensures
        decimal::less_than(a, b) <==> decimal::aligned(a, s) < decimal::aligned(b, s),
        decimal::same_value(a, b) <==> decimal::aligned(a, s) == decimal::aligned(b, s),
{
    let c = decimal::common_scale(a, b);
    lemma_aligned_twice(a, c, s);
    lemma_aligned_twice(b, c, s);
    let p = decimal::pow10((s - c) as nat);
    lemma_pow10_positive((s - c) as nat);
    let x = decimal::aligned(a, c);
    let y = decimal::aligned(b, c);
    assert(x < y <==> x * p < y * p) by (nonlinear_arith)
        requires
            p > 0,
    ;
    assert(x == y <==> x * p == y * p) by (nonlinear_arith)
        requires
            p > 0,
    ;
}

/// Two highest-only modifiers of one group entering it in either order
/// leave it the same, unless their magnitudes are equal numbers written
/// differently.
proof fn lemma_one_group(hp: Seq<(Option<Seq<char>>, DecimalView)>, x: ModifierView, y: ModifierView)
    requires
        x.stacking_behaviour == StackingBehaviour::HighestOnly,
        y.stacking_behaviour == StackingBehaviour::HighestOnly,
        x.group == y.group,
        decimal::same_value(x.magnitude, y.magnitude) ==> x.magnitude == y.magnitude,
    ensures
        highest_step(highest_step(hp, x), y) == highest_step(highest_step(hp, y), x),
{
    let g = x.group;
    let mx = x.magnitude;
    let my = y.magnitude;
    let i = group_position(hp, g);
    lemma_position_bounds(hp, g);
    let hx = highest_step(hp, x);
    let hy = highest_step(hp, y);
    if i >= 0 {
        let v = hp[i].1;
        let s = if v.1 >= mx.1 && v.1 >= my.1 {
            v.1
        } else if mx.1 >= my.1 {
            mx.1
        } else {
            my.1
        };
        lemma_compare_at(mx, v, s);
        lemma_compare_at(v, mx, s);
        lemma_compare_at(my, v, s);
        lemma_compare_at(v, my, s);
        lemma_compare_at(mx, my, s);
        lemma_compare_at(my, mx, s);
        assert forall|k: int| 0 <= k < hp.len() implies #[trigger] hp[k].0 == hx[k].0 by {}
        assert forall|k: int| 0 <= k < hp.len() implies #[trigger] hp[k].0 == hy[k].0 by {}
        lemma_same_keys_position(hp, hx, g);
        lemma_same_keys_position(hp, hy, g);
        let l = highest_step(hx, y);
        let r = highest_step(hy, x);
        assert(l =~= r);
    } else {
        lemma_push_position(hp, (g, mx), g);
        lemma_push_position(hp, (g, my), g);
        let s = if mx.1 >= my.1 {
            mx.1
        } else {
            my.1
        };
        lemma_compare_at(mx, my, s);
        lemma_compare_at(my, mx, s);
        let l = highest_step(hx, y);
        let r = highest_step(hy, x);
        assert(l =~= r);
    }
}

/// Two neighbouring modifiers can trade places without changing the total
/// multiplier, unless both are highest-only modifiers of the same group
/// whose magnitudes are one number written with different scales.
pub proof fn lemma_neighbours_commute(
    p: Seq<ModifierView>,
    x: ModifierView,
    y: ModifierView,
    q: Seq<ModifierView>,
)
    requires
        x.stacking_behaviour == StackingBehaviour::HighestOnly && y.stacking_behaviour
            == StackingBehaviour::HighestOnly && x.group == y.group && decimal::same_value(
            x.magnitude,
            y.magnitude,
        ) ==> x.magnitude == y.magnitude,
    ensures
        stacked_total(p + seq![x, y] + q) == stacked_total(p + seq![y, x] + q),
{
    let a = p + seq![x, y];
    let b = p + seq![y, x];
    assert(a.drop_last().drop_last() =~= p);
    assert(b.drop_last().drop_last() =~= p);
    assert(a.drop_last() =~= p.push(x));
    assert(b.drop_last() =~= p.push(y));
    assert(p.push(x).drop_last() =~= p);
    assert(p.push(y).drop_last() =~= p);
    assert(a.last() == y && b.last() == x && p.push(x).last() == x && p.push(y).last() == y);
    // the additive part
    let ap = additive_sum(p);
    let ax = additive_sum(p.push(x));
    let ay = additive_sum(p.push(y));
    assert(ax == if x.stacking_behaviour == StackingBehaviour::Additive {
        decimal::sum_of(ap, x.magnitude)
    } else {
        ap
    });
    assert(ay == if y.stacking_behaviour == StackingBehaviour::Additive {
        decimal::sum_of(ap, y.magnitude)
    } else {
        ap
    });
    assert(additive_sum(a) == if y.stacking_behaviour == StackingBehaviour::Additive {
        decimal::sum_of(ax, y.magnitude)
    } else {
        ax
    });
    assert(additive_sum(b) == if x.stacking_behaviour == StackingBehaviour::Additive {
        decimal::sum_of(ay, x.magnitude)
    } else {
        ay
    });
    if x.stacking_behaviour == StackingBehaviour::Additive && y.stacking_behaviour
        == StackingBehaviour::Additive {
        lemma_sum_swap(ap, x.magnitude, y.magnitude);
    }
    assert(additive_sum(a) == additive_sum(b));
    lemma_additive_extend(a, b, q);
    // the highest-only groups
    let hp = highest_per_group(p);
    assert(highest_per_group(p.push(x)) == highest_step(hp, x));
    assert(highest_per_group(p.push(y)) == highest_step(hp, y));
    assert(highest_per_group(a) == highest_step(highest_step(hp, x), y));
    assert(highest_per_group(b) == highest_step(highest_step(hp, y), x));
    if x.stacking_behaviour == StackingBehaviour::HighestOnly && y.stacking_behaviour
        == StackingBehaviour::HighestOnly {
        if x.group == y.group {
            lemma_one_group(hp, x, y);
        } else {
            lemma_two_groups(hp, x, y);
        }
    } else {
        assert(highest_per_group(a) == highest_per_group(b));
    }
    let traded = highest_per_group(a) != highest_per_group(b);
    if traded {
        lemma_highest_swapped_extend(a, b, q, hp.len() as int);
    } else {
        lemma_highest_extend(a, b, q);
    }
    // the multiplicative part
    let xy = seq![x, y];
    let yx = seq![y, x];
    assert(xy.drop_last() =~= seq![x]);
    assert(yx.drop_last() =~= seq![y]);
    assert(seq![x].drop_last() =~= Seq::<ModifierView>::empty());
    assert(seq![y].drop_last() =~= Seq::<ModifierView>::empty());
    assert(xy.last() == y && yx.last() == x && seq![x].last() == x && seq![y].last() == y);
    let none = Seq::<ModifierView>::empty();
    assert(multiplicative_magnitudes(none) == Seq::<DecimalView>::empty());
    let mx = multiplicative_magnitudes(seq![x]);
    let my = multiplicative_magnitudes(seq![y]);
    assert(mx == if x.stacking_behaviour == StackingBehaviour::Multiplicative {
        multiplicative_magnitudes(none).push(x.magnitude)
    } else {
        multiplicative_magnitudes(none)
    });
    assert(my == if y.stacking_behaviour == StackingBehaviour::Multiplicative {
        multiplicative_magnitudes(none).push(y.magnitude)
    } else {
        multiplicative_magnitudes(none)
    });
    assert(multiplicative_magnitudes(xy) == if y.stacking_behaviour == StackingBehaviour::Multiplicative {
        mx.push(y.magnitude)
    } else {
        mx
    });
    assert(multiplicative_magnitudes(yx) == if x.stacking_behaviour == StackingBehaviour::Multiplicative {
        my.push(x.magnitude)
    } else {
        my
    });
    lemma_multiplicative_concat(p, xy);
    lemma_multiplicative_concat(p, yx);
    lemma_multiplicative_concat(a, q);
    lemma_multiplicative_concat(b, q);
    let mp = multiplicative_magnitudes(p);
    let mq = multiplicative_magnitudes(q);
    let hs = highest_per_group(a + q).map_values(|g: (Option<Seq<char>>, DecimalView)| g.1);
    let hsb = highest_per_group(b + q).map_values(|g: (Option<Seq<char>>, DecimalView)| g.1);
    if traded {
        // both are highest-only, of two new groups that entered in either order
        let j = hp.len() as int;
        let ha = highest_per_group(a + q);
        let hb = highest_per_group(b + q);
        assert(swapped_at(ha, hb, j));
        let u = hs.take(j);
        let w = hs.skip(j + 2);
        assert(hs =~= u + seq![hs[j], hs[j + 1]] + w);
        assert forall|i: int| 0 <= i < hs.len() && i != j && i != j + 1 implies #[trigger] hsb[i] == hs[i] by {
            assert(hb[i] == ha[i]);
        }
        assert(hsb =~= u + seq![hs[j + 1], hs[j]] + w);
        assert(multiplicative_magnitudes(xy) =~= Seq::<DecimalView>::empty());
        assert(multiplicative_magnitudes(yx) =~= Seq::<DecimalView>::empty());
        lemma_factor_swap(mp + mq + u, hs[j], hs[j + 1], w);
        assert(factor_magnitudes(a + q) =~= (mp + mq + u) + seq![hs[j], hs[j + 1]] + w);
        assert(factor_magnitudes(b + q) =~= (mp + mq + u) + seq![hs[j + 1], hs[j]] + w);
    } else if x.stacking_behaviour == StackingBehaviour::Multiplicative && y.stacking_behaviour
        == StackingBehaviour::Multiplicative {
        assert(hsb == hs);
        assert(multiplicative_magnitudes(xy) =~= seq![x.magnitude, y.magnitude]);
        assert(multiplicative_magnitudes(yx) =~= seq![y.magnitude, x.magnitude]);
        lemma_factor_swap(mp, x.magnitude, y.magnitude, mq + hs);
        assert(factor_magnitudes(a + q) =~= mp + seq![x.magnitude, y.magnitude] + (mq + hs));
        assert(factor_magnitudes(b + q) =~= mp + seq![y.magnitude, x.magnitude] + (mq + hs));
    } else {
        assert(hsb == hs);
        assert(multiplicative_magnitudes(xy) =~= multiplicative_magnitudes(yx));
        assert(factor_magnitudes(a + q) =~= factor_magnitudes(b + q));
    }
    assert((a + q).len() > 0);
    assert((b + q).len() > 0);
}

/// Equal numbers added to equal numbers give equal sums.
proof fn lemma_sum_same_value(a: DecimalView, a2: DecimalView, b: DecimalView, b2: DecimalView)
    requires
        decimal::same_value(a, a2),
        decimal::same_value(b, b2),
    ensures
        decimal::same_value(decimal::sum_of(a, b), decimal::sum_of(a2, b2)),
{
    let s = a.1 + a2.1 + b.1 + b2.1;
    lemma_aligned_sum(a, b, s);
    lemma_aligned_sum(a2, b2, s);
    lemma_compare_at(a, a2, s);
    lemma_compare_at(b, b2, s);
    lemma_compare_at(decimal::sum_of(a, b), decimal::sum_of(a2, b2), s);
}

/// The mantissa of a product written with `s1 + s2` places is the product of
/// the factors' mantissas written with `s1` and `s2` places.
proof fn lemma_aligned_product(a: DecimalView, b: DecimalView, s1: nat, s2: nat)
    requires
        a.1 <= s1,
        b.1 <= s2,
    ensures
        decimal::aligned((a.0 * b.0, a.1 + b.1), s1 + s2) == decimal::aligned(a, s1) * decimal::aligned(b, s2),
{
    let e1 = (s1 - a.1) as nat;
    let e2 = (s2 - b.1) as nat;
    lemma_pow10_add(e1, e2);
    assert((e1 + e2) as nat == (s1 + s2 - (a.1 + b.1)) as nat);
    let p1 = decimal::pow10(e1);
    let p2 = decimal::pow10(e2);
    assert(a.0 * b.0 * (p1 * p2) == (a.0 * p1) * (b.0 * p2)) by (nonlinear_arith);
}

/// Equal numbers multiplied by equal numbers give equal products.
proof fn lemma_product_same_value(a: DecimalView, a2: DecimalView, b: DecimalView, b2: DecimalView)
    requires
        decimal::same_value(a, a2),
        decimal::same_value(b, b2),
        decimal::product_of(a, b) is Some,
        decimal::product_of(a2, b2) is Some,
    ensures
        decimal::same_value(decimal::product_of(a, b).unwrap(), decimal::product_of(a2, b2).unwrap()),
{
    let s1 = a.1 + a2.1;
    let s2 = b.1 + b2.1;
    lemma_compare_at(a, a2, s1);
    lemma_compare_at(b, b2, s2);
    lemma_aligned_product(a, b, s1, s2);
    lemma_aligned_product(a2, b2, s1, s2);
    lemma_compare_at(decimal::product_of(a, b).unwrap(), decimal::product_of(a2, b2).unwrap(), s1 + s2);
}

/// Equal numbers are kept within the same bounds as equal numbers.
proof fn lemma_clamp_same_value(t: DecimalView, t2: DecimalView)
    requires
        decimal::same_value(t, t2),
    ensures
        decimal::same_value(
            decimal::clamped(t, floor_multiplier(), cap_multiplier()),
            decimal::clamped(t2, floor_multiplier(), cap_multiplier()),
        ),
{
    let lo = floor_multiplier();
    let hi = cap_multiplier();
    let s = t.1 + t2.1 + 1;
    lemma_compare_at(t, t2, s);
    lemma_compare_at(t, lo, s);
    lemma_compare_at(t2, lo, s);
    lemma_compare_at(hi, t, s);
    lemma_compare_at(hi, t2, s);
    lemma_compare_at(lo, t2, s);
    lemma_compare_at(t, hi, s);
    lemma_compare_at(lo, lo, s);
    lemma_compare_at(hi, hi, s);
    lemma_compare_at(lo, t, s);
    lemma_compare_at(t2, hi, s);
    lemma_compare_at(lo, hi, s);
}

/// Factors that are equal numbers, place by place, give equal products.
proof fn lemma_factor_same_value(u1: Seq<DecimalView>, u2: Seq<DecimalView>)
    requires
        u1.len() == u2.len(),
        forall|i: int| 0 <= i < u1.len() ==> decimal::same_value(#[trigger] u1[i], u2[i]),
        factor_product(u1) is Some,
        factor_product(u2) is Some,
    ensures
        decimal::same_value(factor_product(u1).unwrap(), factor_product(u2).unwrap()),
    decreases u1.len(),
{
    if u1.len() > 0 {
        let d1 = u1.drop_last();
        let d2 = u2.drop_last();
        assert forall|i: int| 0 <= i < d1.len() implies decimal::same_value(#[trigger] d1[i], d2[i]) by {
            assert(d1[i] == u1[i]);
            assert(d2[i] == u2[i]);
        }
        lemma_factor_same_value(d1, d2);
        let acc1 = factor_product(d1).unwrap();
        let acc2 = factor_product(d2).unwrap();
        assert(decimal::same_value(one(), one()));
        lemma_sum_same_value(one(), one(), u1.last(), u2.last());
        lemma_product_same_value(acc1, acc2, decimal::sum_of(one(), u1.last()), decimal::sum_of(one(), u2.last()));
    } else {
        assert(decimal::same_value(one(), one()));
    }
}

/// `l2` is `l1` but for place `j`, which holds the same group with an equal
/// magnitude.
pub open spec fn near_at(
    l1: Seq<(Option<Seq<char>>, DecimalView)>,
    l2: Seq<(Option<Seq<char>>, DecimalView)>,
    j: int,
) -> bool {
    &&& 0 <= j < l1.len()
    &&& l2.len() == l1.len()
    &&& l2[j].0 == l1[j].0
    &&& decimal::same_value(l1[j].1, l2[j].1)
    &&& forall|i: int| 0 <= i < l1.len() && i != j ==> #[trigger] l2[i] == l1[i]
}

proof fn lemma_step_near(
    l1: Seq<(Option<Seq<char>>, DecimalView)>,
    l2: Seq<(Option<Seq<char>>, DecimalView)>,
    j: int,
    m: ModifierView,
)
    requires
        near_at(l1, l2, j),
    ensures
        near_at(highest_step(l1, m), highest_step(l2, m), j),
{
    if m.stacking_behaviour == StackingBehaviour::HighestOnly {
        let k = m.group;
        assert forall|i: int| 0 <= i < l1.len() implies #[trigger] l1[i].0 == l2[i].0 by {
            if i != j {
                assert(l2[i] == l1[i]);
            }
        }
        lemma_same_keys_position(l1, l2, k);
        lemma_position_bounds(l1, k);
        let p = group_position(l1, k);
        let e = (m.group, m.magnitude);
        if p >= 0 {
            if p == j {
                let s = m.magnitude.1 + l1[j].1.1 + l2[j].1.1;
                lemma_compare_at(m.magnitude, l1[j].1, s);
                lemma_compare_at(m.magnitude, l2[j].1, s);
                lemma_compare_at(l1[j].1, l2[j].1, s);
                assert(decimal::same_value(e.1, e.1));
            } else {
                assert(l2[p] == l1[p]);
            }
            let n1 = highest_step(l1, m);
            let n2 = highest_step(l2, m);
            assert forall|i: int| 0 <= i < n1.len() && i != j implies #[trigger] n2[i] == n1[i] by {
                assert(l2[i] == l1[i]);
            }
        } else {
            let n1 = l1.push(e);
            let n2 = l2.push(e);
            assert forall|i: int| 0 <= i < n1.len() && i != j implies #[trigger] n2[i] == n1[i] by {
                if i < l1.len() {
                    assert(l2[i] == l1[i]);
                }
            }
        }
    }
}

proof fn lemma_highest_near_extend(a: Seq<ModifierView>, b: Seq<ModifierView>, q: Seq<ModifierView>, j: int)
    requires
        near_at(highest_per_group(a), highest_per_group(b), j),
    ensures
        near_at(highest_per_group(a + q), highest_per_group(b + q), j),
    decreases q.len(),
{
    if q.len() > 0 {
        lemma_highest_near_extend(a, b, q.drop_last(), j);
        assert((a + q).drop_last() =~= a + q.drop_last());
        assert((b + q).drop_last() =~= b + q.drop_last());
        lemma_step_near(highest_per_group(a + q.drop_last()), highest_per_group(b + q.drop_last()), j, q.last());
    } else {
        assert(a + q =~= a);
        assert(b + q =~= b);
    }
}

/// Two highest-only modifiers of one group entering it in either order
/// leave it with equal magnitudes.
proof fn lemma_one_group_near(hp: Seq<(Option<Seq<char>>, DecimalView)>, x: ModifierView, y: ModifierView)
    requires
        x.stacking_behaviour == StackingBehaviour::HighestOnly,
        y.stacking_behaviour == StackingBehaviour::HighestOnly,
        x.group == y.group,
    ensures
        near_at(
            highest_step(highest_step(hp, x), y),
            highest_step(highest_step(hp, y), x),
            if group_position(hp, x.group) >= 0 { group_position(hp, x.group) } else { hp.len() as int },
        ),
{
    let g = x.group;
    let mx = x.magnitude;
    let my = y.magnitude;
    let i = group_position(hp, g);
    lemma_position_bounds(hp, g);
    let hx = highest_step(hp, x);
    let hy = highest_step(hp, y);
    let l = highest_step(hx, y);
    let r = highest_step(hy, x);
    if i >= 0 {
        let v = hp[i].1;
        let s = v.1 + mx.1 + my.1;
        lemma_compare_at(mx, v, s);
        lemma_compare_at(v, mx, s);
        lemma_compare_at(my, v, s);
        lemma_compare_at(v, my, s);
        lemma_compare_at(mx, my, s);
        lemma_compare_at(my, mx, s);
        lemma_compare_at(mx, mx, s);
        lemma_compare_at(my, my, s);
        lemma_compare_at(v, v, s);
        assert forall|k: int| 0 <= k < hp.len() implies #[trigger] hp[k].0 == hx[k].0 by {}
        assert forall|k: int| 0 <= k < hp.len() implies #[trigger] hp[k].0 == hy[k].0 by {}
        lemma_same_keys_position(hp, hx, g);
        lemma_same_keys_position(hp, hy, g);
        assert forall|k: int| 0 <= k < l.len() && k != i implies #[trigger] r[k] == l[k] by {}
    } else {
        lemma_push_position(hp, (g, mx), g);
        lemma_push_position(hp, (g, my), g);
        let s = mx.1 + my.1;
        lemma_compare_at(mx, my, s);
        lemma_compare_at(my, mx, s);
        lemma_compare_at(mx, mx, s);
        lemma_compare_at(my, my, s);
        assert forall|k: int| 0 <= k < l.len() && k != hp.len() implies #[trigger] r[k] == l[k] by {}
    }
}

/// Two neighbouring modifiers can trade places: when both orders give a
/// total multiplier, the two totals are the same number.
pub proof fn lemma_neighbours_commute_in_value(
    p: Seq<ModifierView>,
    x: ModifierView,
    y: ModifierView,
    q: Seq<ModifierView>,
)
    requires
        stacked_total(p + seq![x, y] + q) is Some,
        stacked_total(p + seq![y, x] + q) is Some,
    ensures
        decimal::same_value(
            stacked_total(p + seq![x, y] + q).unwrap(),
            stacked_total(p + seq![y, x] + q).unwrap(),
        ),
{
    let tied = x.stacking_behaviour == StackingBehaviour::HighestOnly && y.stacking_behaviour
        == StackingBehaviour::HighestOnly && x.group == y.group;
    if !tied || !decimal::same_value(x.magnitude, y.magnitude) || x.magnitude == y.magnitude {
        lemma_neighbours_commute(p, x, y, q);
        let t = stacked_total(p + seq![x, y] + q).unwrap();
        assert(decimal::same_value(t, t));
    } else {
        let a = p + seq![x, y];
        let b = p + seq![y, x];
        assert(a.drop_last().drop_last() =~= p);
        assert(b.drop_last().drop_last() =~= p);
        assert(a.drop_last() =~= p.push(x));
        assert(b.drop_last() =~= p.push(y));
        assert(p.push(x).drop_last() =~= p);
        assert(p.push(y).drop_last() =~= p);
        assert(a.last() == y && b.last() == x && p.push(x).last() == x && p.push(y).last() == y);
        // neither is additive or multiplicative
        let ap = additive_sum(p);
        assert(additive_sum(p.push(x)) == ap);
        assert(additive_sum(p.push(y)) == ap);
        assert(additive_sum(a) == additive_sum(b));
        lemma_additive_extend(a, b, q);
        let hp = highest_per_group(p);
        assert(highest_per_group(p.push(x)) == highest_step(hp, x));
        assert(highest_per_group(p.push(y)) == highest_step(hp, y));
        assert(highest_per_group(a) == highest_step(highest_step(hp, x), y));
        assert(highest_per_group(b) == highest_step(highest_step(hp, y), x));
        lemma_one_group_near(hp, x, y);
        let j = if group_position(hp, x.group) >= 0 { group_position(hp, x.group) } else { hp.len() as int };
        lemma_highest_near_extend(a, b, q, j);
        let xy = seq![x, y];
        let yx = seq![y, x];
        assert(xy.drop_last() =~= seq![x]);
        assert(yx.drop_last() =~= seq![y]);
        assert(seq![x].drop_last() =~= Seq::<ModifierView>::empty());
        assert(seq![y].drop_last() =~= Seq::<ModifierView>::empty());
        assert(xy.last() == y && yx.last() == x && seq![x].last() == x && seq![y].last() == y);
        assert(multiplicative_magnitudes(Seq::<ModifierView>::empty()) == Seq::<DecimalView>::empty());
        assert(multiplicative_magnitudes(seq![x]) =~= Seq::<DecimalView>::empty());
        assert(multiplicative_magnitudes(seq![y]) =~= Seq::<DecimalView>::empty());
        assert(multiplicative_magnitudes(xy) =~= Seq::<DecimalView>::empty());
        assert(multiplicative_magnitudes(yx) =~= Seq::<DecimalView>::empty());
        lemma_multiplicative_concat(p, xy);
        lemma_multiplicative_concat(p, yx);
        lemma_multiplicative_concat(a, q);
        lemma_multiplicative_concat(b, q);
        let ha = highest_per_group(a + q);
        let hb = highest_per_group(b + q);
        let fa = factor_magnitudes(a + q);
        let fb = factor_magnitudes(b + q);
        let off = (multiplicative_magnitudes(p) + multiplicative_magnitudes(q)).len();
        assert(fa.len() == fb.len());
        assert forall|i: int| 0 <= i < fa.len() implies decimal::same_value(#[trigger] fa[i], fb[i]) by {
            if i < off {
                assert(fa[i] == fb[i]);
            } else if i - off != j {
                assert(hb[i - off] == ha[i - off]);
                assert(fa[i] == fb[i]);
            }
            if fa[i] == fb[i] {
                assert(decimal::same_value(fa[i], fa[i]));
            }
        }
        assert((a + q).len() > 0);
        assert((b + q).len() > 0);
        lemma_factor_same_value(fa, fb);
        let sa = decimal::sum_of(one(), additive_sum(a + q));
        assert(decimal::same_value(sa, sa));
        lemma_product_same_value(sa, sa, factor_product(fa).unwrap(), factor_product(fb).unwrap());
        lemma_clamp_same_value(
            decimal::product_of(sa, factor_product(fa).unwrap()).unwrap(),
            decimal::product_of(sa, factor_product(fb).unwrap()).unwrap(),
        );
    }
}

/// Of any two highest-only modifiers of one group in `s` whose magnitudes
/// are the same number, the magnitudes are also written alike.
pub open spec fn ties_written_alike(s: Seq<ModifierView>) -> bool {
    forall|i: int, j: int|
        #![trigger s[i], s[j]]
        0 <= i < s.len() && 0 <= j < s.len() && s[i].stacking_behaviour
            == StackingBehaviour::HighestOnly && s[j].stacking_behaviour
            == StackingBehaviour::HighestOnly && s[i].group == s[j].group && decimal::same_value(
            s[i].magnitude,
            s[j].magnitude,
        ) ==> s[i].magnitude == s[j].magnitude
}

/// Moving the modifier at `k` of `u` to the front of `u` keeps the total.
proof fn lemma_move_front(p: Seq<ModifierView>, u: Seq<ModifierView>, k: int)
    requires
        0 <= k < u.len(),
        ties_written_alike(u),
    ensures
        stacked_total(p + u) == stacked_total(p + seq![u[k]] + u.remove(k)),
    decreases k,
{
    if k == 0 {
        assert(p + u =~= p + seq![u[0]] + u.remove(0));
    } else {
        let x = u[k - 1];
        let y = u[k];
        let pre = p + u.take(k - 1);
        let post = u.skip(k + 1);
        assert(p + u =~= pre + seq![x, y] + post);
        let v = u.take(k - 1) + seq![y, x] + post;
        assert(p + v =~= pre + seq![y, x] + post);
        assert(ties_written_alike(u) ==> (x.stacking_behaviour == StackingBehaviour::HighestOnly
            && y.stacking_behaviour == StackingBehaviour::HighestOnly && x.group == y.group
            && decimal::same_value(x.magnitude, y.magnitude) ==> x.magnitude == y.magnitude));
        lemma_neighbours_commute(pre, x, y, post);
        assert(v.len() == u.len());
        assert forall|i: int| 0 <= i < v.len() implies #[trigger] v[i] == u[if i == k - 1 {
            k
        } else if i == k {
            k - 1
        } else {
            i
        }] by {}
        assert forall|i: int, j: int|
            #![trigger v[i], v[j]]
            0 <= i < v.len() && 0 <= j < v.len() && v[i].stacking_behaviour
                == StackingBehaviour::HighestOnly && v[j].stacking_behaviour
                == StackingBehaviour::HighestOnly && v[i].group == v[j].group && decimal::same_value(
                v[i].magnitude,
                v[j].magnitude,
            ) implies v[i].magnitude == v[j].magnitude by {
            let ii = if i == k - 1 { k } else if i == k { k - 1 } else { i };
            let jj = if j == k - 1 { k } else if j == k { k - 1 } else { j };
            assert(v[i] == u[ii]);
            assert(v[j] == u[jj]);
        }
        lemma_move_front(p, v, k - 1);
        assert(v[k - 1] == y);
        assert(v.remove(k - 1) =~= u.remove(k));
    }
}

/// Totals after a common prefix `p` agree for any two orders of the same modifiers.
proof fn lemma_order_free_after(p: Seq<ModifierView>, u: Seq<ModifierView>, w: Seq<ModifierView>)
    requires
        u.to_multiset() == w.to_multiset(),
        ties_written_alike(u),
    ensures
        stacked_total(p + u) == stacked_total(p + w),
    decreases u.len(),
{
    broadcast use vstd::seq_lib::group_to_multiset_ensures;

    assert(u.len() == u.to_multiset().len());
    assert(w.len() == w.to_multiset().len());
    if u.len() == 0 {
        assert(u =~= w);
    } else {
        let e = w[0];
        assert(w.contains(e));
        assert(w.to_multiset().count(e) > 0);
        assert(u.contains(e));
        let k = choose|k: int| 0 <= k < u.len() && u[k] == e;
        lemma_move_front(p, u, k);
        let u2 = u.remove(k);
        let w2 = w.remove(0);
        assert(u2.to_multiset() =~= u.to_multiset().remove(e));
        assert(w2.to_multiset() =~= w.to_multiset().remove(e));
        assert forall|i: int, j: int|
            #![trigger u2[i], u2[j]]
            0 <= i < u2.len() && 0 <= j < u2.len() && u2[i].stacking_behaviour
                == StackingBehaviour::HighestOnly && u2[j].stacking_behaviour
                == StackingBehaviour::HighestOnly && u2[i].group == u2[j].group && decimal::same_value(
                u2[i].magnitude,
                u2[j].magnitude,
            ) implies u2[i].magnitude == u2[j].magnitude by {
            let ii = if i < k { i } else { i + 1 };
            let jj = if j < k { j } else { j + 1 };
            assert(u2[i] == u[ii]);
            assert(u2[j] == u[jj]);
        }
        lemma_order_free_after(p.push(e), u2, w2);
        assert(p + seq![u[k]] + u2 =~= p.push(e) + u2);
        assert(p + w =~= p.push(e) + w2);
    }
}

/// The total multiplier does not depend on the order of the modifiers:
/// any two orders of the same modifiers give the same total, provided that
/// highest-only modifiers of one group with equal magnitudes write them
/// alike.
pub proof fn lemma_stacking_order_free(a: Seq<ModifierView>, b: Seq<ModifierView>)
    requires
        a.to_multiset() == b.to_multiset(),
        ties_written_alike(a),
    ensures
        stacked_total(a) == stacked_total(b),
{
    let none = Seq::<ModifierView>::empty();
    lemma_order_free_after(none, a, b);
    assert(none + a =~= a);
    assert(none + b =~= b);
}

/// Every magnitude of `s` has at most `bound` decimal places.
pub open spec fn scales_at_most(s: Seq<ModifierView>, bound: nat) -> bool {
    forall|i: int| 0 <= i < s.len() ==> #[trigger] s[i].magnitude.1 <= bound
}

proof fn lemma_parts_bounded(s: Seq<ModifierView>, bound: nat)
    requires
        scales_at_most(s, bound),
    ensures
        additive_sum(s).1 <= bound,
        forall|j: int| 0 <= j < multiplicative_magnitudes(s).len() ==> #[trigger] multiplicative_magnitudes(s)[j].1 <= bound,
        forall|j: int| 0 <= j < highest_per_group(s).len() ==> #[trigger] highest_per_group(s)[j].1.1 <= bound,
        multiplicative_magnitudes(s).len() + highest_per_group(s).len() <= s.len(),
    decreases s.len(),
{
    if s.len() > 0 {
        let d = s.drop_last();
        assert forall|i: int| 0 <= i < d.len() implies #[trigger] d[i].magnitude.1 <= bound by {
            assert(d[i] == s[i]);
        }
        lemma_parts_bounded(d, bound);
        let m = s.last();
        assert(m.magnitude.1 <= bound);
        let prev = highest_per_group(d);
        if m.stacking_behaviour == StackingBehaviour::HighestOnly {
            lemma_position_bounds(prev, m.group);
        }
    }
}

proof fn lemma_factor_bounded(ms: Seq<DecimalView>, bound: nat)
    requires
        forall|j: int| 0 <= j < ms.len() ==> #[trigger] ms[j].1 <= bound,
        ms.len() * bound <= u32::MAX,
    ensures
        factor_product(ms) is Some,
        factor_product(ms).unwrap().1 <= ms.len() * bound,
    decreases ms.len(),
{
    if ms.len() > 0 {
        let d = ms.drop_last();
        assert forall|j: int| 0 <= j < d.len() implies #[trigger] d[j].1 <= bound by {
            assert(d[j] == ms[j]);
        }
        assert(d.len() * bound + bound == ms.len() * bound) by (nonlinear_arith)
            requires
                d.len() + 1 == ms.len(),
        ;
        assert(d.len() * bound <= ms.len() * bound) by (nonlinear_arith)
            requires
                d.len() + 1 == ms.len(),
        ;
        lemma_factor_bounded(d, bound);
        assert(ms.last().1 <= bound);
    }
}

/// Modifiers with few enough decimal places always give a total.
proof fn lemma_total_exists(s: Seq<ModifierView>, bound: nat)
    requires
        scales_at_most(s, bound),
        (s.len() + 1) * bound <= u32::MAX,
    ensures
        stacked_total(s) is Some,
{
    if s.len() > 0 {
        lemma_parts_bounded(s, bound);
        let fm = factor_magnitudes(s);
        let hs = highest_per_group(s);
        let hm = hs.map_values(|g: (Option<Seq<char>>, DecimalView)| g.1);
        assert forall|j: int| 0 <= j < fm.len() implies #[trigger] fm[j].1 <= bound by {
            let ml = multiplicative_magnitudes(s).len();
            if j >= ml {
                assert(fm[j] == hm[j - ml]);
                assert(hm[j - ml] == hs[j - ml].1);
            }
        }
        assert(fm.len() <= s.len());
        assert(fm.len() * bound <= s.len() * bound) by (nonlinear_arith)
            requires
                fm.len() <= s.len(),
        ;
        assert(s.len() * bound + bound == (s.len() + 1) * bound) by (nonlinear_arith);
        lemma_factor_bounded(fm, bound);
    }
}

proof fn lemma_same_value_transitive(a: DecimalView, b: DecimalView, c: DecimalView)
    requires
        decimal::same_value(a, b),
        decimal::same_value(b, c),
    ensures
        decimal::same_value(a, c),
{
    let s = a.1 + b.1 + c.1;
    lemma_compare_at(a, b, s);
    lemma_compare_at(b, c, s);
    lemma_compare_at(a, c, s);
}

/// Moving the modifier at `k` of `u` to the front of `u` keeps the value of the total.
proof fn lemma_move_front_in_value(p: Seq<ModifierView>, u: Seq<ModifierView>, k: int, bound: nat)
    requires
        0 <= k < u.len(),
        scales_at_most(p + u, bound),
        ((p + u).len() + 1) * bound <= u32::MAX,
    ensures
        stacked_total(p + u) is Some,
        stacked_total(p + seq![u[k]] + u.remove(k)) is Some,
        decimal::same_value(
            stacked_total(p + u).unwrap(),
            stacked_total(p + seq![u[k]] + u.remove(k)).unwrap(),
        ),
    decreases k,
{
    lemma_total_exists(p + u, bound);
    if k == 0 {
        assert(p + u =~= p + seq![u[0]] + u.remove(0));
        let t = stacked_total(p + u).unwrap();
        assert(decimal::same_value(t, t));
    } else {
        let x = u[k - 1];
        let y = u[k];
        let pre = p + u.take(k - 1);
        let post = u.skip(k + 1);
        assert(p + u =~= pre + seq![x, y] + post);
        let v = u.take(k - 1) + seq![y, x] + post;
        assert(p + v =~= pre + seq![y, x] + post);
        assert forall|i: int| 0 <= i < (p + v).len() implies #[trigger] (p + v)[i].magnitude.1 <= bound by {
            let ii = if i == p.len() + k - 1 {
                p.len() + k
            } else if i == p.len() + k {
                p.len() + k - 1
            } else {
                i
            };
            assert((p + v)[i] == (p + u)[ii]);
        }
        lemma_total_exists(p + v, bound);
        lemma_neighbours_commute_in_value(pre, x, y, post);
        lemma_move_front_in_value(p, v, k - 1, bound);
        assert(v[k - 1] == y);
        assert(v.remove(k - 1) =~= u.remove(k));
        lemma_same_value_transitive(
            stacked_total(p + u).unwrap(),
            stacked_total(p + v).unwrap(),
            stacked_total(p + seq![u[k]] + u.remove(k)).unwrap(),
        );
    }
}

proof fn lemma_order_free_in_value_after(p: Seq<ModifierView>, u: Seq<ModifierView>, w: Seq<ModifierView>, bound: nat)
    requires
        u.to_multiset() == w.to_multiset(),
        scales_at_most(p + u, bound),
        ((p + u).len() + 1) * bound <= u32::MAX,
    ensures
        stacked_total(p + u) is Some,
        stacked_total(p + w) is Some,
        decimal::same_value(stacked_total(p + u).unwrap(), stacked_total(p + w).unwrap()),
    decreases u.len(),
{
    broadcast use vstd::seq_lib::group_to_multiset_ensures;

    lemma_total_exists(p + u, bound);
    assert(u.len() == u.to_multiset().len());
    assert(w.len() == w.to_multiset().len());
    if u.len() == 0 {
        assert(u =~= w);
        let t = stacked_total(p + u).unwrap();
        assert(decimal::same_value(t, t));
    } else {
        let e = w[0];
        assert(w.contains(e));
        assert(w.to_multiset().count(e) > 0);
        assert(u.contains(e));
        let k = choose|k: int| 0 <= k < u.len() && u[k] == e;
        lemma_move_front_in_value(p, u, k, bound);
        let u2 = u.remove(k);
        let w2 = w.remove(0);
        assert(u2.to_multiset() =~= u.to_multiset().remove(e));
        assert(w2.to_multiset() =~= w.to_multiset().remove(e));
        let q = p.push(e) + u2;
        assert(q =~= p + seq![u[k]] + u2);
        assert forall|i: int| 0 <= i < q.len() implies #[trigger] q[i].magnitude.1 <= bound by {
            let ii = if i < p.len() {
                i
            } else if i == p.len() {
                p.len() + k
            } else if i - p.len() - 1 < k {
                i - 1
            } else {
                i
            };
            assert(q[i] == (p + u)[ii]);
        }
        lemma_order_free_in_value_after(p.push(e), u2, w2, bound);
        assert(p + w =~= p.push(e) + w2);
        lemma_same_value_transitive(
            stacked_total(p + u).unwrap(),
            stacked_total(q).unwrap(),
            stacked_total(p + w).unwrap(),
        );
    }
}

/// Any two orders of the same modifiers give totals of the same value, as
/// long as their magnitudes have few enough decimal places for every total
/// to be written (`bound` places each, `(n + 1) * bound` at most 2^32 - 1
/// for `n` modifiers).
pub proof fn lemma_stacking_order_free_in_value(a: Seq<ModifierView>, b: Seq<ModifierView>, bound: nat)
    requires
        a.to_multiset() == b.to_multiset(),
        scales_at_most(a, bound),
        (a.len() + 1) * bound <= u32::MAX,
    ensures
        stacked_total(a) is Some,
        stacked_total(b) is Some,
        decimal::same_value(stacked_total(a).unwrap(), stacked_total(b).unwrap()),
{
    let none = Seq::<ModifierView>::empty();
    assert(none + a =~= a);
    assert(none + b =~= b);
    lemma_order_free_in_value_after(none, a, b, bound);
}

} // verus!

//! Resource production and collection.
//!
//! Production fills a player's accumulator at the player's hourly rates, up
//! to the accumulator caps; collection moves as much of the accumulator into
//! storage as the storage caps allow.
use vstd::prelude::*;

use crate::domain::decimal::{self, Decimal, DecimalView};
use crate::domain::error::{Error, ErrorKind};
use crate::domain::modifier::ModifierTarget;
use crate::domain::player::{PlayerAccumulator, PlayerKey, PlayerResource, ResourceAmounts};
use crate::domain::resource::ResourceType;
use crate::game::modifiers::modifier_operations::{self, FullModifier};

verus! {

/// A player's base hourly production and accumulator caps.
#[derive(Clone, Copy, Debug, PartialEq, Eq)]
pub struct ResourceGeneration {
    pub player_id: PlayerKey,
    pub population: i64,
    pub food: i64,
    pub wood: i64,
    pub stone: i64,
    pub gold: i64,
    pub food_acc_cap: i64,
    pub wood_acc_cap: i64,
    pub stone_acc_cap: i64,
    pub gold_acc_cap: i64,
}

/// A decimal value for some of the resource types.
#[derive(Debug)]
pub struct ResourceRates {
    pub population: Option<Decimal>,
    pub food: Option<Decimal>,
    pub wood: Option<Decimal>,
    pub stone: Option<Decimal>,
    pub gold: Option<Decimal>,
}

/// The multiplier of each resource type that has one.
pub type ResourceMultipliers = ResourceRates;

/// The hourly production rate of each resource type that has one.
pub type ResourceProductionRates = ResourceRates;

/// A decimal, if any, as values.
pub open spec fn opt_view(d: Option<Decimal>) -> Option<DecimalView> {
    match d {
        Some(x) => Some(x@),
        None => None,
    }
}

/// The value that `rates` holds for resource type `t`.
pub open spec fn rate_of(rates: ResourceRates, t: ResourceType) -> Option<DecimalView> {
    match t {
        ResourceType::Population => opt_view(rates.population),
        ResourceType::Food => opt_view(rates.food),
        ResourceType::Wood => opt_view(rates.wood),
        ResourceType::Stone => opt_view(rates.stone),
        ResourceType::Gold => opt_view(rates.gold),
    }
}

/// The base hourly rate of resource type `t`.
pub open spec fn base_rate_of(g: ResourceGeneration, t: ResourceType) -> i64 {
    match t {
        ResourceType::Population => g.population,
        ResourceType::Food => g.food,
        ResourceType::Wood => g.wood,
        ResourceType::Stone => g.stone,
        ResourceType::Gold => g.gold,
    }
}

/// Where a collection leaves one resource, from the accumulated amount, the
/// stored amount and the storage cap: the amount moved is the smaller of what
/// was accumulated and the room left in storage. `None` when a 64-bit
/// intermediate overflows.
pub open spec fn collected(acc: i64, stored: i64, cap: i64) -> Option<(i64, i64)> {
    let room = cap - stored;
    let moved = if acc <= room {
        acc as int
    } else {
        room
    };
    if room < i64::MIN || room > i64::MAX || acc - moved < i64::MIN || acc - moved > i64::MAX
        || stored + moved < i64::MIN || stored + moved > i64::MAX {
        None
    } else {
        Some(((acc - moved) as i64, (stored + moved) as i64))
    }
}

/// The accumulator and storage after collecting each of food, wood, stone
/// and gold as `collected` says; `None` when any of them overflows.
pub open spec fn collection(acc: PlayerAccumulator, res: PlayerResource) -> Option<(PlayerAccumulator, PlayerResource)> {
    match (
        collected(acc.food, res.food, res.food_cap),
        collected(acc.wood, res.wood, res.wood_cap),
        collected(acc.stone, res.stone, res.stone_cap),
        collected(acc.gold, res.gold, res.gold_cap),
    ) {
        (Some(f), Some(w), Some(s), Some(g)) => Some((
            PlayerAccumulator { food: f.0, wood: w.0, stone: s.0, gold: g.0, ..acc },
            PlayerResource { food: f.1, wood: w.1, stone: s.1, gold: g.1, ..res },
        )),
        _ => None,
    }
}

/// One resource of the accumulator after production: the accumulated amount
/// plus the amount produced, limited to the cap. `None` on overflow.
pub open spec fn accumulated(acc: i64, produced: i64, cap: i64) -> Option<i64> {
    if acc + produced < i64::MIN || acc + produced > i64::MAX {
        None
    } else if acc + produced <= cap {
        Some((acc + produced) as i64)
    } else {
        Some(cap)
    }
}

/// The accumulator after producing the amounts `p` (food, wood, stone,
/// gold) under the caps of `g`.
pub open spec fn accumulation(acc: PlayerAccumulator, g: ResourceGeneration, p: ResourceAmounts) -> Option<PlayerAccumulator> {
    match (
        accumulated(acc.food, p.0, g.food_acc_cap),
        accumulated(acc.wood, p.1, g.wood_acc_cap),
        accumulated(acc.stone, p.2, g.stone_acc_cap),
        accumulated(acc.gold, p.3, g.gold_acc_cap),
    ) {
        (Some(f), Some(w), Some(s), Some(gd)) => Some(PlayerAccumulator { food: f, wood: w, stone: s, gold: gd, ..acc }),
        _ => None,
    }
}

/// The whole number of seconds from `from` to `to` (Unix microseconds),
/// rounded toward zero, when the difference fits in 64 bits.
pub open spec fn elapsed_seconds(from: i64, to: i64) -> Option<i64> {
    if to - from < i64::MIN || to - from > i64::MAX {
        None
    } else {
        let d = to - from;
        Some(
            (if d >= 0 {
                d / 1_000_000
            } else {
                -((-d) / 1_000_000)
            }) as i64,
        )
    }
}

/// Seconds in an hour: an hourly rate is multiplied by the elapsed seconds
/// divided by this.
pub const SECONDS_PER_HOUR: i64 = 3600;

/// The elapsed hours, `seconds / 3600` as `bigdecimal` divides.
pub open spec fn hours_of(seconds: i64) -> Option<DecimalView> {
    decimal::decimal_quotient(decimal::int_decimal(seconds as int), SECONDS_PER_HOUR)
}

/// The amount produced at the hourly `rate` in the elapsed `hours`: their
/// exact product truncated toward zero; 0 when there is no rate, or the
/// amount does not fit in 64 bits.
pub open spec fn output_for(rate: Option<DecimalView>, hours: Option<DecimalView>) -> i64 {
    match (rate, hours) {
        (Some(r), Some(h)) => match decimal::product_of(r, h) {
            Some(p) => match decimal::truncated_in_i64(p.0, p.1) {
                Some(n) => n,
                None => 0,
            },
            None => 0,
        },
        _ => 0,
    }
}

/// The amount of one resource produced over `seconds`.
pub open spec fn output_of(rates: ResourceRates, t: ResourceType, seconds: i64) -> i64 {
    output_for(rate_of(rates, t), hours_of(seconds))
}

/// The amount of one resource produced over a whole number of hours
/// `seconds`: the rate times the hours, truncated toward zero; 0 when the
/// type has no rate or the amount does not fit in 64 bits.
pub open spec fn whole_hours_output(rate: Option<DecimalView>, seconds: i64) -> i64 {
    match rate {
        Some(r) => match decimal::truncated_in_i64(r.0 * (seconds / SECONDS_PER_HOUR), r.1) {
            Some(n) => n,
            None => 0,
        },
        None => 0,
    }
}

fn output(rate: &Option<Decimal>, hours: &Option<Decimal>) -> (n: i64)
    ensures
        n == output_for(opt_view(*rate), opt_view(*hours)),
{
    match (rate, hours) {
        (Some(r), Some(h)) => match r.checked_mul(h) {
            Some(p) => match p.to_i64() {
                Some(n) => n,
                None => 0,
            },
            None => 0,
        },
        _ => 0,
    }
}

fn collect_one(acc: i64, stored: i64, cap: i64) -> (r: Option<(i64, i64)>)
    ensures
        r == collected(acc, stored, cap),
{
    let room = match cap.checked_sub(stored) {
        Some(room) => room,
        None => return None,
    };
    let moved = if acc <= room {
        acc
    } else {
        room
    };
    match (acc.checked_sub(moved), stored.checked_add(moved)) {
        (Some(left), Some(now)) => Some((left, now)),
        _ => None,
    }
}

fn out_of_range<T>() -> (r: Result<T, Error>)
    ensures
        r matches Err(e) && e.kind == ErrorKind::InternalError,
{
    Err(Error::new(ErrorKind::InternalError, "Resource amount out of range"))
}

/// Collects resources: for each of food, wood, stone and gold, moves the
/// smaller of the accumulated amount and the room left under the storage cap
/// from the accumulator into storage. Returns the new accumulator and
/// storage; fails with `InternalError` when an amount leaves the 64-bit
/// range.
pub fn collect_resources(acc: &PlayerAccumulator, res: &PlayerResource) -> (r: Result<(PlayerAccumulator, PlayerResource), Error>)
    ensures
        match collection(*acc, *res) {
            Some(v) => r == Ok::<(PlayerAccumulator, PlayerResource), Error>(v),
            None => r matches Err(e) && e.kind == ErrorKind::InternalError,
        },
{
    let f = collect_one(acc.food, res.food, res.food_cap);
    let w = collect_one(acc.wood, res.wood, res.wood_cap);
    let s = collect_one(acc.stone, res.stone, res.stone_cap);
    let g = collect_one(acc.gold, res.gold, res.gold_cap);
    match (f, w, s, g) {
        (Some(f), Some(w), Some(s), Some(g)) => Ok((
            PlayerAccumulator { food: f.0, wood: w.0, stone: s.0, gold: g.0, ..*acc },
            PlayerResource { food: f.1, wood: w.1, stone: s.1, gold: g.1, ..*res },
        )),
        _ => out_of_range(),
    }
}

fn accumulate_one(acc: i64, produced: i64, cap: i64) -> (r: Option<i64>)
    ensures
        r == accumulated(acc, produced, cap),
{
    match acc.checked_add(produced) {
        Some(total) => if total <= cap {
            Some(total)
        } else {
            Some(cap)
        },
        None => None,
    }
}

/// Adds the produced amounts (food, wood, stone, gold) to the accumulator,
/// each limited to its accumulator cap; fails with `InternalError` when a
/// sum leaves the 64-bit range.
pub fn accumulate(acc: &PlayerAccumulator, caps: &ResourceGeneration, produced: ResourceAmounts) -> (r: Result<PlayerAccumulator, Error>)
    ensures
        match accumulation(*acc, *caps, produced) {
            Some(a) => r == Ok::<PlayerAccumulator, Error>(a),
            None => r matches Err(e) && e.kind == ErrorKind::InternalError,
        },
{
    let f = accumulate_one(acc.food, produced.0, caps.food_acc_cap);
    let w = accumulate_one(acc.wood, produced.1, caps.wood_acc_cap);
    let s = accumulate_one(acc.stone, produced.2, caps.stone_acc_cap);
    let g = accumulate_one(acc.gold, produced.3, caps.gold_acc_cap);
    match (f, w, s, g) {
        (Some(f), Some(w), Some(s), Some(g)) => Ok(PlayerAccumulator { food: f, wood: w, stone: s, gold: g, ..*acc }),
        _ => out_of_range(),
    }
}

/// The accumulator after producing from the player's last production time
/// `produced_at` to `up_to` at the hourly `rates`; `None` when the elapsed
/// time or a sum overflows.
pub open spec fn production(
    acc: PlayerAccumulator,
    caps: ResourceGeneration,
    rates: ResourceProductionRates,
    produced_at: i64,
    up_to: i64,
) -> Option<PlayerAccumulator> {
    match elapsed_seconds(produced_at, up_to) {
        Some(secs) => accumulation(
            acc,
            caps,
            (
                output_of(rates, ResourceType::Food, secs),
                output_of(rates, ResourceType::Wood, secs),
                output_of(rates, ResourceType::Stone, secs),
                output_of(rates, ResourceType::Gold, secs),
            ),
        ),
        None => None,
    }
}

/// `res` with its last production time moved to `at`.
pub open spec fn produced_until(res: PlayerResource, at: i64) -> PlayerResource {
    PlayerResource { produced_at: at, ..res }
}

/// Produces resources: the time from the player's last production
/// (`res.produced_at`) to `up_to` (Unix microseconds) in whole seconds,
/// divided by 3600 as `bigdecimal` divides, times each hourly rate, truncated
/// toward zero, gives the amount of each of food, wood, stone and gold (0 for
/// a type without a rate or whose amount does not fit in 64 bits), which is
/// added to the accumulator up to its caps. Returns the new accumulator and
/// the player's resources with the production time moved to `up_to`; the
/// stored amounts do not change. Fails with `InternalError` when the elapsed
/// time or a sum leaves the 64-bit range.
pub fn produce_resources(
    acc: &PlayerAccumulator,
    caps: &ResourceGeneration,
    res: &PlayerResource,
    rates: &ResourceProductionRates,
    up_to: i64,
) -> (r: Result<(PlayerAccumulator, PlayerResource), Error>)
    ensures
        match production(*acc, *caps, *rates, res.produced_at, up_to) {
            Some(a) => r == Ok::<(PlayerAccumulator, PlayerResource), Error>((a, produced_until(*res, up_to))),
            None => r matches Err(e) && e.kind == ErrorKind::InternalError,
        },
        match elapsed_seconds(res.produced_at, up_to) {
            Some(secs) => secs % SECONDS_PER_HOUR == 0 ==> match accumulation(
                *acc,
                *caps,
                (
                    whole_hours_output(opt_view(rates.food), secs),
                    whole_hours_output(opt_view(rates.wood), secs),
                    whole_hours_output(opt_view(rates.stone), secs),
                    whole_hours_output(opt_view(rates.gold), secs),
                ),
            ) {
                Some(a) => r == Ok::<(PlayerAccumulator, PlayerResource), Error>((a, produced_until(*res, up_to))),
                None => r matches Err(e) && e.kind == ErrorKind::InternalError,
            },
            None => true,
        },
{
    let micros = match up_to.checked_sub(res.produced_at) {
        Some(d) => d,
        None => return out_of_range(),
    };
    let secs = micros / 1_000_000;
    let hours = Decimal::from_int(secs).div_int(SECONDS_PER_HOUR);
    proof {
        if secs % SECONDS_PER_HOUR == 0 {
            assert(decimal::pow10(0) == 1);
            let h = hours.unwrap()@;
            assert(h == (secs / SECONDS_PER_HOUR, 0nat));
            assert forall|r: DecimalView| r.1 <= u32::MAX implies #[trigger] output_for(Some(r), Some(h))
                == whole_hours_output(Some(r), secs) by {
                assert(r.1 + h.1 <= u32::MAX);
            }
        }
    }
    let produced = (
        output(&rates.food, &hours),
        output(&rates.wood, &hours),
        output(&rates.stone, &hours),
        output(&rates.gold, &hours),
    );
    let a = accumulate(acc, caps, produced)?;
    Ok((a, PlayerResource { produced_at: up_to, ..*res }))
}

/// Produces up to `up_to` and then collects, so that a collection takes
/// everything produced until that moment. Returns the accumulator after
/// production and the storage after collection.
pub fn produce_and_collect_resources(
    acc: &PlayerAccumulator,
    caps: &ResourceGeneration,
    res: &PlayerResource,
    rates: &ResourceProductionRates,
    up_to: i64,
) -> (r: Result<(PlayerAccumulator, PlayerResource), Error>)
    ensures
        match production(*acc, *caps, *rates, res.produced_at, up_to) {
            Some(a) => match collection(a, produced_until(*res, up_to)) {
                Some(c) => r == Ok::<(PlayerAccumulator, PlayerResource), Error>((a, c.1)),
                None => r matches Err(e) && e.kind == ErrorKind::InternalError,
            },
            None => r matches Err(e) && e.kind == ErrorKind::InternalError,
        },
{
    let (accumulator, produced) = produce_resources(acc, caps, res, rates, up_to)?;
    let (_, resources) = collect_resources(&accumulator, &produced)?;
    Ok((accumulator, resources))
}

/// `base` times the multiplier, as the rate of one resource type; no rate
/// without a multiplier.
pub open spec fn scaled_rate(base: i64, multiplier: Option<DecimalView>) -> Option<DecimalView> {
    match multiplier {
        Some(m) => Some((base * m.0, m.1)),
        None => None,
    }
}

fn scale_rate(base: i64, multiplier: &Option<Decimal>) -> (r: Option<Decimal>)
    ensures
        opt_view(r) == scaled_rate(base, opt_view(*multiplier)),
{
    match multiplier {
        Some(m) => Decimal::from_int(base).checked_mul(m),
        None => None,
    }
}

/// The production rates: for each resource type that has a multiplier, its
/// base rate times that multiplier; no rate for the others.
pub open spec fn rates_scale(base: ResourceGeneration, modifiers: ResourceMultipliers, rates: ResourceProductionRates) -> bool {
    &&& opt_view(rates.population) == scaled_rate(base.population, opt_view(modifiers.population))
    &&& opt_view(rates.food) == scaled_rate(base.food, opt_view(modifiers.food))
    &&& opt_view(rates.wood) == scaled_rate(base.wood, opt_view(modifiers.wood))
    &&& opt_view(rates.stone) == scaled_rate(base.stone, opt_view(modifiers.stone))
    &&& opt_view(rates.gold) == scaled_rate(base.gold, opt_view(modifiers.gold))
}

/// Applies multipliers to the base rates: each resource type that has a
/// multiplier gets its base rate times the multiplier, exactly.
pub fn apply_rate_modifiers(base: &ResourceGeneration, modifiers: &ResourceMultipliers) -> (r: ResourceProductionRates)
    ensures
        rates_scale(*base, *modifiers, r),
{
    ResourceRates {
        population: scale_rate(base.population, &modifiers.population),
        food: scale_rate(base.food, &modifiers.food),
        wood: scale_rate(base.wood, &modifiers.wood),
        stone: scale_rate(base.stone, &modifiers.stone),
        gold: scale_rate(base.gold, &modifiers.gold),
    }
}

/// The multiplier of resource type `t` from the modifiers `mods`: their
/// stacked total for resource production of `t`, or 1 when that total cannot
/// be written (more than 2^32 decimal places).
pub open spec fn resource_multiplier(mods: Seq<modifier_operations::ModifierView>, t: ResourceType) -> DecimalView {
    match modifier_operations::stacked_total(
        modifier_operations::aimed_at(mods, ModifierTarget::Resource, Some(t)),
    ) {
        Some(m) => m,
        None => decimal::int_decimal(1),
    }
}

fn multiplier_for(mods: &Vec<FullModifier>, t: ResourceType) -> (m: Decimal)
    ensures
        m@ == resource_multiplier(modifier_operations::views(mods@), t),
{
    match modifier_operations::calc_multiplier(mods, ModifierTarget::Resource, Some(t)) {
        Some(m) => m,
        None => Decimal::from_int(1),
    }
}

/// The production rates of every resource type: its base rate times the
/// multiplier of the player's modifiers `mods` for it.
pub fn calc_prod_rates(base: &ResourceGeneration, mods: &Vec<FullModifier>) -> (r: ResourceProductionRates)
    ensures
        forall|t: ResourceType| #[trigger] rate_of(r, t) == scaled_rate(
            base_rate_of(*base, t),
            Some(resource_multiplier(modifier_operations::views(mods@), t)),
        ),
{
    let multipliers = ResourceRates {
        population: Some(multiplier_for(mods, ResourceType::Population)),
        food: Some(multiplier_for(mods, ResourceType::Food)),
        wood: Some(multiplier_for(mods, ResourceType::Wood)),
        stone: Some(multiplier_for(mods, ResourceType::Stone)),
        gold: Some(multiplier_for(mods, ResourceType::Gold)),
    };
    let r = apply_rate_modifiers(base, &multipliers);
    proof {
        assert forall|t: ResourceType| #[trigger] rate_of(r, t) == scaled_rate(
            base_rate_of(*base, t),
            Some(resource_multiplier(modifier_operations::views(mods@), t)),
        ) by {
            match t {
                ResourceType::Population => {},
                ResourceType::Food => {},
                ResourceType::Wood => {},
                ResourceType::Stone => {},
                ResourceType::Gold => {},
            }
        }
    }
    r
}

/// Collecting moves resources and creates none: for each resource the
/// accumulated and stored amounts add up to what they did before. Storage
/// never ends above its cap, and when the accumulator held no negative amount
/// and storage was within its cap, nothing is taken out of storage and
/// nothing is left in the accumulator unless storage is full.
pub proof fn lemma_collect_conserves(acc: PlayerAccumulator, res: PlayerResource)
    requires
        collection(acc, res) is Some,
    ensures
        ({
            let (a, r) = collection(acc, res).unwrap();
            &&& a.food + r.food == acc.food + res.food
            &&& a.wood + r.wood == acc.wood + res.wood
            &&& a.stone + r.stone == acc.stone + res.stone
            &&& a.gold + r.gold == acc.gold + res.gold
            &&& r.food <= res.food_cap && r.wood <= res.wood_cap
            &&& r.stone <= res.stone_cap && r.gold <= res.gold_cap
            &&& (acc.food >= 0 && res.food <= res.food_cap) ==> (r.food >= res.food && a.food >= 0 && (a.food == 0 || r.food == res.food_cap))
            &&& (acc.wood >= 0 && res.wood <= res.wood_cap) ==> (r.wood >= res.wood && a.wood >= 0 && (a.wood == 0 || r.wood == res.wood_cap))
            &&& (acc.stone >= 0 && res.stone <= res.stone_cap) ==> (r.stone >= res.stone && a.stone >= 0 && (a.stone == 0 || r.stone == res.stone_cap))
            &&& (acc.gold >= 0 && res.gold <= res.gold_cap) ==> (r.gold >= res.gold && a.gold >= 0 && (a.gold == 0 || r.gold == res.gold_cap))
        }),
{
}

/// Collecting twice gives what collecting once gave: once the accumulator
/// holds no negative amount and storage is within its caps, a second
/// collection changes nothing.
pub proof fn lemma_collect_idempotent(acc: PlayerAccumulator, res: PlayerResource)
    requires
        collection(acc, res) is Some,
        acc.food >= 0 && acc.wood >= 0 && acc.stone >= 0 && acc.gold >= 0,
        res.food <= res.food_cap && res.wood <= res.wood_cap,
        res.stone <= res.stone_cap && res.gold <= res.gold_cap,
    ensures
        ({
            let (a, r) = collection(acc, res).unwrap();
            collection(a, r) == Some((a, r))
        }),
{
}

/// Production never takes the accumulator past a cap it was within, and
/// never lowers an amount when what is produced is not negative.
pub proof fn lemma_accumulation_within_caps(acc: PlayerAccumulator, g: ResourceGeneration, p: ResourceAmounts)
    requires
        accumulation(acc, g, p) is Some,
        acc.food <= g.food_acc_cap && acc.wood <= g.wood_acc_cap,
        acc.stone <= g.stone_acc_cap && acc.gold <= g.gold_acc_cap,
        p.0 >= 0 && p.1 >= 0 && p.2 >= 0 && p.3 >= 0,
    ensures
        ({
            let a = accumulation(acc, g, p).unwrap();
            &&& acc.food <= a.food <= g.food_acc_cap
            &&& acc.wood <= a.wood <= g.wood_acc_cap
            &&& acc.stone <= a.stone <= g.stone_acc_cap
            &&& acc.gold <= a.gold <= g.gold_acc_cap
        }),
{
}

} // verus!

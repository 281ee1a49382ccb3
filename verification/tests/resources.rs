use empire::domain::decimal::Decimal;
use empire::domain::error::ErrorKind;
use empire::domain::modifier::{ModifierTarget, StackingBehaviour};
use empire::domain::player::{PlayerAccumulator, PlayerResource};
use empire::domain::resource::ResourceType;
use empire::game::modifiers::modifier_operations::FullModifier;
use empire::game::resources::resource_operations::{
    accumulate, apply_rate_modifiers, calc_prod_rates, collect_resources,
    produce_and_collect_resources, produce_resources, ResourceGeneration, ResourceRates,
};

const PLAYER: u128 = 42;
const MINUTE: i64 = 60_000_000;

fn acc(food: i64, wood: i64, stone: i64, gold: i64) -> PlayerAccumulator {
    PlayerAccumulator { player_id: PLAYER, food, wood, stone, gold }
}

fn storage(amounts: (i64, i64, i64, i64), cap: i64) -> PlayerResource {
    PlayerResource {
        player_id: PLAYER,
        food: amounts.0,
        wood: amounts.1,
        stone: amounts.2,
        gold: amounts.3,
        food_cap: cap,
        wood_cap: cap,
        stone_cap: cap,
        gold_cap: cap,
        produced_at: 0,
        collected_at: 0,
    }
}

fn generation(rate: i64, cap: i64) -> ResourceGeneration {
    ResourceGeneration {
        player_id: PLAYER,
        population: rate,
        food: rate,
        wood: rate,
        stone: rate,
        gold: rate,
        food_acc_cap: cap,
        wood_acc_cap: cap,
        stone_acc_cap: cap,
        gold_acc_cap: cap,
    }
}

fn all_rates(rate: Decimal) -> ResourceRates {
    ResourceRates {
        population: Some(rate.clone()),
        food: Some(rate.clone()),
        wood: Some(rate.clone()),
        stone: Some(rate.clone()),
        gold: Some(rate),
    }
}

fn produced_at(at: i64) -> PlayerResource {
    let mut r = storage((0, 0, 0, 0), 1000);
    r.produced_at = at;
    r
}

fn produce(a: PlayerAccumulator, rates: &ResourceRates, from: i64, to: i64) -> PlayerAccumulator {
    let (acc, res) = produce_resources(&a, &generation(0, 1000), &produced_at(from), rates, to).unwrap();
    assert_eq!(res.produced_at, to);
    assert_eq!(res, PlayerResource { produced_at: to, ..produced_at(from) });
    acc
}

#[test]
fn collect_moves_what_fits() {
    let (a, r) = collect_resources(&acc(50, 200, 0, 10), &storage((900, 900, 1000, 0), 1000)).unwrap();
    // food fits whole, wood is cut at the cap, stone storage is full
    assert_eq!((a.food, r.food), (0, 950));
    assert_eq!((a.wood, r.wood), (100, 1000));
    assert_eq!((a.stone, r.stone), (0, 1000));
    assert_eq!((a.gold, r.gold), (0, 10));
}

#[test]
fn collecting_again_changes_nothing() {
    let (a, r) = collect_resources(&acc(500, 5, 0, 0), &storage((700, 0, 0, 0), 1000)).unwrap();
    let (a2, r2) = collect_resources(&a, &r).unwrap();
    assert_eq!(a, a2);
    assert_eq!(r, r2);
}

#[test]
fn collect_overflow_is_an_internal_error() {
    let err = collect_resources(&acc(0, 0, 0, 0), &storage((i64::MIN, 0, 0, 0), i64::MAX)).unwrap_err();
    assert_eq!(err.kind, ErrorKind::InternalError);
}

#[test]
fn accumulate_respects_caps() {
    let a = accumulate(&acc(10, 90, 0, 100), &generation(0, 100), (5, 20, 0, 1)).unwrap();
    assert_eq!(a, acc(15, 100, 0, 100));
    let err = accumulate(&acc(i64::MAX, 0, 0, 0), &generation(0, 100), (1, 0, 0, 0)).unwrap_err();
    assert_eq!(err.kind, ErrorKind::InternalError);
}

#[test]
fn produce_uses_hourly_rates() {
    // 3600 per hour over one minute is 60
    let rates = all_rates(Decimal::from_int(3600));
    assert_eq!(produce(acc(0, 0, 0, 7), &rates, 0, MINUTE), acc(60, 60, 60, 67));
}

#[test]
fn produce_truncates_partial_units_and_skips_missing_rates() {
    // 100 per hour over one minute is 1.66..., truncated to 1; wood has no rate
    let mut rates = all_rates(Decimal::from_int(100));
    rates.wood = None;
    assert_eq!(produce(acc(0, 0, 0, 0), &rates, 5 * MINUTE, 6 * MINUTE), acc(1, 0, 1, 1));
}

#[test]
fn produce_stops_at_the_cap() {
    let rates = all_rates(Decimal::from_int(3600));
    assert_eq!(produce(acc(990, 0, 0, 0), &rates, 0, MINUTE).food, 1000);
}

#[test]
fn produce_with_decimal_rate() {
    // 1.5 per second (5400 per hour) over ten seconds is 15
    let rates = all_rates(Decimal::new(54000, 1));
    assert_eq!(produce(acc(0, 0, 0, 0), &rates, 0, 10_000_000), acc(15, 15, 15, 15));
}

#[test]
fn produce_overflow_is_an_internal_error() {
    let rates = all_rates(Decimal::from_int(3600));
    let err = produce_resources(&acc(0, 0, 0, 0), &generation(0, 1000), &produced_at(i64::MIN), &rates, i64::MAX)
        .unwrap_err();
    assert_eq!(err.kind, ErrorKind::InternalError);
}

#[test]
fn produce_and_collect_returns_both_states() {
    let rates = all_rates(Decimal::from_int(3600));
    let (a, r) = produce_and_collect_resources(
        &acc(0, 0, 0, 0),
        &generation(0, 1000),
        &storage((0, 0, 0, 980), 1000),
        &rates,
        MINUTE,
    )
    .unwrap();
    assert_eq!(a, acc(60, 60, 60, 60));
    assert_eq!((r.food, r.gold), (60, 1000));
    assert_eq!(r.produced_at, MINUTE);
}

#[test]
fn rate_modifiers_multiply_base_rates() {
    let multipliers = ResourceRates {
        population: None,
        food: Some(Decimal::new(15, 1)),
        wood: Some(Decimal::from_int(2)),
        stone: None,
        gold: None,
    };
    let rates = apply_rate_modifiers(&generation(100, 0), &multipliers);
    assert!(rates.population.is_none());
    assert!(rates.food.unwrap().same_value(&Decimal::new(1500, 1)));
    assert!(rates.wood.unwrap().same_value(&Decimal::from_int(200)));
}

#[test]
fn prod_rates_use_each_resource_multiplier() {
    let boost = FullModifier {
        target_type: ModifierTarget::Resource,
        target_resource: Some(ResourceType::Gold),
        magnitude: Decimal::new(5, 1),
        stacking_behaviour: StackingBehaviour::Additive,
        stacking_group: None,
    };
    let rates = calc_prod_rates(&generation(10, 0), &vec![boost]);
    assert!(rates.food.unwrap().same_value(&Decimal::from_int(10)));
    assert!(rates.gold.unwrap().same_value(&Decimal::from_int(15)));
}

#[test]
fn whole_hours_produce_exact_amounts() {
    let hour = 60 * MINUTE;
    let rates = all_rates(Decimal::new(125, 2));
    assert_eq!(produce(acc(0, 0, 0, 0), &rates, 0, 4 * hour), acc(5, 5, 5, 5));
    // 3.75 truncated
    assert_eq!(produce(acc(0, 0, 0, 0), &rates, 0, 3 * hour), acc(3, 3, 3, 3));
    assert_eq!(produce(acc(4, 4, 4, 4), &rates, hour, hour), acc(4, 4, 4, 4));
}

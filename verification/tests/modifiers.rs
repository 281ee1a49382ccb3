use empire::domain::decimal::Decimal;
use empire::domain::modifier::{ModifierTarget, StackingBehaviour};
use empire::domain::resource::ResourceType;
use empire::game::modifiers::modifier_operations::{
    apply_stacking_rules, calc_multiplier, FullModifier,
};

fn dec(mantissa: i128, scale: u32) -> Decimal {
    Decimal::new(mantissa, scale)
}

fn same(a: Decimal, b: Decimal) -> bool {
    a.same_value(&b)
}

fn modifier(magnitude: Decimal, stacking: StackingBehaviour, group: Option<&str>) -> FullModifier {
    FullModifier {
        target_type: ModifierTarget::Resource,
        target_resource: Some(ResourceType::Food),
        magnitude,
        stacking_behaviour: stacking,
        stacking_group: group.map(|g| g.to_string()),
    }
}

#[test]
fn no_modifiers_give_one() {
    assert!(same(apply_stacking_rules(&vec![]).unwrap(), dec(1, 0)));
}

#[test]
fn additive_magnitudes_are_summed() {
    // +10% and +20% give 1.3x
    let mods = vec![
        modifier(dec(1, 1), StackingBehaviour::Additive, None),
        modifier(dec(2, 1), StackingBehaviour::Additive, None),
    ];
    let total = apply_stacking_rules(&mods).unwrap();
    assert!(same(total, dec(13, 1)));
}

#[test]
fn multiplicative_magnitudes_compound() {
    // +10% and +20% give 1.32x
    let mods = vec![
        modifier(dec(1, 1), StackingBehaviour::Multiplicative, None),
        modifier(dec(2, 1), StackingBehaviour::Multiplicative, None),
    ];
    let total = apply_stacking_rules(&mods).unwrap();
    assert!(same(total, dec(132, 2)));
}

#[test]
fn only_the_highest_of_a_group_applies() {
    // +10%, +20%, +15% in one group: only +20% applies
    let mods = vec![
        modifier(dec(10, 2), StackingBehaviour::HighestOnly, Some("banner")),
        modifier(dec(20, 2), StackingBehaviour::HighestOnly, Some("banner")),
        modifier(dec(15, 2), StackingBehaviour::HighestOnly, Some("banner")),
    ];
    let total = apply_stacking_rules(&mods).unwrap();
    assert!(same(total, dec(12, 1)));
}

#[test]
fn groups_compete_separately() {
    let mods = vec![
        modifier(dec(1, 1), StackingBehaviour::HighestOnly, Some("a")),
        modifier(dec(5, 1), StackingBehaviour::HighestOnly, Some("b")),
        modifier(dec(3, 1), StackingBehaviour::HighestOnly, Some("a")),
    ];
    // (1 + 0.3) * (1 + 0.5) = 1.95
    let total = apply_stacking_rules(&mods).unwrap();
    assert!(same(total, dec(195, 2)));
}

#[test]
fn all_kinds_combine() {
    let mods = vec![
        modifier(dec(1, 1), StackingBehaviour::Additive, None),
        modifier(dec(1, 1), StackingBehaviour::Multiplicative, None),
        modifier(dec(2, 1), StackingBehaviour::HighestOnly, None),
        modifier(dec(1, 1), StackingBehaviour::HighestOnly, None),
    ];
    // (1 + 0.1) * (1 + 0.1) * (1 + 0.2) = 1.452
    let total = apply_stacking_rules(&mods).unwrap();
    assert!(same(total, dec(1452, 3)));
}

#[test]
fn totals_are_capped_at_three() {
    let mods = vec![modifier(dec(5, 0), StackingBehaviour::Additive, None)];
    assert!(same(apply_stacking_rules(&mods).unwrap(), dec(3, 0)));
}

#[test]
fn totals_are_floored_at_one_half() {
    let mods = vec![modifier(dec(-9, 1), StackingBehaviour::Additive, None)];
    assert!(same(apply_stacking_rules(&mods).unwrap(), dec(5, 1)));
}

#[test]
fn large_magnitudes_sum_exactly_in_any_order() {
    let big = || dec(i128::MAX, 0);
    let minus_big = || dec(-i128::MAX, 0);
    let add = |d| modifier(d, StackingBehaviour::Additive, None);
    let one_way = vec![add(big()), add(dec(1, 0)), add(minus_big())];
    let other_way = vec![add(big()), add(minus_big()), add(dec(1, 0))];
    // 1 + (MAX + 1 - MAX) = 2
    assert!(same(apply_stacking_rules(&one_way).unwrap(), dec(2, 0)));
    assert!(same(apply_stacking_rules(&other_way).unwrap(), dec(2, 0)));
    let mul = |d| modifier(d, StackingBehaviour::Multiplicative, None);
    // (1 + MAX) * (1 + MAX) is far above the cap
    assert!(same(apply_stacking_rules(&vec![mul(big()), mul(big())]).unwrap(), dec(3, 0)));
}

#[test]
fn any_order_of_the_modifiers_gives_the_same_total() {
    let hi = |d, g| modifier(d, StackingBehaviour::HighestOnly, Some(g));
    let first = || hi(dec(2, 1), "a");
    let second = || hi(dec(1, 1), "b");
    let third = || hi(dec(3, 1), "a");
    let mult = || modifier(dec(5, 2), StackingBehaviour::Multiplicative, None);
    let add = || modifier(dec(1, 1), StackingBehaviour::Additive, None);
    let orders = vec![
        vec![first(), second(), third(), mult(), add()],
        vec![second(), first(), mult(), third(), add()],
        vec![third(), mult(), second(), first(), add()],
        vec![add(), mult(), third(), second(), first()],
        vec![second(), add(), first(), mult(), third()],
    ];
    // 1.1 * 1.3 * 1.1 * 1.05 = 1.65165
    for order in orders {
        assert!(same(apply_stacking_rules(&order).unwrap(), dec(165165, 5)));
    }
}

#[test]
fn equal_magnitudes_written_differently_give_equal_totals() {
    let hi = |d| modifier(d, StackingBehaviour::HighestOnly, Some("g"));
    let one_way = vec![hi(dec(5, 1)), hi(dec(50, 2))];
    let other_way = vec![hi(dec(50, 2)), hi(dec(5, 1))];
    assert!(same(apply_stacking_rules(&one_way).unwrap(), dec(15, 1)));
    assert!(same(apply_stacking_rules(&other_way).unwrap(), dec(15, 1)));
}

#[test]
fn calc_multiplier_keeps_only_matching_modifiers() {
    let mut other = modifier(dec(2, 0), StackingBehaviour::Additive, None);
    other.target_resource = Some(ResourceType::Wood);
    let mut training = modifier(dec(2, 0), StackingBehaviour::Additive, None);
    training.target_type = ModifierTarget::Training;
    let mods = vec![
        other,
        modifier(dec(25, 2), StackingBehaviour::Additive, None),
        training,
    ];
    let total = calc_multiplier(&mods, ModifierTarget::Resource, Some(ResourceType::Food)).unwrap();
    assert!(same(total, dec(125, 2)));
    assert!(same(
        calc_multiplier(&mods, ModifierTarget::Resource, Some(ResourceType::Stone)).unwrap(),
        dec(1, 0)
    ));
}

use empire::domain::decimal::Decimal;
use empire::domain::error::ErrorKind;
use empire::domain::modifier::{ModifierTarget, StackingBehaviour};
use empire::domain::resource::ResourceType;
use empire::game::modifiers::modifier_cache::{CacheKey, ModifierCache};
use empire::game::modifiers::modifier_operations::FullModifier;
use empire::game::modifiers::modifier_service::{
    apply_modifier, get_nearest_expiration, get_total_multiplier,
};

fn key(player_id: u128) -> CacheKey {
    CacheKey {
        player_id,
        target_type: ModifierTarget::Resource,
        target_resource: Some(ResourceType::Food),
    }
}

fn food_boost(mantissa: i128) -> FullModifier {
    FullModifier {
        target_type: ModifierTarget::Resource,
        target_resource: Some(ResourceType::Food),
        magnitude: Decimal::new(mantissa, 1),
        stacking_behaviour: StackingBehaviour::Additive,
        stacking_group: None,
    }
}

#[test]
fn nearest_expiration_is_the_earliest() {
    assert_eq!(get_nearest_expiration(&vec![None, Some(30), Some(10), None, Some(20)]), Some(10));
    assert_eq!(get_nearest_expiration(&vec![None, None]), None);
    assert_eq!(get_nearest_expiration(&vec![]), None);
}

#[test]
fn a_miss_computes_and_caches_the_total() {
    let mut cache = ModifierCache::new(3600, 10);
    let total = get_total_multiplier(&mut cache, key(1), &vec![food_boost(2)], &vec![Some(500), None], 100).unwrap();
    assert!(total.same_value(&Decimal::new(12, 1)));
    let entry = cache.get(&key(1), 100).unwrap();
    assert!(entry.total_multiplier.same_value(&total));
    assert_eq!(entry.expires_at, Some(500));
    assert_eq!(entry.version, 0);
    assert_eq!(entry.last_updated, 100);
}

#[test]
fn a_hit_answers_from_the_cache() {
    let mut cache = ModifierCache::new(3600, 10);
    get_total_multiplier(&mut cache, key(1), &vec![food_boost(2)], &vec![], 100).unwrap();
    // the modifiers changed, but the cached total is still live
    let total = get_total_multiplier(&mut cache, key(1), &vec![food_boost(5)], &vec![], 200).unwrap();
    assert!(total.same_value(&Decimal::new(12, 1)));
}

#[test]
fn an_expired_entry_is_recomputed() {
    let mut cache = ModifierCache::new(3600, 10);
    get_total_multiplier(&mut cache, key(1), &vec![food_boost(2)], &vec![Some(150)], 100).unwrap();
    let total = get_total_multiplier(&mut cache, key(1), &vec![food_boost(5)], &vec![], 200).unwrap();
    assert!(total.same_value(&Decimal::new(15, 1)));
}

#[test]
fn applying_a_modifier_refreshes_the_entry() {
    let mut cache = ModifierCache::new(3600, 10);
    get_total_multiplier(&mut cache, key(1), &vec![food_boost(2)], &vec![], 100).unwrap();
    let total = apply_modifier(&mut cache, key(1), &vec![food_boost(2), food_boost(3)], Some(900), 300).unwrap();
    assert!(total.same_value(&Decimal::new(15, 1)));
    let entry = cache.get(&key(1), 300).unwrap();
    assert!(entry.total_multiplier.same_value(&total));
    assert_eq!(entry.expires_at, Some(900));
}

#[test]
fn the_player_limit_refuses_new_totals() {
    let mut cache = ModifierCache::new(3600, 0);
    let err = get_total_multiplier(&mut cache, key(1), &vec![], &vec![], 0).unwrap_err();
    assert_eq!(err.kind, ErrorKind::CacheError);
    assert!(cache.get(&key(1), 0).is_none());
}

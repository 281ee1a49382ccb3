use chrono::Utc;
use empire::domain::decimal::Decimal;
use empire::domain::error::ErrorKind;
use empire::domain::modifier::ModifierTarget;
use empire::domain::resource::ResourceType;
use empire::game::modifiers::modifier_cache::{CacheKey, CacheSettings, ModifierCache};
use uuid::Uuid;

const HOUR: i64 = 3_600_000_000;
const HOUR_SECONDS: i64 = 3_600;
const SECOND: i64 = 1_000_000;

fn key_for(player_id: u128, resource: ResourceType) -> CacheKey {
    CacheKey {
        player_id,
        target_type: ModifierTarget::Resource,
        target_resource: Some(resource),
    }
}

#[test]
fn test_cache_basic_operations() {
    let mut cache = ModifierCache::new(HOUR_SECONDS, 100);
    let now = Utc::now().timestamp_micros();
    let key = key_for(Uuid::new_v4().as_u128(), ResourceType::Gold);

    // Test set and get
    cache.set(key, Decimal::from_int(1), Some(now + HOUR), now).unwrap();

    let entry = cache.get(&key, now).unwrap();
    assert!(entry.total_multiplier.same_value(&Decimal::from_int(1)));
}

#[test]
fn test_version_conflict() {
    let mut cache = ModifierCache::new(HOUR_SECONDS, 100);
    let now = Utc::now().timestamp_micros();
    let key = key_for(Uuid::new_v4().as_u128(), ResourceType::Gold);

    // Initial set
    cache.set(key, Decimal::from_int(1), None, now).unwrap();

    // Try to update with wrong version
    let result = cache.update(&key, Decimal::from_int(2), None, 1, now);
    assert!(result.is_err());
}

#[test]
fn test_expiration() {
    let mut cache = ModifierCache::new(HOUR_SECONDS, 100);
    let now = Utc::now().timestamp_micros();
    let key = key_for(Uuid::new_v4().as_u128(), ResourceType::Gold);

    // Set with short expiration
    cache.set(key, Decimal::from_int(1), Some(now - SECOND), now).unwrap();

    // Should return None for expired entry
    assert!(cache.get(&key, now).is_none());
}

#[test]
fn test_cleanup() {
    let mut cache = ModifierCache::new(HOUR_SECONDS, 100);
    let now = Utc::now().timestamp_micros();
    let player_id = Uuid::new_v4().as_u128();
    let key1 = key_for(player_id, ResourceType::Gold);
    let key2 = key_for(player_id, ResourceType::Wood);

    // Set one expired and one valid entry
    cache.set(key1, Decimal::from_int(1), Some(now - SECOND), now).unwrap();
    cache.set(key2, Decimal::from_int(1), Some(now + HOUR), now).unwrap();

    // Run cleanup
    cache.cleanup(now);

    assert!(cache.get(&key1, now).is_none());
    assert!(cache.get(&key2, now).is_some());
}

#[test]
fn test_user_limit() {
    let mut cache = ModifierCache::new(HOUR_SECONDS, 2);
    let now = Utc::now().timestamp_micros();
    let player_id = Uuid::new_v4().as_u128();

    // Add up to limit
    for i in 0..2 {
        let key = key_for(
            player_id,
            if i == 0 { ResourceType::Gold } else { ResourceType::Stone },
        );
        cache.set(key, Decimal::from_int(i), None, now).unwrap();
    }

    // Try to exceed limit
    let key = key_for(player_id, ResourceType::Wood);
    let result = cache.set(key, Decimal::from_int(3), None, now);
    assert!(result.is_err());
}

#[test]
fn test_next_expiration() {
    let mut cache = ModifierCache::new(HOUR_SECONDS, 100);
    let player_id = Uuid::new_v4().as_u128();

    let now = Utc::now().timestamp_micros();
    let exp1 = now + HOUR;
    let exp2 = now + 2 * HOUR;

    cache.set(key_for(player_id, ResourceType::Gold), Decimal::from_int(1), Some(exp1), now).unwrap();
    cache.set(key_for(player_id, ResourceType::Wood), Decimal::from_int(1), Some(exp2), now).unwrap();

    let next_exp = cache.next_expiration(player_id).unwrap();
    assert_eq!(next_exp, exp1);
}

#[test]
fn update_with_the_right_version_bumps_it() {
    let mut cache = ModifierCache::new(HOUR_SECONDS, 100);
    let key = key_for(7, ResourceType::Food);
    cache.set(key, Decimal::from_int(1), None, 10).unwrap();
    cache.update(&key, Decimal::from_int(2), Some(99), 0, 20).unwrap();
    let entry = cache.get(&key, 20).unwrap();
    assert!(entry.total_multiplier.same_value(&Decimal::from_int(2)));
    assert_eq!(entry.version, 1);
    assert_eq!(entry.expires_at, Some(99));
    assert_eq!(entry.last_updated, 20);
    let missing = cache.update(&key_for(8, ResourceType::Food), Decimal::from_int(2), None, 0, 20);
    assert_eq!(missing.unwrap_err().kind, ErrorKind::CacheMissError);
    let conflict = cache.update(&key, Decimal::from_int(3), None, 0, 30);
    assert_eq!(conflict.unwrap_err().kind, ErrorKind::CacheError);
}

#[test]
fn invalidation_drops_entries() {
    let mut cache = ModifierCache::new(HOUR_SECONDS, 100);
    cache.set(key_for(1, ResourceType::Food), Decimal::from_int(1), None, 0).unwrap();
    cache.set(key_for(1, ResourceType::Wood), Decimal::from_int(1), None, 0).unwrap();
    cache.set(key_for(2, ResourceType::Food), Decimal::from_int(1), None, 0).unwrap();
    cache.invalidate(&key_for(1, ResourceType::Food));
    assert!(cache.get(&key_for(1, ResourceType::Food), 0).is_none());
    assert!(cache.get(&key_for(1, ResourceType::Wood), 0).is_some());
    cache.invalidate_user(1);
    assert!(cache.get(&key_for(1, ResourceType::Wood), 0).is_none());
    assert!(cache.get(&key_for(2, ResourceType::Food), 0).is_some());
    assert_eq!(cache.next_expiration(2), None);
}

#[test]
fn settings_build_an_empty_cache() {
    let cache = ModifierCache::from_settings(&CacheSettings { default_ttl: 60, max_user_entries: 5 });
    assert!(cache.get(&key_for(1, ResourceType::Food), 0).is_none());
}

//! Total multipliers served from the modifier cache, and what applying a new
//! modifier does to the cache.
use vstd::prelude::*;

use crate::domain::decimal::{Decimal, DecimalView};
use crate::domain::error::{Error, ErrorKind};
use crate::game::modifiers::modifier_cache::{self, CacheEntry, CacheKey, ModifierCache};
use crate::game::modifiers::modifier_operations::{self, FullModifier};

verus! {

/// `t` is the earliest of the expiration times in `s` (`None` entries never
/// expire); `None` when none expires.
pub open spec fn is_nearest_expiration(s: Seq<Option<i64>>, t: Option<i64>) -> bool {
    match t {
        Some(t) => {
            &&& exists|i: int| 0 <= i < s.len() && s[i] == Some(t)
            &&& forall|i: int| 0 <= i < s.len() ==> (#[trigger] s[i] matches Some(u) ==> t <= u)
        },
        None => forall|i: int| 0 <= i < s.len() ==> (#[trigger] s[i]) is None,
    }
}

/// The earliest of the expiration times of a player's active modifiers.
pub fn get_nearest_expiration(expirations: &Vec<Option<i64>>) -> (r: Option<i64>)
    ensures
        is_nearest_expiration(expirations@, r),
{
    let mut best: Option<i64> = None;
    let mut i: usize = 0;
    while i < expirations.len()
        invariant
            i <= expirations.len(),
            is_nearest_expiration(expirations@.take(i as int), best),
        decreases expirations.len() - i,
    {
        let ghost prev = expirations@.take(i as int);
        let ghost next = expirations@.take(i as int + 1);
        proof {
            assert forall|j: int| 0 <= j < i implies next[j] == prev[j] by {}
            assert(next[i as int] == expirations@[i as int]);
        }
        match expirations[i] {
            Some(t) => {
                match best {
                    Some(b) => {
                        if t < b {
                            best = Some(t);
                        }
                    },
                    None => {
                        best = Some(t);
                    },
                }
            },
            None => {},
        }
        proof {
            match best {
                Some(b) => {
                    if expirations@[i as int] == Some(b) {
                        assert(next[i as int] == Some(b));
                    } else {
                        let w = choose|w: int| 0 <= w < prev.len() && prev[w] == Some(b);
                        assert(next[w] == Some(b));
                    }
                },
                None => {},
            }
        }
        i = i + 1;
    }
    proof {
        assert(expirations@.take(expirations.len() as int) =~= expirations@);
    }
    best
}

/// `after` is `before` with a fresh entry (version 0, updated at `now`) for
/// `key` holding `total` and expiring at `expires_at`.
pub open spec fn stores(
    before: Map<CacheKey, CacheEntry>,
    after: Map<CacheKey, CacheEntry>,
    key: CacheKey,
    total: DecimalView,
    expires_at: Option<i64>,
    now: i64,
) -> bool {
    exists|e: CacheEntry|
        {
            &&& e.total_multiplier@ == total
            &&& e.expires_at == expires_at
            &&& e.version == 0
            &&& e.last_updated == now
            &&& after == before.insert(key, e)
        }
}

/// The total multiplier of `key` from the cache when it holds a live entry;
/// otherwise computed from the player's modifiers `mods` and cached until the
/// nearest of the `expirations` of the player's active modifiers. Fails with
/// `InternalError` when the total cannot be represented, and as
/// `ModifierCache::set` fails when the player's entries are at the limit.
pub fn get_total_multiplier(
    cache: &mut ModifierCache,
    key: CacheKey,
    mods: &Vec<FullModifier>,
    expirations: &Vec<Option<i64>>,
    now: i64,
) -> (r: Result<Decimal, Error>)
    requires
        old(cache).wf(),
    ensures
        final(cache).wf(),
        final(cache).max_entries() == old(cache).max_entries(),
        match modifier_cache::lookup(old(cache)@, key, now) {
            Some(e) => r matches Ok(d) && d@ == e.total_multiplier@ && final(cache)@ == old(cache)@,
            None => match modifier_operations::stacked_total(
                modifier_operations::aimed_at(modifier_operations::views(mods@), key.target_type, key.target_resource),
            ) {
                Some(m) => if modifier_cache::player_count(old(cache)@, key.player_id) < old(cache).max_entries() {
                    &&& r matches Ok(d) && d@ == m
                    &&& exists|t: Option<i64>| is_nearest_expiration(expirations@, t) && stores(old(cache)@, final(cache)@, key, m, t, now)
                } else {
                    &&& r matches Err(e) && e.kind == ErrorKind::CacheError
                    &&& final(cache)@ == old(cache)@
                },
                None => {
                    &&& r matches Err(e) && e.kind == ErrorKind::InternalError
                    &&& final(cache)@ == old(cache)@
                },
            },
        },
{
    if let Some(entry) = cache.get(&key, now) {
        return Ok(entry.total_multiplier);
    }
    let total = match modifier_operations::calc_multiplier(mods, key.target_type, key.target_resource) {
        Some(m) => m,
        None => return Err(Error::new(ErrorKind::InternalError, "Modifier total out of range")),
    };
    let expires_at = get_nearest_expiration(expirations);
    cache.set(key, total.clone(), expires_at, now)?;
    Ok(total)
}

/// Refreshes the cache after a modifier was applied to the player: drops the
/// entry of `key`, then caches the total recomputed from the player's
/// modifiers `mods`, expiring with the new modifier. Fails with
/// `InternalError` when the total cannot be represented, and as
/// `ModifierCache::set` fails when the player's entries are at the limit;
/// the entry stays dropped then.
pub fn apply_modifier(
    cache: &mut ModifierCache,
    key: CacheKey,
    mods: &Vec<FullModifier>,
    expires_at: Option<i64>,
    now: i64,
) -> (r: Result<Decimal, Error>)
    requires
        old(cache).wf(),
    ensures
        final(cache).wf(),
        final(cache).max_entries() == old(cache).max_entries(),
        ({
            let dropped = old(cache)@.remove(key);
            match modifier_operations::stacked_total(
                modifier_operations::aimed_at(modifier_operations::views(mods@), key.target_type, key.target_resource),
            ) {
                Some(m) => if modifier_cache::player_count(dropped, key.player_id) < old(cache).max_entries() {
                    &&& r matches Ok(d) && d@ == m
                    &&& stores(dropped, final(cache)@, key, m, expires_at, now)
                } else {
                    &&& r matches Err(e) && e.kind == ErrorKind::CacheError
                    &&& final(cache)@ == dropped
                },
                None => {
                    &&& r matches Err(e) && e.kind == ErrorKind::InternalError
                    &&& final(cache)@ == dropped
                },
            }
        }),
{
    cache.invalidate(&key);
    let total = match modifier_operations::calc_multiplier(mods, key.target_type, key.target_resource) {
        Some(m) => m,
        None => return Err(Error::new(ErrorKind::InternalError, "Modifier total out of range")),
    };
    cache.set(key, total.clone(), expires_at, now)?;
    Ok(total)
}

} // verus!

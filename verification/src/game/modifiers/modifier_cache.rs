//! A cache of computed modifier totals per player, target and resource,
//! with expiry, optimistic versioning and a per-player entry limit.
//! Instants are Unix microseconds and are handed in by the caller.
use crate::domain::decimal::Decimal;
use vstd::prelude::*;
use vstd::set_lib::lemma_len_subset;

use crate::domain::error::{fails_with, Error, ErrorKind};
use crate::domain::modifier::ModifierTarget;
use crate::domain::player::PlayerKey;
use crate::domain::resource::ResourceType;

verus! {

broadcast use vstd::set::group_set_axioms;

/// A cached modifier total.
#[derive(Debug)]
pub struct CacheEntry {
    /// The calculated total modifier value
    pub total_multiplier: Decimal,
    /// When this cache entry expires (None for permanent modifiers)
    pub expires_at: Option<i64>,
    /// Version for optimistic locking
    pub version: u64,
    /// Timestamp of the last update
    pub last_updated: i64,
}

/// Two entries hold the same total (as a number written the same way), the
/// same expiry, version and update time.
pub open spec fn same_entry(a: CacheEntry, b: CacheEntry) -> bool {
    &&& a.total_multiplier@ == b.total_multiplier@
    &&& a.expires_at == b.expires_at
    &&& a.version == b.version
    &&& a.last_updated == b.last_updated
}

impl Clone for CacheEntry {
    fn clone(&self) -> (r: Self)
        ensures
            same_entry(r, *self),
    {
        CacheEntry {
            total_multiplier: self.total_multiplier.clone(),
            expires_at: self.expires_at,
            version: self.version,
            last_updated: self.last_updated,
        }
    }
}

/// What a cached total is for.
#[derive(Debug, Clone, Copy, Hash, Eq, PartialEq, Structural)]
pub struct CacheKey {
    pub player_id: PlayerKey,
    pub target_type: ModifierTarget,
    pub target_resource: Option<ResourceType>,
}

/// Settings of the modifier cache.
#[derive(Debug, Clone, Copy)]
pub struct CacheSettings {
    /// Default lifetime of an entry, in seconds
    pub default_ttl: u64,
    /// Maximum number of entries a single player may hold
    pub max_user_entries: usize,
}

/// An entry has not expired at `now`: it has no expiry, or expires later.
pub open spec fn live(e: CacheEntry, now: i64) -> bool {
    match e.expires_at {
        Some(t) => t > now,
        None => true,
    }
}

/// What a lookup of `k` at `now` finds in the cache contents `m`: the entry
/// when present and live, nothing otherwise.
pub open spec fn lookup(m: Map<CacheKey, CacheEntry>, k: CacheKey, now: i64) -> Option<CacheEntry> {
    if m.contains_key(k) && live(m[k], now) {
        Some(m[k])
    } else {
        None
    }
}

/// The keys of player `p` in the cache contents `m`.
pub open spec fn player_keys(m: Map<CacheKey, CacheEntry>, p: PlayerKey) -> Set<CacheKey> {
    m.dom().filter(|k: CacheKey| k.player_id == p)
}

/// How many entries player `p` holds in the cache contents `m`.
pub open spec fn player_count(m: Map<CacheKey, CacheEntry>, p: PlayerKey) -> nat {
    player_keys(m, p).len()
}

/// The contents after dropping the entries of player `p`.
pub open spec fn without_player(m: Map<CacheKey, CacheEntry>, p: PlayerKey) -> Map<
    CacheKey,
    CacheEntry,
> {
    m.restrict(m.dom().filter(|k: CacheKey| k.player_id != p))
}

/// The contents after dropping the entries expired at `now`.
pub open spec fn live_part(m: Map<CacheKey, CacheEntry>, now: i64) -> Map<CacheKey, CacheEntry> {
    m.restrict(m.dom().filter(|k: CacheKey| live(m[k], now)))
}

/// An entry of player `p` expires at `t`.
pub open spec fn expires_for(m: Map<CacheKey, CacheEntry>, p: PlayerKey, t: i64) -> bool {
    exists|k: CacheKey|
        #![trigger m.contains_key(k)]
        m.contains_key(k) && k.player_id == p && m[k].expires_at == Some(t)
}

type Slot = (CacheKey, CacheEntry);

spec fn has_key(s: Seq<Slot>, k: CacheKey) -> bool {
    exists|i: int| 0 <= i < s.len() && s[i].0 == k
}

spec fn distinct_keys(s: Seq<Slot>) -> bool {
    forall|i: int, j: int| 0 <= i < s.len() && 0 <= j < s.len() && i != j ==> s[i].0 != s[j].0
}

spec fn slots_map(s: Seq<Slot>) -> Map<CacheKey, CacheEntry> {
    Map::new(
        |k: CacheKey| has_key(s, k),
        |k: CacheKey| s[choose|i: int| 0 <= i < s.len() && s[i].0 == k].1,
    )
}

spec fn seq_player_count(s: Seq<Slot>, p: PlayerKey) -> nat
    decreases s.len(),
{
    if s.len() == 0 {
        0
    } else {
        seq_player_count(s.drop_last(), p) + if s.last().0.player_id == p {
            1nat
        } else {
            0nat
        }
    }
}

proof fn lemma_slot(s: Seq<Slot>, i: int)
    requires
        distinct_keys(s),
        0 <= i < s.len(),
    ensures
        slots_map(s).contains_key(s[i].0),
        slots_map(s)[s[i].0] == s[i].1,
{
    let k = s[i].0;
    assert(has_key(s, k));
    let j = choose|j: int| 0 <= j < s.len() && s[j].0 == k;
    assert(j == i);
}

proof fn lemma_dom_drop_last(s: Seq<Slot>)
    requires
        s.len() > 0,
    ensures
        slots_map(s).dom() == slots_map(s.drop_last()).dom().insert(s.last().0),
{
    let t = s.drop_last();
    assert forall|k: CacheKey| #[trigger]
        slots_map(s).dom().contains(k) == slots_map(t).dom().insert(s.last().0).contains(k) by {
        if has_key(s, k) && k != s.last().0 {
            let i = choose|i: int| 0 <= i < s.len() && s[i].0 == k;
            assert(t[i] == s[i]);
        }
        if has_key(t, k) {
            let i = choose|i: int| 0 <= i < t.len() && t[i].0 == k;
            assert(s[i] == t[i]);
        }
        if k == s.last().0 {
            assert(s[s.len() - 1].0 == k);
        }
    }
    assert(slots_map(s).dom() =~= slots_map(t).dom().insert(s.last().0));
}

proof fn lemma_counts(s: Seq<Slot>, p: PlayerKey)
    requires
        distinct_keys(s),
    ensures
        slots_map(s).dom().finite(),
        player_count(slots_map(s), p) == seq_player_count(s, p),
    decreases s.len(),
{
    if s.len() == 0 {
        assert(slots_map(s).dom() =~= Set::empty());
        assert(player_keys(slots_map(s), p) =~= Set::empty());
    } else {
        let t = s.drop_last();
        let x = s.last();
        assert(distinct_keys(t));
        lemma_counts(t, p);
        lemma_dom_drop_last(s);
        assert(!slots_map(t).dom().contains(x.0)) by {
            if has_key(t, x.0) {
                let i = choose|i: int| 0 <= i < t.len() && t[i].0 == x.0;
                assert(s[i].0 == s[s.len() - 1].0);
            }
        }
        let before = player_keys(slots_map(t), p);
        let after = player_keys(slots_map(s), p);
        slots_map(t).dom().lemma_len_filter(|k: CacheKey| k.player_id == p);
        if x.0.player_id == p {
            assert(after =~= before.insert(x.0));
        } else {
            assert(after =~= before);
        }
    }
}

proof fn lemma_count_insert(m: Map<CacheKey, CacheEntry>, k: CacheKey, e: CacheEntry, q: PlayerKey)
    requires
        m.dom().finite(),
    ensures
        player_count(m.insert(k, e), q) == player_count(m, q) + if !m.contains_key(k)
            && k.player_id == q {
            1nat
        } else {
            0nat
        },
{
    m.dom().lemma_len_filter(|c: CacheKey| c.player_id == q);
    let before = player_keys(m, q);
    let after = player_keys(m.insert(k, e), q);
    if k.player_id == q {
        assert(after =~= before.insert(k));
    } else {
        assert(after =~= before);
    }
}

proof fn lemma_count_shrink(m1: Map<CacheKey, CacheEntry>, m2: Map<CacheKey, CacheEntry>, q: PlayerKey)
    requires
        m1.dom().finite(),
        m2.dom().subset_of(m1.dom()),
    ensures
        m2.dom().finite(),
        player_count(m2, q) <= player_count(m1, q),
{
    lemma_len_subset(m2.dom(), m1.dom());
    m1.dom().lemma_len_filter(|c: CacheKey| c.player_id == q);
    lemma_len_subset(player_keys(m2, q), player_keys(m1, q));
}

proof fn lemma_update_slot(s: Seq<Slot>, i: int, e: CacheEntry)
    requires
        distinct_keys(s),
        0 <= i < s.len(),
    ensures
        distinct_keys(s.update(i, (s[i].0, e))),
        slots_map(s.update(i, (s[i].0, e))) == slots_map(s).insert(s[i].0, e),
{
    let k = s[i].0;
    let t = s.update(i, (k, e));
    assert(distinct_keys(t));
    assert forall|c: CacheKey| #[trigger] has_key(t, c) == has_key(s, c) by {
        if has_key(s, c) {
            let j = choose|j: int| 0 <= j < s.len() && s[j].0 == c;
            assert(t[j].0 == c);
        }
        if has_key(t, c) {
            let j = choose|j: int| 0 <= j < t.len() && t[j].0 == c;
            assert(s[j].0 == c);
        }
    }
    assert forall|c: CacheKey| has_key(t, c) implies #[trigger] slots_map(t)[c] == slots_map(
        s,
    ).insert(k, e)[c] by {
        let j = choose|j: int| 0 <= j < t.len() && t[j].0 == c;
        lemma_slot(t, j);
        if c != k {
            assert(j != i);
            lemma_slot(s, j);
        }
    }
    assert(slots_map(t) =~= slots_map(s).insert(k, e));
}

proof fn lemma_push_slot(s: Seq<Slot>, k: CacheKey, e: CacheEntry)
    requires
        distinct_keys(s),
        !has_key(s, k),
    ensures
        distinct_keys(s.push((k, e))),
        slots_map(s.push((k, e))) == slots_map(s).insert(k, e),
{
    let t = s.push((k, e));
    assert forall|i: int, j: int|
        0 <= i < t.len() && 0 <= j < t.len() && i != j implies t[i].0 != t[j].0 by {
        if i < s.len() && j < s.len() {
            assert(t[i] == s[i] && t[j] == s[j]);
        } else if i < s.len() {
            assert(t[i] == s[i]);
        } else {
            assert(t[j] == s[j]);
        }
    }
    assert forall|c: CacheKey| #[trigger] has_key(t, c) == (has_key(s, c) || c == k) by {
        if has_key(s, c) {
            let j = choose|j: int| 0 <= j < s.len() && s[j].0 == c;
            assert(t[j].0 == c);
        }
        if has_key(t, c) && c != k {
            let j = choose|j: int| 0 <= j < t.len() && t[j].0 == c;
            assert(j < s.len());
            assert(s[j].0 == c);
        }
        if c == k {
            assert(t[s.len() as int].0 == k);
        }
    }
    assert forall|c: CacheKey| has_key(t, c) implies #[trigger] slots_map(t)[c] == slots_map(
        s,
    ).insert(k, e)[c] by {
        let j = choose|j: int| 0 <= j < t.len() && t[j].0 == c;
        lemma_slot(t, j);
        if c != k {
            assert(j < s.len());
            assert(t[j] == s[j]);
            lemma_slot(s, j);
        }
    }
    assert(slots_map(t) =~= slots_map(s).insert(k, e));
}

proof fn lemma_remove_slot(s: Seq<Slot>, i: int)
    requires
        distinct_keys(s),
        0 <= i < s.len(),
    ensures
        distinct_keys(s.remove(i)),
        slots_map(s.remove(i)) == slots_map(s).remove(s[i].0),
{
    let k = s[i].0;
    let t = s.remove(i);
    assert forall|a: int| 0 <= a < t.len() implies #[trigger] t[a] == s[if a < i {
        a
    } else {
        a + 1
    }] by {}
    assert forall|a: int, b: int|
        0 <= a < t.len() && 0 <= b < t.len() && a != b implies t[a].0 != t[b].0 by {
        let a1 = if a < i { a } else { a + 1 };
        let b1 = if b < i { b } else { b + 1 };
        assert(t[a] == s[a1] && t[b] == s[b1]);
    }
    assert forall|c: CacheKey| #[trigger] has_key(t, c) == (has_key(s, c) && c != k) by {
        if has_key(s, c) && c != k {
            let j = choose|j: int| 0 <= j < s.len() && s[j].0 == c;
            assert(j != i);
            let j1 = if j < i { j } else { j - 1 };
            assert(t[j1] == s[j]);
        }
        if has_key(t, c) {
            let j = choose|j: int| 0 <= j < t.len() && t[j].0 == c;
            let j1 = if j < i { j } else { j + 1 };
            assert(t[j] == s[j1]);
            assert(j1 != i);
        }
    }
    assert forall|c: CacheKey| has_key(t, c) implies #[trigger] slots_map(t)[c] == slots_map(
        s,
    ).remove(k)[c] by {
        let j = choose|j: int| 0 <= j < t.len() && t[j].0 == c;
        lemma_slot(t, j);
        let j1 = if j < i { j } else { j + 1 };
        assert(t[j] == s[j1]);
        lemma_slot(s, j1);
    }
    assert(slots_map(t) =~= slots_map(s).remove(k));
}

/// Which entries a sweep keeps.
enum Keep {
    /// Those of other players than this one
    OtherThan(PlayerKey),
    /// Those that have not expired at this instant
    LiveAt(i64),
}

spec fn keeps(keep: Keep, x: Slot) -> bool {
    match keep {
        Keep::OtherThan(p) => x.0.player_id != p,
        Keep::LiveAt(now) => live(x.1, now),
    }
}

fn keeps_exec(keep: &Keep, x: &Slot) -> (b: bool)
    ensures
        b == keeps(*keep, *x),
{
    match keep {
        Keep::OtherThan(p) => x.0.player_id != *p,
        Keep::LiveAt(now) => match x.1.expires_at {
            Some(t) => t > *now,
            None => true,
        },
    }
}

/// The modifier cache.
pub struct ModifierCache {
    entries: Vec<(CacheKey, CacheEntry)>,
    default_ttl: i64,
    max_entries_per_user: usize,
}

impl ModifierCache {
    /// The cached entries by key.
    pub closed spec fn view(&self) -> Map<CacheKey, CacheEntry> {
        slots_map(self.entries@)
    }

    /// The most entries a single player may hold.
    pub closed spec fn max_entries(&self) -> nat {
        self.max_entries_per_user as nat
    }

    /// The default lifetime of an entry, in seconds.
    pub closed spec fn ttl(&self) -> i64 {
        self.default_ttl
    }

    /// The cache is well formed: finitely many entries, one per key, and no
    /// player holds more than the maximum number of entries.
    pub closed spec fn wf(&self) -> bool {
        &&& distinct_keys(self.entries@)
        &&& self@.dom().finite()
        &&& forall|p: PlayerKey| #[trigger] player_count(self@, p) <= self.max_entries()
    }

    /// An empty cache whose entries live `default_ttl` seconds by default.
    pub fn new(default_ttl: i64, max_entries_per_user: usize) -> (c: ModifierCache)
        ensures
            c.wf(),
            c@ == Map::<CacheKey, CacheEntry>::empty(),
            c.ttl() == default_ttl,
            c.max_entries() == max_entries_per_user,
    {
        let c = ModifierCache { entries: Vec::new(), default_ttl, max_entries_per_user };
        proof {
            assert(c@ =~= Map::<CacheKey, CacheEntry>::empty());
            assert forall|p: PlayerKey| #[trigger] player_count(c@, p) <= c.max_entries() by {
                assert(player_keys(c@, p) =~= Set::empty());
            }
        }
        c
    }

    /// An empty cache configured by `settings`; the lifetime must be small
    /// enough to be a valid duration (at most `i64::MAX / 1000` seconds).
    pub fn from_settings(settings: &CacheSettings) -> (c: ModifierCache)
        requires
            settings.default_ttl <= 9223372036854775,
        ensures
            c.wf(),
            c@ == Map::<CacheKey, CacheEntry>::empty(),
            c.ttl() == settings.default_ttl,
            c.max_entries() == settings.max_user_entries,
    {
        ModifierCache::new(settings.default_ttl as i64, settings.max_user_entries)
    }

    fn find(&self, key: &CacheKey) -> (r: Option<usize>)
        ensures
            match r {
                Some(i) => i < self.entries@.len() && self.entries@[i as int].0 == *key,
                None => !has_key(self.entries@, *key),
            },
    {
        let n = self.entries.len();
        let mut i: usize = 0;
        while i < n
            invariant
                n == self.entries@.len(),
                i <= n,
                forall|j: int| 0 <= j < i ==> self.entries@[j].0 != *key,
            decreases n - i,
        {
            if self.entries[i].0 == *key {
                return Some(i);
            }
            i = i + 1;
        }
        None
    }

    /// The live entry of `key` at `now`, if any.
    pub fn get(&self, key: &CacheKey, now: i64) -> (r: Option<CacheEntry>)
        requires
            self.wf(),
        ensures
            match lookup(self@, *key, now) {
                Some(e) => r matches Some(x) && same_entry(x, e),
                None => r is None,
            },
    {
        match self.find(key) {
            None => None,
            Some(i) => {
                proof {
                    lemma_slot(self.entries@, i as int);
                }
                let entry = &self.entries[i].1;
                match entry.expires_at {
                    Some(expires_at) => {
                        if expires_at <= now {
                            return None;
                        }
                    },
                    None => {},
                }
                Some(entry.clone())
            },
        }
    }

    fn count_player(&self, p: PlayerKey) -> (n: usize)
        requires
            self.wf(),
        ensures
            n == player_count(self@, p),
    {
        let len = self.entries.len();
        let mut n: usize = 0;
        let mut i: usize = 0;
        while i < len
            invariant
                len == self.entries@.len(),
                i <= len,
                n <= i,
                n == seq_player_count(self.entries@.subrange(0, i as int), p),
            decreases len - i,
        {
            proof {
                assert(self.entries@.subrange(0, i + 1).drop_last() =~= self.entries@.subrange(
                    0,
                    i as int,
                ));
            }
            if self.entries[i].0.player_id == p {
                n = n + 1;
            }
            i = i + 1;
        }
        proof {
            assert(self.entries@.subrange(0, len as int) =~= self.entries@);
            lemma_counts(self.entries@, p);
        }
        n
    }

    /// Stores a new entry (version 0, updated at `now`) for `key`, replacing
    /// any entry it has, unless the player already holds the maximum number
    /// of entries (counting one for this key), which fails with `CacheError`
    /// and changes nothing.
    pub fn set(
        &mut self,
        key: CacheKey,
        total_multiplier: Decimal,
        expires_at: Option<i64>,
        now: i64,
    ) -> (r: Result<(), Error>)
        requires
            old(self).wf(),
        ensures
            final(self).wf(),
            final(self).max_entries() == old(self).max_entries(),
            final(self).ttl() == old(self).ttl(),
            player_count(old(self)@, key.player_id) >= old(self).max_entries() ==> {
                &&& fails_with(r, ErrorKind::CacheError, "Cache limit exceeded for player")
                &&& final(self)@ == old(self)@
            },
            player_count(old(self)@, key.player_id) < old(self).max_entries() ==> {
                &&& r is Ok
                &&& final(self)@ == old(self)@.insert(
                    key,
                    CacheEntry { total_multiplier, expires_at, version: 0, last_updated: now },
                )
            },
    {
        let user_entries = self.count_player(key.player_id);
        if user_entries >= self.max_entries_per_user {
            return Err(Error::new(ErrorKind::CacheError, "Cache limit exceeded for player"));
        }
        let entry = CacheEntry { total_multiplier, expires_at, version: 0, last_updated: now };
        let ghost old_map = self@;
        let ghost e = entry;
        match self.find(&key) {
            Some(i) => {
                proof {
                    lemma_update_slot(self.entries@, i as int, e);
                }
                self.entries.set(i, (key, entry));
            },
            None => {
                proof {
                    lemma_push_slot(self.entries@, key, e);
                }
                self.entries.push((key, entry));
            },
        }
        proof {
            assert(self@ == old_map.insert(key, e));
            assert forall|q: PlayerKey| #[trigger] player_count(self@, q) <= self.max_entries() by {
                lemma_count_insert(old_map, key, e, q);
                assert(player_count(old_map, q) <= self.max_entries());
            }
        }
        Ok(())
    }

    /// Replaces the entry of `key` (its version raised by one, updated at
    /// `now`) when its version is `expected_version`. Fails, changing
    /// nothing, with `CacheMissError` when `key` has no entry and with
    /// `CacheError` on a version mismatch.
    pub fn update(
        &mut self,
        key: &CacheKey,
        total_multiplier: Decimal,
        expires_at: Option<i64>,
        expected_version: u64,
        now: i64,
    ) -> (r: Result<(), Error>)
        requires
            old(self).wf(),
            old(self)@.contains_key(*key) && old(self)@[*key].version == expected_version
                ==> expected_version < u64::MAX,
        ensures
            final(self).wf(),
            final(self).max_entries() == old(self).max_entries(),
            final(self).ttl() == old(self).ttl(),
            !old(self)@.contains_key(*key) ==> {
                &&& fails_with(r, ErrorKind::CacheMissError, "Cache entry not found")
                &&& final(self)@ == old(self)@
            },
            old(self)@.contains_key(*key) && old(self)@[*key].version != expected_version ==> {
                &&& fails_with(r, ErrorKind::CacheError, "Cache entry version mismatch")
                &&& final(self)@ == old(self)@
            },
            old(self)@.contains_key(*key) && old(self)@[*key].version == expected_version ==> {
                &&& r is Ok
                &&& final(self)@ == old(self)@.insert(
                    *key,
                    CacheEntry {
                        total_multiplier,
                        expires_at,
                        version: (expected_version + 1) as u64,
                        last_updated: now,
                    },
                )
            },
    {
        match self.find(key) {
            None => Err(Error::new(ErrorKind::CacheMissError, "Cache entry not found")),
            Some(i) => {
                proof {
                    lemma_slot(self.entries@, i as int);
                }
                let version = self.entries[i].1.version;
                if version != expected_version {
                    return Err(Error::new(ErrorKind::CacheError, "Cache entry version mismatch"));
                }
                let entry = CacheEntry {
                    total_multiplier,
                    expires_at,
                    version: version + 1,
                    last_updated: now,
                };
                let ghost old_map = self@;
                let ghost e = entry;
                proof {
                    lemma_update_slot(self.entries@, i as int, e);
                }
                self.entries.set(i, (*key, entry));
                proof {
                    assert forall|q: PlayerKey| #[trigger] player_count(self@, q)
                        <= self.max_entries() by {
                        lemma_count_insert(old_map, *key, e, q);
                        assert(player_count(old_map, q) <= self.max_entries());
                    }
                }
                Ok(())
            },
        }
    }

    /// Drops the entry of `key`, if any.
    pub fn invalidate(&mut self, key: &CacheKey)
        requires
            old(self).wf(),
        ensures
            final(self).wf(),
            final(self).max_entries() == old(self).max_entries(),
            final(self).ttl() == old(self).ttl(),
            final(self)@ == old(self)@.remove(*key),
    {
        let ghost old_map = self@;
        match self.find(key) {
            None => {
                assert(self@ =~= old_map.remove(*key));
            },
            Some(i) => {
                proof {
                    lemma_remove_slot(self.entries@, i as int);
                }
                let _ = self.entries.remove(i);
                proof {
                    assert forall|q: PlayerKey| #[trigger] player_count(self@, q)
                        <= self.max_entries() by {
                        lemma_count_shrink(old_map, self@, q);
                        assert(player_count(old_map, q) <= self.max_entries());
                    }
                }
            },
        }
    }

    fn sweep(&mut self, keep: Keep)
        requires
            old(self).wf(),
        ensures
            final(self).wf(),
            final(self).max_entries() == old(self).max_entries(),
            final(self).ttl() == old(self).ttl(),
            final(self)@ == old(self)@.restrict(
                old(self)@.dom().filter(|k: CacheKey| keeps(keep, (k, old(self)@[k]))),
            ),
    {
        let ghost s = self.entries@;
        let ghost old_map = self@;
        let mut kept: Vec<(CacheKey, CacheEntry)> = Vec::new();
        let mut old_entries: Vec<(CacheKey, CacheEntry)> = Vec::new();
        std::mem::swap(&mut old_entries, &mut self.entries);
        let total = old_entries.len();
        let mut done: usize = 0;
        while done < total
            invariant
                old_entries@ =~= s.subrange(done as int, total as int),
                s.len() == total,
                done <= total,
                distinct_keys(s),
                distinct_keys(kept@),
                forall|c: CacheKey|
                    #[trigger] has_key(kept@, c) == (exists|j: int|
                        0 <= j < done && s[j].0 == c && keeps(keep, s[j])),
                forall|a: int|
                    0 <= a < kept@.len() ==> exists|j: int|
                        0 <= j < done && #[trigger] kept@[a] == s[j],
            decreases total - done,
        {
            assert(old_entries@[0] == s[done as int]);
            let x = old_entries.remove(0);
            assert(x == s[done as int]);
            if keeps_exec(&keep, &x) {
                proof {
                    assert(!has_key(kept@, x.0)) by {
                        if has_key(kept@, x.0) {
                            let j = choose|j: int|
                                0 <= j < done && s[j].0 == x.0 && keeps(keep, s[j]);
                            assert(s[j].0 == s[done as int].0);
                        }
                    }
                    lemma_push_slot(kept@, x.0, x.1);
                }
                let ghost before = kept@;
                kept.push(x);
                proof {
                    assert forall|c: CacheKey| #[trigger] has_key(kept@, c) == (exists|j: int|
                        0 <= j < done + 1 && s[j].0 == c && keeps(keep, s[j])) by {
                        if has_key(kept@, c) && c != x.0 {
                            let a = choose|a: int| 0 <= a < kept@.len() && kept@[a].0 == c;
                            assert(a < before.len());
                            assert(before[a] == kept@[a]);
                            assert(has_key(before, c));
                        }
                        if c == x.0 {
                            assert(kept@[before.len() as int].0 == c);
                        }
                        if exists|j: int| 0 <= j < done + 1 && s[j].0 == c && keeps(keep, s[j]) {
                            let j = choose|j: int|
                                0 <= j < done + 1 && s[j].0 == c && keeps(keep, s[j]);
                            if j < done {
                                assert(has_key(before, c));
                                let a = choose|a: int| 0 <= a < before.len() && before[a].0 == c;
                                assert(kept@[a] == before[a]);
                            } else {
                                assert(kept@[before.len() as int].0 == c);
                            }
                        }
                    }
                    assert forall|a: int| 0 <= a < kept@.len() implies exists|j: int|
                        0 <= j < done + 1 && #[trigger] kept@[a] == s[j] by {
                        if a < before.len() {
                            assert(kept@[a] == before[a]);
                        } else {
                            assert(kept@[a] == s[done as int]);
                        }
                    }
                }
            } else {
                proof {
                    assert forall|c: CacheKey| #[trigger] has_key(kept@, c) == (exists|j: int|
                        0 <= j < done + 1 && s[j].0 == c && keeps(keep, s[j])) by {
                        if exists|j: int| 0 <= j < done + 1 && s[j].0 == c && keeps(keep, s[j]) {
                            let j = choose|j: int|
                                0 <= j < done + 1 && s[j].0 == c && keeps(keep, s[j]);
                            assert(j != done);
                        }
                    }
                }
            }
            done = done + 1;
        }
        self.entries = kept;
        proof {
            let target = old_map.restrict(
                old_map.dom().filter(|k: CacheKey| keeps(keep, (k, old_map[k]))),
            );
            assert forall|c: CacheKey| #[trigger] self@.contains_key(c) == target.contains_key(
                c,
            ) by {
                if has_key(s, c) {
                    let j = choose|j: int| 0 <= j < s.len() && s[j].0 == c;
                    lemma_slot(s, j);
                    if keeps(keep, s[j]) {
                        assert(has_key(self.entries@, c));
                    }
                    if has_key(self.entries@, c) {
                        let j2 = choose|j2: int|
                            0 <= j2 < s.len() && s[j2].0 == c && keeps(keep, s[j2]);
                        assert(j2 == j);
                    }
                }
                if has_key(self.entries@, c) {
                    let j2 = choose|j2: int|
                        0 <= j2 < s.len() && s[j2].0 == c && keeps(keep, s[j2]);
                    assert(has_key(s, c));
                }
            }
            assert forall|c: CacheKey| self@.contains_key(c) implies #[trigger] self@[c]
                == target[c] by {
                let a = choose|a: int| 0 <= a < self.entries@.len() && self.entries@[a].0 == c;
                lemma_slot(self.entries@, a);
                let j = choose|j: int| 0 <= j < s.len() && self.entries@[a] == s[j];
                lemma_slot(s, j);
            }
            assert(self@ =~= target);
            assert forall|q: PlayerKey| #[trigger] player_count(self@, q) <= self.max_entries() by {
                lemma_count_shrink(old_map, self@, q);
                assert(player_count(old_map, q) <= self.max_entries());
            }
        }
    }

    /// Drops every entry of player `player_id`.
    pub fn invalidate_user(&mut self, player_id: PlayerKey)
        requires
            old(self).wf(),
        ensures
            final(self).wf(),
            final(self).max_entries() == old(self).max_entries(),
            final(self).ttl() == old(self).ttl(),
            final(self)@ == without_player(old(self)@, player_id),
    {
        let ghost m = self@;
        self.sweep(Keep::OtherThan(player_id));
        assert(self@ =~= without_player(m, player_id));
    }

    /// Drops every entry expired at `now`.
    pub fn cleanup(&mut self, now: i64)
        requires
            old(self).wf(),
        ensures
            final(self).wf(),
            final(self).max_entries() == old(self).max_entries(),
            final(self).ttl() == old(self).ttl(),
            final(self)@ == live_part(old(self)@, now),
    {
        let ghost m = self@;
        self.sweep(Keep::LiveAt(now));
        assert(self@ =~= live_part(m, now));
    }

    /// The earliest expiry among the entries of player `player_id`, if any
    /// of them expires.
    pub fn next_expiration(&self, player_id: PlayerKey) -> (r: Option<i64>)
        requires
            self.wf(),
        ensures
            r is None <==> !(exists|t: i64| expires_for(self@, player_id, t)),
            r matches Some(t) ==> expires_for(self@, player_id, t),
            r matches Some(t) ==> forall|u: i64| expires_for(self@, player_id, u) ==> t <= u,
    {
        let n = self.entries.len();
        let ghost s = self.entries@;
        let mut best: Option<i64> = None;
        let mut i: usize = 0;
        while i < n
            invariant
                n == s.len(),
                s == self.entries@,
                i <= n,
                best is None <==> !(exists|j: int|
                    0 <= j < i && s[j].0.player_id == player_id && (#[trigger] s[j]).1.expires_at
                        is Some),
                best matches Some(t) ==> exists|j: int|
                    0 <= j < i && s[j].0.player_id == player_id && (#[trigger] s[j]).1.expires_at
                        == Some(t),
                best matches Some(t) ==> forall|j: int|
                    0 <= j < i && s[j].0.player_id == player_id && (#[trigger] s[j]).1.expires_at
                        is Some ==> t <= s[j].1.expires_at->0,
            decreases n - i,
        {
            let slot = &self.entries[i];
            if slot.0.player_id == player_id {
                match slot.1.expires_at {
                    Some(t) => {
                        best =
                        match best {
                            None => Some(t),
                            Some(b) => if t < b {
                                Some(t)
                            } else {
                                Some(b)
                            },
                        };
                    },
                    None => {},
                }
            }
            i = i + 1;
        }
        proof {
            let m = self@;
            assert forall|t: i64| expires_for(m, player_id, t) implies exists|j: int|
                0 <= j < n && s[j].0.player_id == player_id && (#[trigger] s[j]).1.expires_at
                    == Some(t) by {
                let k = choose|k: CacheKey|
                    m.contains_key(k) && k.player_id == player_id && m[k].expires_at == Some(t);
                let j = choose|j: int| 0 <= j < s.len() && s[j].0 == k;
                lemma_slot(s, j);
            }
            assert forall|j: int|
                0 <= j < n && s[j].0.player_id == player_id && (#[trigger] s[j]).1.expires_at
                    is Some implies expires_for(m, player_id, s[j].1.expires_at->0) by {
                lemma_slot(s, j);
                assert(m.contains_key(s[j].0));
            }
        }
        best
    }
}

/// What is stored is what is found: right after an entry is stored for a key,
/// a lookup of that key finds that entry for as long as it has not expired,
/// and nothing once it has.
pub proof fn lemma_get_after_set(m: Map<CacheKey, CacheEntry>, k: CacheKey, e: CacheEntry, now: i64)
    ensures
        lookup(m.insert(k, e), k, now) == if live(e, now) {
            Some(e)
        } else {
            None
        },
{
}

/// A dropped key is not found any more.
pub proof fn lemma_get_after_invalidate(m: Map<CacheKey, CacheEntry>, k: CacheKey, now: i64)
    ensures
        lookup(m.remove(k), k, now) is None,
{
}

/// Cleaning up at `now` changes no lookup made at `now`.
pub proof fn lemma_cleanup_preserves_lookups(m: Map<CacheKey, CacheEntry>, k: CacheKey, now: i64)
    ensures
        lookup(live_part(m, now), k, now) == lookup(m, k, now),
{
}

/// After the entries of a player are dropped, that player holds none, and
/// every other player keeps exactly the entries it had.
pub proof fn lemma_invalidate_user_effect(m: Map<CacheKey, CacheEntry>, p: PlayerKey, k: CacheKey, now: i64)
    requires
        m.dom().finite(),
    ensures
        player_count(without_player(m, p), p) == 0,
        k.player_id != p ==> lookup(without_player(m, p), k, now) == lookup(m, k, now),
{
    assert(player_keys(without_player(m, p), p) =~= Set::empty());
}

impl ModifierCache {
    /// The per-player limit holds of every well-formed cache: since every
    /// operation keeps the cache well formed, no player ever holds more
    /// entries than the configured maximum.
    pub proof fn lemma_player_limit(&self, p: PlayerKey)
        requires
            self.wf(),
        ensures
            player_count(self@, p) <= self.max_entries(),
    {
    }
}

} // verus!

//! Which buildings a player may construct, and what keeps the others locked.
use std::collections::HashMap;

use vstd::prelude::*;
use vstd::std_specs::hash::spec_keys_iter;
use vstd::std_specs::iter::IteratorSpec;

use crate::domain::building::{Building, BuildingKey, BuildingRequirement};

verus! {

/// Resource costs and time required for building construction.
#[derive(Debug, Clone, Eq, PartialEq)]
pub struct ConstructionInfo {
    /// Food required for construction
    pub food: i64,
    /// Wood required for construction
    pub wood: i64,
    /// Stone required for construction
    pub stone: i64,
    /// Gold required for construction
    pub gold: i64,
    /// Time in seconds to complete construction
    pub time_seconds: i64,
}

impl ConstructionInfo {
    /// Construction that costs nothing and takes no time.
    pub open spec fn free() -> ConstructionInfo {
        ConstructionInfo { food: 0, wood: 0, stone: 0, gold: 0, time_seconds: 0 }
    }
}

impl Default for ConstructionInfo {
    fn default() -> (c: ConstructionInfo)
        ensures
            c == ConstructionInfo::free(),
    {
        ConstructionInfo { food: 0, wood: 0, stone: 0, gold: 0, time_seconds: 0 }
    }
}

/// A restriction that keeps a building from being constructed.
#[derive(Copy, Clone, Debug, Eq, PartialEq)]
pub enum BuildingLock {
    /// Maximum allowed number of building instances has been reached
    MaxCountReached,
    /// Another building needs to reach a specific level
    BuildingLevelRequired {
        /// The building that needs upgrading
        building: BuildingKey,
        /// Current level of the required building
        current: i32,
        /// Level that needs to be reached
        required: i32,
    },
    /// A specific technology node needs to be researched
    TechNodeRequired {
        /// ID of the required technology node
        node_id: u128,
    },
}

/// The availability of a building for a player.
#[derive(Clone, Debug, Eq, PartialEq)]
pub struct BuildingAvailability {
    /// The building definition
    pub building: Building,
    /// Whether the building can currently be constructed
    pub buildable: bool,
    /// Number of instances of this building currently owned
    pub current_count: i64,
    /// Maximum number of instances allowed
    pub max_count: i32,
    /// List of restrictions preventing construction
    pub locks: Vec<BuildingLock>,
    /// Resource costs and time required for construction
    pub construction: ConstructionInfo,
}

/// Owned count, maximum count, and the highest level owned (if any).
pub type AvailabilityData = (i64, i32, Option<i32>);

/// The lock a requirement imposes when the required building stands at
/// `max_level`: a level lock when that level is too low, a technology lock
/// for a technology requirement, none otherwise.
pub open spec fn req_lock(req: BuildingRequirement, max_level: i32) -> Option<BuildingLock> {
    match req.required_building_id {
        Some(req_bld_id) => {
            let req_level = req.required_building_level.unwrap();
            if max_level < req_level {
                Some(
                    BuildingLock::BuildingLevelRequired {
                        building: req_bld_id,
                        current: max_level,
                        required: req_level,
                    },
                )
            } else {
                None
            }
        },
        None => match req.required_tech_id {
            Some(node_id) => Some(BuildingLock::TechNodeRequired { node_id }),
            None => None,
        },
    }
}

/// The locks of a list of requirements, in order, the `i`-th checked
/// against the level `levels[i]`.
pub open spec fn req_locks(reqs: Seq<BuildingRequirement>, levels: Seq<i32>) -> Seq<BuildingLock>
    decreases reqs.len(),
{
    if reqs.len() == 0 {
        Seq::empty()
    } else {
        let prev = req_locks(reqs.drop_last(), levels.take(reqs.len() - 1));
        match req_lock(reqs.last(), levels[reqs.len() - 1]) {
            Some(l) => prev.push(l),
            None => prev,
        }
    }
}

/// All locks of a building: the count lock first, when `owned` reaches
/// `max_count`, then the requirement locks.
pub open spec fn avail_locks(
    owned: i64,
    max_count: i32,
    reqs: Seq<BuildingRequirement>,
    levels: Seq<i32>,
) -> Seq<BuildingLock> {
    let count_locks = if owned >= max_count {
        seq![BuildingLock::MaxCountReached]
    } else {
        Seq::<BuildingLock>::empty()
    };
    count_locks + req_locks(reqs, levels)
}

/// Every requirement that names a building also names the level required.
pub open spec fn reqs_wf(reqs: Seq<BuildingRequirement>) -> bool {
    forall|i: int| 0 <= i < reqs.len() ==> (#[trigger] reqs[i]).wf()
}

/// The level of the building itself, 0 when none is owned.
pub open spec fn own_level(max_level: Option<i32>) -> i32 {
    match max_level {
        Some(l) => l,
        None => 0,
    }
}

/// Appends the locks of `reqs`, the `i`-th checked against `levels[i]`.
fn push_req_locks(locks: &mut Vec<BuildingLock>, bld_key: &BuildingKey, reqs: &Vec<BuildingRequirement>, levels: &Vec<i32>)
    requires
        reqs_wf(reqs@),
        levels@.len() == reqs@.len(),
    ensures
        final(locks)@ == old(locks)@ + req_locks(reqs@, levels@),
{
    let n = reqs.len();
    let mut i: usize = 0;
    let ghost base = locks@;
    while i < n
        invariant
            n == reqs@.len(),
            n == levels@.len(),
            i <= n,
            reqs_wf(reqs@),
            locks@ == base + req_locks(reqs@.subrange(0, i as int), levels@.subrange(0, i as int)),
        decreases n - i,
    {
        let req = &reqs[i];
        let lock = parse_req_lock(bld_key, req, levels[i]);
        proof {
            assert(reqs@.subrange(0, i + 1).drop_last() =~= reqs@.subrange(0, i as int));
            assert(levels@.subrange(0, i + 1).take(i as int) =~= levels@.subrange(0, i as int));
            assert(reqs@.subrange(0, i + 1).last() == reqs@[i as int]);
        }
        match lock {
            Some(l) => locks.push(l),
            None => {},
        }
        i = i + 1;
    }
    assert(reqs@.subrange(0, n as int) =~= reqs@);
    assert(levels@.subrange(0, n as int) =~= levels@);
}

/// `n` copies of `v`.
fn repeat_level(v: i32, n: usize) -> (r: Vec<i32>)
    ensures
        r@ == Seq::new(n as nat, |i: int| v),
{
    let mut r: Vec<i32> = Vec::new();
    let mut i: usize = 0;
    while i < n
        invariant
            i <= n,
            r@ == Seq::new(i as nat, |j: int| v),
        decreases n - i,
    {
        r.push(v);
        i = i + 1;
        assert(r@ =~= Seq::new(i as nat, |j: int| v));
    }
    r
}

/// Generates the availability of a single building: its owned count,
/// maximum count, highest owned level and requirements decide its locks,
/// and it is buildable exactly when it has none.
pub fn gen_avail_data(
    building: Building,
    data: AvailabilityData,
    requirements: Vec<BuildingRequirement>,
    construction: ConstructionInfo,
) -> (a: BuildingAvailability)
    requires
        reqs_wf(requirements@),
    ensures
        a.building == building,
        a.locks@ == avail_locks(
            data.0,
            data.1,
            requirements@,
            Seq::new(requirements@.len(), |i: int| own_level(data.2)),
        ),
        a.buildable == (a.locks@.len() == 0),
        a.current_count == data.0,
        a.max_count == data.1,
        a.construction == construction,
{
    let (owned_count, max_count, max_level) = data;
    let mut locks: Vec<BuildingLock> = Vec::new();

    // Check if max count is reached
    if owned_count >= (max_count as i64) {
        locks.push(BuildingLock::MaxCountReached);
    }
    let level: i32 = match max_level {
        Some(l) => l,
        None => 0,
    };
    let levels = repeat_level(level, requirements.len());
    push_req_locks(&mut locks, &building.id, &requirements, &levels);
    proof {
        let count_locks = if owned_count >= max_count {
            seq![BuildingLock::MaxCountReached]
        } else {
            Seq::<BuildingLock>::empty()
        };
        assert(locks@ =~= count_locks + req_locks(requirements@, levels@));
    }
    let buildable = locks.len() == 0;
    BuildingAvailability {
        building,
        buildable,
        current_count: owned_count,
        max_count,
        locks,
        construction,
    }
}

/// The lock a requirement imposes when the required building stands at
/// `max_level` (see `req_lock`).
pub fn parse_req_lock(
    bld_key: &BuildingKey,
    req: &BuildingRequirement,
    max_level: i32,
) -> (r: Option<BuildingLock>)
    requires
        req.wf(),
    ensures
        r == req_lock(*req, max_level),
{
    match req.required_building_id {
        Some(req_bld_id) => {
            let req_level = match req.required_building_level {
                Some(l) => l,
                None => 0,
            };
            if max_level < req_level {
                Some(
                    BuildingLock::BuildingLevelRequired {
                        building: req_bld_id,
                        current: max_level,
                        required: req_level,
                    },
                )
            } else {
                None
            }
        },
        None => match req.required_tech_id {
            Some(node_id) => Some(BuildingLock::TechNodeRequired { node_id }),
            None => None,
        },
    }
}

/// The level the building a requirement names stands at: its highest owned
/// level in `data`, 0 when it is not owned or the requirement names none.
pub open spec fn required_level(req: BuildingRequirement, data: Map<BuildingKey, AvailabilityData>) -> i32 {
    match req.required_building_id {
        Some(id) => if data.contains_key(id) {
            own_level(data[id].2)
        } else {
            0
        },
        None => 0,
    }
}

/// The requirements listed for a building, none when it has no entry.
pub open spec fn reqs_of(
    k: BuildingKey,
    info: Map<BuildingKey, (Vec<BuildingRequirement>, ConstructionInfo)>,
) -> Seq<BuildingRequirement> {
    if info.contains_key(k) {
        info[k].0@
    } else {
        Seq::empty()
    }
}

/// The construction data listed for a building, free when it has no entry.
pub open spec fn construction_of(
    k: BuildingKey,
    info: Map<BuildingKey, (Vec<BuildingRequirement>, ConstructionInfo)>,
) -> ConstructionInfo {
    if info.contains_key(k) {
        info[k].1
    } else {
        ConstructionInfo::free()
    }
}

/// `a` is the availability of building `k`: its definition from `blds`, its
/// counts from `data`, its construction data from `info`, and the locks of
/// its requirements, each checked against the level of the building that
/// requirement names.
pub open spec fn avail_matches(
    a: BuildingAvailability,
    k: BuildingKey,
    blds: Map<BuildingKey, Building>,
    data: Map<BuildingKey, AvailabilityData>,
    info: Map<BuildingKey, (Vec<BuildingRequirement>, ConstructionInfo)>,
) -> bool {
    let reqs = reqs_of(k, info);
    &&& a.building == blds[k]
    &&& a.current_count == data[k].0
    &&& a.max_count == data[k].1
    &&& a.construction == construction_of(k, info)
    &&& a.locks@ == avail_locks(
        data[k].0,
        data[k].1,
        reqs,
        Seq::new(reqs.len(), |i: int| required_level(reqs[i], data)),
    )
    &&& a.buildable == (a.locks@.len() == 0)
}

fn level_of_required(req: &BuildingRequirement, data: &HashMap<BuildingKey, AvailabilityData>) -> (l: i32)
    ensures
        l == required_level(*req, data@),
{
    broadcast use vstd::std_specs::hash::group_hash_axioms;

    match req.required_building_id {
        Some(id) => match data.get(&id) {
            Some(d) => match d.2 {
                Some(l) => l,
                None => 0,
            },
            None => 0,
        },
        None => 0,
    }
}

fn required_levels(reqs: &Vec<BuildingRequirement>, data: &HashMap<BuildingKey, AvailabilityData>) -> (r: Vec<i32>)
    ensures
        r@ == Seq::new(reqs@.len(), |i: int| required_level(reqs@[i], data@)),
{
    let mut r: Vec<i32> = Vec::new();
    let n = reqs.len();
    let mut i: usize = 0;
    while i < n
        invariant
            n == reqs@.len(),
            i <= n,
            r@ == Seq::new(i as nat, |j: int| required_level(reqs@[j], data@)),
        decreases n - i,
    {
        r.push(level_of_required(&reqs[i], data));
        i = i + 1;
        assert(r@ =~= Seq::new(i as nat, |j: int| required_level(reqs@[j], data@)));
    }
    r
}

/// Generates the availability of every building that `bld_data` lists, in
/// the order its keys are visited: each has its definition from `blds`, its
/// counts from `bld_data`, its requirements and construction data from
/// `reqs_and_info` (none and free when missing), and the locks of those
/// requirements, each checked against the highest level of the building the
/// requirement names (0 when that one is not owned). Every listed building
/// must have a definition.
pub fn gen_avail_list(
    blds: HashMap<BuildingKey, Building>,
    bld_data: HashMap<BuildingKey, AvailabilityData>,
    reqs_and_info: HashMap<BuildingKey, (Vec<BuildingRequirement>, ConstructionInfo)>,
) -> (r: Vec<BuildingAvailability>)
    requires
        forall|k: BuildingKey| bld_data@.contains_key(k) ==> #[trigger] blds@.contains_key(k),
        forall|k: BuildingKey|
            #[trigger] reqs_and_info@.contains_key(k) ==> reqs_wf(reqs_and_info@[k].0@),
    ensures
        exists|ks: Seq<BuildingKey>|
            {
                &&& ks.no_duplicates()
                &&& ks.to_set() == bld_data@.dom()
                &&& r@.len() == ks.len()
                &&& forall|i: int|
                    0 <= i < ks.len() ==> avail_matches(
                        #[trigger] r@[i],
                        ks[i],
                        blds@,
                        bld_data@,
                        reqs_and_info@,
                    )
            },
{
    broadcast use vstd::std_specs::hash::group_hash_axioms;

    let mut blds = blds;
    let mut reqs_and_info = reqs_and_info;
    let ghost blds0 = blds@;
    let ghost info0 = reqs_and_info@;
    let ghost ks: Seq<BuildingKey> = spec_keys_iter(&bld_data).remaining().unref();
    let mut out: Vec<BuildingAvailability> = Vec::new();
    let keys = bld_data.keys();
    assert(keys.remaining().unref() == ks);
    for key in it: keys
        invariant
            ks == spec_keys_iter(&bld_data).remaining().unref(),
            ks.no_duplicates(),
            ks.to_set() == bld_data@.dom(),
            it.seq().unref() == ks,
            forall|k: BuildingKey| bld_data@.contains_key(k) ==> #[trigger] blds0.contains_key(k),
            forall|k: BuildingKey| #[trigger] info0.contains_key(k) ==> reqs_wf(info0[k].0@),
            out@.len() == it.index(),
            forall|i: int|
                0 <= i < it.index() ==> avail_matches(
                    #[trigger] out@[i],
                    ks[i],
                    blds0,
                    bld_data@,
                    info0,
                ),
            forall|j: int|
                it.index() <= j < ks.len() ==> {
                    &&& #[trigger] blds@.contains_key(ks[j])
                    &&& blds@[ks[j]] == blds0[ks[j]]
                    &&& reqs_and_info@.contains_key(ks[j]) == info0.contains_key(ks[j])
                    &&& reqs_and_info@.contains_key(ks[j]) ==> reqs_and_info@[ks[j]] == info0[ks[j]]
                },
    {
        let k = *key;
        let ghost idx = it.index();
        let ghost blds_pre = blds@;
        let ghost info_pre = reqs_and_info@;
        assert(ks[idx] == k);
        assert(blds@.contains_key(ks[idx]));
        assert(bld_data@.contains_key(k)) by {
            assert(ks.to_set().contains(ks[idx]));
        }
        let data = *bld_data.get(&k).unwrap();
        let (owned_count, max_count, _) = data;
        let (reqs, construction) = match reqs_and_info.remove(&k) {
            Some(entry) => entry,
            None => (Vec::new(), ConstructionInfo::default()),
        };
        let mut locks: Vec<BuildingLock> = Vec::new();
        if owned_count >= (max_count as i64) {
            locks.push(BuildingLock::MaxCountReached);
        }
        assert(reqs@ == reqs_of(k, info0));
        let levels = required_levels(&reqs, &bld_data);
        push_req_locks(&mut locks, &k, &reqs, &levels);
        let building = blds.remove(&k).unwrap();
        let buildable = locks.len() == 0;
        let a = BuildingAvailability {
            building,
            buildable,
            current_count: owned_count,
            max_count,
            locks,
            construction,
        };
        proof {
            let count_locks = if owned_count >= max_count {
                seq![BuildingLock::MaxCountReached]
            } else {
                Seq::<BuildingLock>::empty()
            };
            assert(reqs@ == reqs_of(k, info0));
            assert(a.locks@ =~= count_locks + req_locks(reqs@, levels@));
            assert(avail_matches(a, k, blds0, bld_data@, info0));
            assert forall|j: int| idx + 1 <= j < ks.len() implies {
                &&& #[trigger] blds@.contains_key(ks[j])
                &&& blds@[ks[j]] == blds0[ks[j]]
                &&& reqs_and_info@.contains_key(ks[j]) == info0.contains_key(ks[j])
                &&& reqs_and_info@.contains_key(ks[j]) ==> reqs_and_info@[ks[j]] == info0[ks[j]]
            } by {
                assert(ks[j] != ks[idx]);
                assert(blds_pre.contains_key(ks[j]));
                assert(blds@ == blds_pre.remove(k));
                assert(reqs_and_info@ == info_pre.remove(k));
            }
        }
        out.push(a);
    }
    out
}

} // verus!

use vstd::prelude::*;
use vstd::string::StringExecFns;

use crate::domain::building::BuildingKey;
use crate::domain::player::{PlayerBuildingKey, PlayerKey};
use crate::domain::resource::ResourceType;

verus! {

/// Identifier of a unit definition (the 128-bit value of its UUID).
pub type UnitKey = u128;

/// Identifier of a training queue entry (the 128-bit value of its UUID).
pub type TrainingQueueKey = u128;

/// The class of a unit.
#[derive(Debug, Clone, Copy, PartialEq, Eq, Hash, Structural)]
pub enum UnitType {
    Infantry,
    Ranged,
    Cavalry,
    Artillery,
    Magical,
}

/// Where a training queue entry stands.
#[derive(Debug, Clone, Copy, PartialEq, Eq, Hash, Structural)]
pub enum TrainingStatus {
    Pending,
    InProgress,
    Completed,
    Cancelled,
}

impl UnitType {
    /// The name under which a unit class is stored.
    pub open spec fn text(self) -> Seq<char> {
        match self {
            UnitType::Infantry => "infantry"@,
            UnitType::Ranged => "ranged"@,
            UnitType::Cavalry => "cavalry"@,
            UnitType::Artillery => "artillery"@,
            UnitType::Magical => "magical"@,
        }
    }

    /// The stored name of this unit class.
    pub fn as_str(&self) -> (s: &'static str)
        ensures
            s@ == self.text(),
    {
        match self {
            UnitType::Infantry => "infantry",
            UnitType::Ranged => "ranged",
            UnitType::Cavalry => "cavalry",
            UnitType::Artillery => "artillery",
            UnitType::Magical => "magical",
        }
    }

    /// The unit class stored under `text`; an unknown name is refused with
    /// "Unrecognized enum variant: " and the name.
    pub fn from_text(text: &str) -> (r: Result<UnitType, String>)
        ensures
            r matches Ok(t) ==> t.text() == text@,
            r is Ok <==> exists|t: UnitType| #[trigger] t.text() == text@,
            r matches Err(m) ==> m@ == "Unrecognized enum variant: "@ + text@,
    {
        let s = String::from_str(text);
        if s.eq(&String::from_str("infantry")) {
            assert(UnitType::Infantry.text() == text@);
            Ok(UnitType::Infantry)
        } else if s.eq(&String::from_str("ranged")) {
            assert(UnitType::Ranged.text() == text@);
            Ok(UnitType::Ranged)
        } else if s.eq(&String::from_str("cavalry")) {
            assert(UnitType::Cavalry.text() == text@);
            Ok(UnitType::Cavalry)
        } else if s.eq(&String::from_str("artillery")) {
            assert(UnitType::Artillery.text() == text@);
            Ok(UnitType::Artillery)
        } else if s.eq(&String::from_str("magical")) {
            assert(UnitType::Magical.text() == text@);
            Ok(UnitType::Magical)
        } else {
            proof {
                assert forall|t: UnitType| #[trigger] t.text() != text@ by {
                    match t {
                        UnitType::Infantry => {},
                        UnitType::Ranged => {},
                        UnitType::Cavalry => {},
                        UnitType::Artillery => {},
                        UnitType::Magical => {},
                    }
                }
            }
            Err(String::from_str("Unrecognized enum variant: ").concat(text))
        }
    }
}

/// Unit classes are stored under distinct names, so reading a stored name
/// gives back the class that was written.
pub proof fn lemma_unit_type_text_distinct(a: UnitType, b: UnitType)
    requires
        a.text() == b.text(),
    ensures
        a == b,
{
    reveal_strlit("infantry");
    reveal_strlit("ranged");
    reveal_strlit("cavalry");
    reveal_strlit("artillery");
    reveal_strlit("magical");
    assert("infantry"@.len() == 8 && "ranged"@.len() == 6 && "cavalry"@.len() == 7);
    assert("artillery"@.len() == 9 && "magical"@.len() == 7);
    assert("cavalry"@[0] == 'c' && "magical"@[0] == 'm');
    assert(a.text().len() == b.text().len());
    assert(a.text()[0] == b.text()[0]);
    match a {
        UnitType::Infantry => match b {
            UnitType::Infantry => {},
            UnitType::Ranged => {},
            UnitType::Cavalry => {},
            UnitType::Artillery => {},
            UnitType::Magical => {},
        },
        UnitType::Ranged => match b {
            UnitType::Infantry => {},
            UnitType::Ranged => {},
            UnitType::Cavalry => {},
            UnitType::Artillery => {},
            UnitType::Magical => {},
        },
        UnitType::Cavalry => match b {
            UnitType::Infantry => {},
            UnitType::Ranged => {},
            UnitType::Cavalry => {},
            UnitType::Artillery => {},
            UnitType::Magical => {},
        },
        UnitType::Artillery => match b {
            UnitType::Infantry => {},
            UnitType::Ranged => {},
            UnitType::Cavalry => {},
            UnitType::Artillery => {},
            UnitType::Magical => {},
        },
        UnitType::Magical => match b {
            UnitType::Infantry => {},
            UnitType::Ranged => {},
            UnitType::Cavalry => {},
            UnitType::Artillery => {},
            UnitType::Magical => {},
        },
    }
}

impl TrainingStatus {
    /// The name under which a training status is stored.
    pub open spec fn text(self) -> Seq<char> {
        match self {
            TrainingStatus::Pending => "pending"@,
            TrainingStatus::InProgress => "in_progress"@,
            TrainingStatus::Completed => "completed"@,
            TrainingStatus::Cancelled => "cancelled"@,
        }
    }

    /// The stored name of this status.
    pub fn as_str(&self) -> (s: &'static str)
        ensures
            s@ == self.text(),
    {
        match self {
            TrainingStatus::Pending => "pending",
            TrainingStatus::InProgress => "in_progress",
            TrainingStatus::Completed => "completed",
            TrainingStatus::Cancelled => "cancelled",
        }
    }

    /// The status stored under `text`; an unknown name is refused with
    /// "Unrecognized enum variant: " and the name.
    pub fn from_text(text: &str) -> (r: Result<TrainingStatus, String>)
        ensures
            r matches Ok(t) ==> t.text() == text@,
            r is Ok <==> exists|t: TrainingStatus| #[trigger] t.text() == text@,
            r matches Err(m) ==> m@ == "Unrecognized enum variant: "@ + text@,
    {
        let s = String::from_str(text);
        if s.eq(&String::from_str("pending")) {
            assert(TrainingStatus::Pending.text() == text@);
            Ok(TrainingStatus::Pending)
        } else if s.eq(&String::from_str("in_progress")) {
            assert(TrainingStatus::InProgress.text() == text@);
            Ok(TrainingStatus::InProgress)
        } else if s.eq(&String::from_str("completed")) {
            assert(TrainingStatus::Completed.text() == text@);
            Ok(TrainingStatus::Completed)
        } else if s.eq(&String::from_str("cancelled")) {
            assert(TrainingStatus::Cancelled.text() == text@);
            Ok(TrainingStatus::Cancelled)
        } else {
            proof {
                assert forall|t: TrainingStatus| #[trigger] t.text() != text@ by {
                    match t {
                        TrainingStatus::Pending => {},
                        TrainingStatus::InProgress => {},
                        TrainingStatus::Completed => {},
                        TrainingStatus::Cancelled => {},
                    }
                }
            }
            Err(String::from_str("Unrecognized enum variant: ").concat(text))
        }
    }
}

/// Training statuses are stored under distinct names, so reading a stored
/// name gives back the status that was written.
pub proof fn lemma_training_status_text_distinct(a: TrainingStatus, b: TrainingStatus)
    requires
        a.text() == b.text(),
    ensures
        a == b,
{
    reveal_strlit("pending");
    reveal_strlit("in_progress");
    reveal_strlit("completed");
    reveal_strlit("cancelled");
    assert("pending"@.len() == 7 && "in_progress"@.len() == 11);
    assert("completed"@.len() == 9 && "cancelled"@.len() == 9);
    assert("completed"@[1] == 'o' && "cancelled"@[1] == 'a');
    assert(a.text().len() == b.text().len());
    assert(a.text()[0] == b.text()[0]);
    assert(a.text()[1] == b.text()[1]);
    match a {
        TrainingStatus::Pending => match b {
            TrainingStatus::Pending => {},
            TrainingStatus::InProgress => {},
            TrainingStatus::Completed => {},
            TrainingStatus::Cancelled => {},
        },
        TrainingStatus::InProgress => match b {
            TrainingStatus::Pending => {},
            TrainingStatus::InProgress => {},
            TrainingStatus::Completed => {},
            TrainingStatus::Cancelled => {},
        },
        TrainingStatus::Completed => match b {
            TrainingStatus::Pending => {},
            TrainingStatus::InProgress => {},
            TrainingStatus::Completed => {},
            TrainingStatus::Cancelled => {},
        },
        TrainingStatus::Cancelled => match b {
            TrainingStatus::Pending => {},
            TrainingStatus::InProgress => {},
            TrainingStatus::Completed => {},
            TrainingStatus::Cancelled => {},
        },
    }
}

/// A unit definition.
#[derive(Debug, Clone, PartialEq, Eq)]
pub struct Unit {
    pub id: UnitKey,
    pub name: String,
    pub unit_type: UnitType,
    pub base_atk: i32,
    pub base_def: i32,
    pub base_training_seconds: i32,
    pub description: Option<String>,
}

/// The cost in one resource of training one unit.
#[derive(Debug, Clone, Copy, PartialEq, Eq)]
pub struct UnitCost {
    pub id: u128,
    pub unit_id: UnitKey,
    pub resource: ResourceType,
    pub amount: i64,
}

/// Units being trained at a player's building. Times are Unix microseconds.
#[derive(Debug, Clone, Copy, PartialEq, Eq)]
pub struct TrainingQueueEntry {
    pub id: TrainingQueueKey,
    pub player_id: PlayerKey,
    pub building_id: PlayerBuildingKey,
    pub unit_id: UnitKey,
    pub quantity: i32,
    pub started_at: i64,
    pub completed_at: Option<i64>,
    pub status: TrainingStatus,
    pub job_id: Option<u128>,
}

/// A training queue entry about to be stored.
#[derive(Debug, Clone, Copy, PartialEq, Eq)]
pub struct NewTrainingQueueEntry {
    pub player_id: PlayerKey,
    pub building_id: PlayerBuildingKey,
    pub unit_id: UnitKey,
    pub quantity: i32,
    pub status: Option<TrainingStatus>,
    pub job_id: Option<u128>,
}

/// Which unit classes a building definition trains.
pub type BuildingUnitTypes = (BuildingKey, Vec<UnitType>);

} // verus!

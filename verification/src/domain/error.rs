use vstd::prelude::*;

verus! {

/// The kinds of failure of the game rules.
#[derive(PartialEq, Eq, Copy, Clone, Debug, Structural)]
pub enum ErrorKind {
    ConstructBuildingError,
    UpgradeBuildingError,
    ConfirmUpgradeError,
    CacheError,
    CacheMissError,
    InvalidQuantityError,
    InsufficientResourcesError,
    TrainingQueueFullError,
    StartTrainingError,
    CancelTrainingError,
    CompleteTrainingError,
    InvalidBuildingTypeError,
    InternalError,
}

/// A failure of the game rules: its kind and a short description.
#[derive(Debug)]
pub struct Error {
    pub kind: ErrorKind,
    pub description: &'static str,
}

impl Error {
    /// Builds an error from its kind and description.
    pub fn new(kind: ErrorKind, description: &'static str) -> (e: Error)
        ensures
            e.kind == kind,
            e.description == description,
    {
        Error { kind, description }
    }
}

/// `e` has the given kind and description.
pub open spec fn is_error(e: Error, kind: ErrorKind, description: &'static str) -> bool {
    e.kind == kind && e.description == description
}

/// `r` is a failure of the given kind and description.
pub open spec fn fails_with<T>(r: Result<T, Error>, kind: ErrorKind, description: &'static str) -> bool {
    r matches Err(e) && is_error(e, kind, description)
}

} // verus!

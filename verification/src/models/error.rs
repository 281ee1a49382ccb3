use vstd::prelude::*;

verus! {

/// The kinds of failure of the wire protocol layer.
#[derive(PartialEq, Eq, Copy, Clone, Debug, Structural)]
pub enum ErrorKind {
    InvalidPacket,
    InvalidUsername,
    InvalidPassword,
    InvalidToken,
    InvalidMessage,
    InvalidBuilding,
    InvalidLevel,
    InvalidFaction,
    InvalidUpgrade,
    InvalidDestroy,
    InvalidCancel,
    InvalidError,
    InvalidData,
    InvalidSize,
    InvalidIndex,
    InvalidRead,
    InvalidWrite,
    InvalidFlush,
    InvalidCopy,
    InvalidPacketType,
    InvalidPacketBit,
    InvalidPacketByte,
    InvalidPacketBuffer,
    InvalidPacketLogin,
    InvalidPacketLogout,
    InvalidPacketChat,
    InvalidPacketBuild,
    InvalidPacketUpgrade,
    InvalidPacketDestroy,
    InvalidPacketCancel,
    InvalidPacketError,
    InvalidPacketUsername,
    InvalidPacketPassword,
    InvalidPacketToken,
    InvalidPacketMessage,
    InvalidPacketBuilding,
    InvalidPacketLevel,
    InvalidPacketFaction,
    UnreadBytesError,
}

/// An error of the wire protocol layer: its kind and a short description.
#[derive(Debug)]
pub struct EmpError {
    pub kind: ErrorKind,
    pub description: &'static str,
}

impl EmpError {
    /// Builds an error from its kind and description.
    pub fn new(kind: ErrorKind, description: &'static str) -> (e: EmpError)
        ensures
            e.kind == kind,
            e.description == description,
    {
        EmpError { kind, description }
    }

    /// The kind of this error.
    pub fn kind(&self) -> (k: ErrorKind)
        ensures
            k == self.kind,
    {
        self.kind
    }
}

/// The result type of the wire protocol layer.
pub type EmpResult<T> = Result<T, EmpError>;

} // verus!

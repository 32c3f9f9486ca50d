use vstd::prelude::*;

verus! {

/// Everything that can go wrong when talking to the broker.
#[derive(Debug, Clone, Copy, PartialEq, Eq, Structural)]
pub enum ChatError {
    /// A room of that name is already registered.
    RoomExists,
    /// No room of that name is registered.
    RoomNotFound,
    /// The room's channel itself failed.
    SendError,
    /// A receive handle failed.
    ReceiveError,
    /// The room still has members and cannot be removed.
    RoomNotEmpty,
}

pub type ChatResult<T> = Result<T, ChatError>;

} // verus!

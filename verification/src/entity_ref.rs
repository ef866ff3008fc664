//! What a client gets back when it sends a command to an entity.

use crate::event_sourced::EventSourced;
use vstd::prelude::*;

verus! {

/// Errors from sending a command to an entity through its handle.
#[derive(Debug)]
pub enum EntityRefError<E: EventSourced> {
    /// An invalid command has been rejected by the command handler. This is
    /// a client error: the entity is as it was and goes on.
    InvalidCommand(E::Error),
    /// The command cannot be sent to the entity, because the entity has
    /// terminated and no longer takes commands.
    SendCmd,
    /// The command was sent, but the entity terminated before it replied.
    EntityTerminated,
}

/// The result of a command for the client that sent it. `sent` tells
/// whether the entity took the command, and `reply` is what the entity
/// replied, if it replied at all.
pub fn cmd_result<E: EventSourced>(
    sent: bool,
    reply: Option<Result<Vec<E::Evt>, E::Error>>,
) -> (result: Result<Vec<E::Evt>, EntityRefError<E>>)
    ensures
        result == match (sent, reply) {
            (false, _) => Err::<Vec<E::Evt>, EntityRefError<E>>(EntityRefError::SendCmd),
            (true, None) => Err(EntityRefError::EntityTerminated),
            (true, Some(Err(error))) => Err(EntityRefError::InvalidCommand(error)),
            (true, Some(Ok(evts))) => Ok(evts),
        },
{
    if !sent {
        return Err(EntityRefError::SendCmd);
    }
    match reply {
        None => Err(EntityRefError::EntityTerminated),
        Some(Err(error)) => Err(EntityRefError::InvalidCommand(error)),
        Some(Ok(evts)) => Ok(evts),
    }
}

} // verus!

//! Per-vehicle session records and the delivery of server messages to connected clients.

use std::sync::mpsc::Sender;
use vstd::prelude::*;
use crate::model::{Coordinate, ServerMessage, UserStatus};
use crate::time::Timestamp;

verus! {

#[verifier::external_type_specification]
#[verifier::external_body]
#[verifier::reject_recursive_types(T)]
pub struct ExSender<T>(Sender<T>);

/// The messages that the channel has accepted through the sender `tx`, oldest first.
pub uninterp spec fn accepted(tx: Sender<ServerMessage>) -> Seq<ServerMessage>;

/// Calls `std::sync::mpsc::Sender::send` with `msg`. The send succeeds exactly
/// when the receiving end is still alive, which nothing here can know, so the
/// result is left free; on success the channel has accepted `msg` after what it
/// accepted before, and on failure it has accepted nothing more (the message
/// comes back in the error and is dropped).
#[verifier::external_body]
pub(crate) fn deliver(tx: &mut Sender<ServerMessage>, msg: ServerMessage) -> (delivered: bool)
    ensures
        delivered ==> accepted(*final(tx)) == accepted(*old(tx)).push(msg),
        !delivered ==> accepted(*final(tx)) == accepted(*old(tx)),
{
    tx.send(msg).is_ok()
}

/// What the server keeps about one registered vehicle.
#[derive(Debug)]
pub struct UserSession {
    pub status: UserStatus,
    pub last_coord: Option<Coordinate>,
    pub last_changed: Option<Timestamp>,
    pub connection_sender: Option<Sender<ServerMessage>>,
}

/// A session as the contracts see it.
pub struct SessionView {
    pub status: UserStatus,
    pub last_coord: Option<Coordinate>,
    pub last_changed: Option<Timestamp>,
    pub connection: Option<Sender<ServerMessage>>,
}

impl View for UserSession {
    type V = SessionView;

    open spec fn view(&self) -> SessionView {
        SessionView {
            status: self.status,
            last_coord: self.last_coord,
            last_changed: self.last_changed,
            connection: self.connection_sender,
        }
    }
}

impl UserSession {
    /// A session with no connection, no position and status `Disconnected`.
    pub fn disconnected() -> (r: UserSession)
        ensures
            r@ == (SessionView {
                status: UserStatus::Disconnected,
                last_coord: None,
                last_changed: None,
                connection: None,
            }),
    {
        UserSession {
            status: UserStatus::Disconnected,
            last_coord: None,
            last_changed: None,
            connection_sender: None,
        }
    }
}

} // verus!

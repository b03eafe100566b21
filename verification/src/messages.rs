//! The envelopes exchanged between sessions and the registry. They are
//! plain in-process values; the registry answers a request by naming the
//! deliveries that are to be pushed to sessions.

use vstd::prelude::*;

verus! {

/// Text pushed from the registry to one session, which forwards it to its
/// client unchanged.
#[derive(Debug, Clone, PartialEq, Eq)]
pub struct ClientMessage(pub String);

/// A session asks to be registered under a room. `addr` is the handle
/// through which the registry may later reach the session; the registry
/// never owns the session through it.
pub struct JoinRoom<H> {
    pub user_id: String,
    pub session_id: String,
    pub addr: H,
}

/// A session announces that it is gone.
#[derive(Debug, Clone, PartialEq, Eq)]
pub struct LeaveRoom {
    pub user_id: String,
    pub session_id: String,
}

/// A session asks the registry to relay `message` to the other members of
/// its room.
#[derive(Debug, Clone, PartialEq, Eq)]
pub struct SendToRoom {
    pub user_id: String,
    pub message: String,
    pub sender_session_id: String,
}

/// Asks for the number of live members of a room.
#[derive(Debug, Clone, PartialEq, Eq)]
pub struct GetRoomUserCount {
    pub user_id: String,
}

/// Asks for a diagnostic listing of all rooms.
#[derive(Debug, Clone, Copy, PartialEq, Eq)]
pub struct DebugRooms;

/// One push that the registry has decided on: `message` is to be handed to
/// the session `session_id`. Delivery is best effort; a session that can no
/// longer be reached is skipped.
#[derive(Debug, Clone, PartialEq, Eq)]
pub struct Delivery {
    pub session_id: String,
    pub message: ClientMessage,
}

/// One line of the diagnostic listing: a room and its member count.
#[derive(Debug, Clone, PartialEq, Eq)]
pub struct RoomStatus {
    pub user_id: String,
    pub sessions: usize,
}

/// Every delivery in `deliveries` carries `text` to a session of
/// `recipients`, no session is addressed twice, and every session of
/// `recipients` is addressed.
pub open spec fn addressed(
    deliveries: Seq<Delivery>,
    recipients: Set<Seq<char>>,
    text: Seq<char>,
) -> bool {
    &&& forall|i: int|
        0 <= i < deliveries.len() ==> recipients.contains((#[trigger] deliveries[i]).session_id@)
            && deliveries[i].message.0@ == text
    &&& forall|i: int, j: int|
        0 <= i < j < deliveries.len() ==> (#[trigger] deliveries[i]).session_id@ != (
        #[trigger] deliveries[j]).session_id@
    &&& forall|session: Seq<char>| #[trigger]
        recipients.contains(session) ==> exists|i: int|
            0 <= i < deliveries.len() && (#[trigger] deliveries[i]).session_id@ == session
}

/// The session ids that `deliveries` address, in their order.
pub open spec fn recipients_of(deliveries: Seq<Delivery>) -> Seq<Seq<char>> {
    Seq::new(deliveries.len(), |i: int| deliveries[i].session_id@)
}

} // verus!

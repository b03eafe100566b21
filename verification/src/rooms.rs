//! The registry's state as a mathematical object, and the relations in
//! which the registry's operations state what they do to it.
//!
//! A state maps each room key to the room's roster, and a roster maps each
//! member's session id to the handle under which the member can be
//! reached. Session ids and room keys are texts; they stand here as
//! sequences of characters.

use vstd::prelude::*;
use crate::messages::{addressed, Delivery, RoomStatus};
use crate::text::decimal;

verus! {

/// The members of one room: session id to handle.
pub type Roster<H> = Map<Seq<char>, H>;

/// The registry's state: room key to roster.
pub type Rooms<H> = Map<Seq<char>, Map<Seq<char>, H>>;

/// The roster of room `key`; the empty roster where there is no such room.
pub open spec fn roster_of<H>(rooms: Rooms<H>, key: Seq<char>) -> Roster<H> {
    if rooms.contains_key(key) {
        rooms[key]
    } else {
        Map::empty()
    }
}

/// The number of members of room `key`; 0 where there is no such room.
pub open spec fn member_count<H>(rooms: Rooms<H>, key: Seq<char>) -> nat {
    roster_of(rooms, key).dom().len()
}

/// `rooms` with `roster` as the roster of room `key`. A room exists only
/// while it has a member: with an empty roster the room is deleted.
pub open spec fn with_roster<H>(rooms: Rooms<H>, key: Seq<char>, roster: Roster<H>) -> Rooms<H> {
    if roster.dom().is_empty() {
        rooms.remove(key)
    } else {
        rooms.insert(key, roster)
    }
}

/// What holds of every state of a registry: finitely many rooms, each with
/// finitely many members and at least one.
pub open spec fn valid_rooms<H>(rooms: Rooms<H>) -> bool {
    &&& rooms.dom().finite()
    &&& forall|key: Seq<char>| #[trigger]
        rooms.contains_key(key) ==> rooms[key].dom().finite() && !rooms[key].dom().is_empty()
}

/// The probe can be asked about every handle.
pub open spec fn probe_total<H, F: Fn(&H) -> bool>(is_live: F) -> bool {
    forall|handle: H| #[trigger] call_requires(is_live, (&handle,))
}

/// How a roster changes in a sweep with the probe `is_live`: every member
/// was probed once, those for which the probe answered `true` stay with
/// their handles, the others are gone, and nobody is added.
pub open spec fn swept<H, F: Fn(&H) -> bool>(before: Roster<H>, after: Roster<H>, is_live: F) -> bool {
    &&& forall|session: Seq<char>| #[trigger]
        after.contains_key(session) ==> before.contains_key(session) && after[session]
            == before[session]
    &&& forall|session: Seq<char>| #[trigger]
        before.contains_key(session) ==> call_ensures(
            is_live,
            (&before[session],),
            after.contains_key(session),
        )
}

/// How the registry changes when room `key` is swept: that room's roster
/// is swept, a room left empty is deleted, and no other room is touched.
pub open spec fn room_swept<H, F: Fn(&H) -> bool>(
    before: Rooms<H>,
    after: Rooms<H>,
    key: Seq<char>,
    is_live: F,
) -> bool {
    &&& swept(roster_of(before, key), roster_of(after, key), is_live)
    &&& after == with_roster(before, key, roster_of(after, key))
}

/// How the registry changes in a sweep of all rooms: every room's roster is
/// swept, rooms left empty are deleted, and no room is added.
pub open spec fn all_swept<H, F: Fn(&H) -> bool>(before: Rooms<H>, after: Rooms<H>, is_live: F) -> bool {
    &&& valid_rooms(after)
    &&& forall|key: Seq<char>|
        #![trigger roster_of(after, key)]
        swept(roster_of(before, key), roster_of(after, key), is_live)
}

/// How the registry changes when `session` joins room `key` with `handle`:
/// the room exists afterwards and holds the session with that handle, in
/// place of any earlier handle for the same session id; the other members
/// of the room were swept; no other room is touched.
pub open spec fn room_joined<H, F: Fn(&H) -> bool>(
    before: Rooms<H>,
    after: Rooms<H>,
    key: Seq<char>,
    session: Seq<char>,
    handle: H,
    is_live: F,
) -> bool {
    &&& after.contains_key(key)
    &&& after[key].contains_key(session)
    &&& after[key][session] == handle
    &&& swept(roster_of(before, key).remove(session), after[key].remove(session), is_live)
    &&& after.remove(key) == before.remove(key)
}

/// The registry after `session` has left room `key`. Where the session is
/// no member of the room nothing changes; a room left empty is deleted.
pub open spec fn room_left<H>(rooms: Rooms<H>, key: Seq<char>, session: Seq<char>) -> Rooms<H> {
    if roster_of(rooms, key).contains_key(session) {
        with_roster(rooms, key, roster_of(rooms, key).remove(session))
    } else {
        rooms
    }
}

/// The sessions of `members` but the excluded one, if one is excluded.
pub open spec fn all_but(members: Set<Seq<char>>, except: Option<&str>) -> Set<Seq<char>> {
    match except {
        Some(session) => members.remove(session@),
        None => members,
    }
}

/// The text that greets a session that has joined a room of `count` members.
pub open spec fn welcome_notice(count: nat) -> Seq<char> {
    "[SYSTEM] You joined room. Active users: "@ + decimal(count)
}

/// The text that tells the other members of a room, now of `count`
/// members, that a session has joined.
pub open spec fn joined_notice(count: nat) -> Seq<char> {
    "[SYSTEM] New user joined. Active users: "@ + decimal(count)
}

/// The text that tells the `count` remaining members of a room that a
/// session has left.
pub open spec fn left_notice(count: nat) -> Seq<char> {
    "[SYSTEM] User left. Remaining users: "@ + decimal(count)
}

/// What is delivered when `session` has joined room `key`, the registry
/// being in state `after`: first the welcome for the joining session, then
/// one notice for every other member of the room, each with the room's
/// member count.
pub open spec fn welcomed<H>(
    deliveries: Seq<Delivery>,
    after: Rooms<H>,
    key: Seq<char>,
    session: Seq<char>,
) -> bool {
    &&& deliveries.len() > 0
    &&& deliveries[0].session_id@ == session
    &&& deliveries[0].message.0@ == welcome_notice(member_count(after, key))
    &&& addressed(
        deliveries.skip(1),
        roster_of(after, key).dom().remove(session),
        joined_notice(member_count(after, key)),
    )
}

/// What is delivered when `session` was asked to leave room `key`, the
/// registry going from `before` to `after`: where the session was a
/// member, one notice with the new member count for every member that
/// remains; else nothing.
pub open spec fn farewelled<H>(
    deliveries: Seq<Delivery>,
    before: Rooms<H>,
    after: Rooms<H>,
    key: Seq<char>,
    session: Seq<char>,
) -> bool {
    if roster_of(before, key).contains_key(session) {
        addressed(deliveries, roster_of(after, key).dom(), left_notice(member_count(after, key)))
    } else {
        deliveries.len() == 0
    }
}

/// `snapshot` lists every room of `rooms` once, each with its member count.
pub open spec fn lists_rooms<H>(snapshot: Seq<RoomStatus>, rooms: Rooms<H>) -> bool {
    &&& forall|i: int|
        0 <= i < snapshot.len() ==> rooms.contains_key((#[trigger] snapshot[i]).user_id@)
            && snapshot[i].sessions == rooms[snapshot[i].user_id@].dom().len()
    &&& forall|i: int, j: int|
        0 <= i < j < snapshot.len() ==> (#[trigger] snapshot[i]).user_id@ != (
        #[trigger] snapshot[j]).user_id@
    &&& forall|key: Seq<char>| #[trigger]
        rooms.contains_key(key) ==> exists|i: int|
            0 <= i < snapshot.len() && (#[trigger] snapshot[i]).user_id@ == key
}

} // verus!

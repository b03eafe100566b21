//! The connection registry: the single owner of room membership.
//!
//! A room is the set of sessions that joined under one room key. The
//! registry keeps, for every member, a handle of a type `H` that the caller
//! chooses. It never looks inside a handle: whether a handle still resolves
//! to a live session is answered by a probe that the caller hands to every
//! operation that sweeps. An operation answers with the deliveries that are
//! to be pushed; it performs none itself.

use vstd::prelude::*;
use crate::keyed::KeyedList;
use crate::messages::{
    addressed, ClientMessage, DebugRooms, Delivery, GetRoomUserCount, JoinRoom, LeaveRoom, RoomStatus,
    SendToRoom,
};
use crate::rooms::{
    all_but, all_swept, farewelled, lists_rooms, member_count, probe_total, room_joined, room_left,
    room_swept, roster_of, swept, valid_rooms, welcomed, with_roster, Rooms,
};
use crate::text::{decimal, decimal_string, same_text};

verus! {

/// The interval at which the registry's driver has all rooms swept,
/// whatever the traffic, in milliseconds.
pub const SWEEP_INTERVAL_MS: u64 = 30_000;

/// A request to the registry: one of the envelopes that sessions send.
pub enum Request<H> {
    Join(JoinRoom<H>),
    Leave(LeaveRoom),
    Send(SendToRoom),
    Count(GetRoomUserCount),
    Debug(DebugRooms),
}

/// The registry's answer to a request.
#[derive(Debug, Clone, PartialEq, Eq)]
pub enum Reply {
    /// The pushes that the request has caused.
    Deliveries(Vec<Delivery>),
    /// The member count that was asked for.
    Count(usize),
    /// The listing that was asked for.
    Rooms(Vec<RoomStatus>),
}

/// `reply` answers `request`, and the registry has gone from `before` to
/// `after` in handling it: a join, a leave and a count do what the methods
/// of these names do, a send is a broadcast that leaves out the sender,
/// and a debug request is answered with the listing.
pub open spec fn answered<H, F: Fn(&H) -> bool>(
    before: Rooms<H>,
    after: Rooms<H>,
    request: Request<H>,
    reply: Reply,
    is_live: F,
) -> bool {
    match request {
        Request::Join(join) => {
            &&& room_joined(before, after, join.user_id@, join.session_id@, join.addr, is_live)
            &&& reply matches Reply::Deliveries(deliveries)
            &&& welcomed(deliveries@, after, join.user_id@, join.session_id@)
        },
        Request::Leave(leave) => {
            &&& after == room_left(before, leave.user_id@, leave.session_id@)
            &&& reply matches Reply::Deliveries(deliveries)
            &&& farewelled(deliveries@, before, after, leave.user_id@, leave.session_id@)
        },
        Request::Send(send) => {
            &&& room_swept(before, after, send.user_id@, is_live)
            &&& reply matches Reply::Deliveries(deliveries)
            &&& addressed(
                deliveries@,
                roster_of(after, send.user_id@).dom().remove(send.sender_session_id@),
                send.message@,
            )
        },
        Request::Count(count) => {
            &&& room_swept(before, after, count.user_id@, is_live)
            &&& reply matches Reply::Count(members)
            &&& members == member_count(after, count.user_id@)
        },
        Request::Debug(_) => {
            &&& all_swept(before, after, is_live)
            &&& reply matches Reply::Rooms(snapshot)
            &&& lists_rooms(snapshot@, after)
        },
    }
}

fn notice(prefix: &str, count: usize) -> (text: String)
    ensures
        text@ == prefix@ + decimal(count as nat),
{
    let number = decimal_string(count);
    prefix.to_owned().concat(number.as_str())
}

/// One delivery of `text` for every member of `room` but the excluded one.
fn deliveries_for<H>(room: &KeyedList<H>, text: &str, except: Option<&str>) -> (deliveries: Vec<
    Delivery,
>)
    requires
        room.wf(),
    ensures
        addressed(deliveries@, all_but(room@.dom(), except), text@),
{
    let n: usize = room.len();
    let mut deliveries: Vec<Delivery> = Vec::new();
    let mut i: usize = 0;
    proof {
        room.lemma_enumeration();
    }
    while i < n
        invariant
            room.wf(),
            i <= n,
            n == room.keys().len(),
            room.keys().no_duplicates(),
            forall|k: int|
                0 <= k < deliveries@.len() ==> (#[trigger] deliveries@[k]).message.0@ == text@
                    && all_but(room.keys().to_set(), except).contains(deliveries@[k].session_id@)
                    && exists|j: int| 0 <= j < i && #[trigger] room.keys()[j] == deliveries@[k].session_id@,
            forall|k: int, l: int|
                0 <= k < l < deliveries@.len() ==> (#[trigger] deliveries@[k]).session_id@ != (
                #[trigger] deliveries@[l]).session_id@,
            forall|j: int|
                0 <= j < i && all_but(room.keys().to_set(), except).contains(#[trigger] room.keys()[j])
                    ==> exists|k: int|
                    0 <= k < deliveries@.len() && (#[trigger] deliveries@[k]).session_id@
                        == room.keys()[j],
        decreases n - i,
    {
        let key = room.key_at(i);
        let excluded = match except {
            Some(session) => same_text(key.as_str(), session),
            None => false,
        };
        let ghost before = deliveries@;
        assert(room.keys().to_set().contains(room.keys()[i as int]));
        if !excluded {
            let delivery = Delivery { session_id: key.clone(), message: ClientMessage(text.to_owned()) };
            deliveries.push(delivery);
            proof {
                let last = before.len() as int;
                assert(deliveries@[last].session_id@ == room.keys()[i as int]);
                assert forall|k: int, l: int| 0 <= k < l < deliveries@.len() implies (
                #[trigger] deliveries@[k]).session_id@ != (#[trigger] deliveries@[l]).session_id@ by {
                    if l == last {
                        assert(deliveries@[k] == before[k]);
                        let j = choose|j: int|
                            0 <= j < i && #[trigger] room.keys()[j] == before[k].session_id@;
                        assert(room.keys()[j] != room.keys()[i as int]);
                    } else {
                        assert(deliveries@[k] == before[k] && deliveries@[l] == before[l]);
                    }
                }
                assert forall|k: int| 0 <= k < deliveries@.len() implies (
                #[trigger] deliveries@[k]).message.0@ == text@ && all_but(
                    room.keys().to_set(),
                    except,
                ).contains(deliveries@[k].session_id@) && exists|j: int|
                    0 <= j < i + 1 && #[trigger] room.keys()[j] == deliveries@[k].session_id@ by {
                    if k < last {
                        assert(deliveries@[k] == before[k]);
                        let j = choose|j: int|
                            0 <= j < i && #[trigger] room.keys()[j] == before[k].session_id@;
                        assert(0 <= j < i + 1 && room.keys()[j] == deliveries@[k].session_id@);
                    } else {
                        assert(room.keys()[i as int] == deliveries@[k].session_id@);
                    }
                }
                assert forall|j: int|
                    0 <= j < i + 1 && all_but(room.keys().to_set(), except).contains(
                        #[trigger] room.keys()[j],
                    ) implies exists|k: int|
                    0 <= k < deliveries@.len() && (#[trigger] deliveries@[k]).session_id@
                        == room.keys()[j] by {
                    if j < i {
                        let k = choose|k: int|
                            0 <= k < before.len() && (#[trigger] before[k]).session_id@
                                == room.keys()[j];
                        assert(deliveries@[k] == before[k]);
                    } else {
                        assert(deliveries@[last].session_id@ == room.keys()[j]);
                    }
                }
            }
        }
        i += 1;
    }
    proof {
        let recipients = all_but(room@.dom(), except);
        assert forall|session: Seq<char>| #[trigger] recipients.contains(session) implies exists|
            k: int,
        |
            0 <= k < deliveries@.len() && (#[trigger] deliveries@[k]).session_id@ == session by {
            assert(room.keys().to_set().contains(session));
            let j = choose|j: int| 0 <= j < room.keys().len() && room.keys()[j] == session;
            assert(all_but(room.keys().to_set(), except).contains(room.keys()[j]));
        }
    }
    deliveries
}

spec fn rooms_view<H>(rooms: KeyedList<KeyedList<H>>) -> Rooms<H> {
    rooms@.map_values(|room: KeyedList<H>| room@)
}

spec fn rooms_wf<H>(rooms: KeyedList<KeyedList<H>>) -> bool {
    &&& rooms.wf()
    &&& rooms@.dom().finite()
    &&& forall|key: Seq<char>| #[trigger]
        rooms@.contains_key(key) ==> rooms@[key].wf() && rooms@[key]@.dom().finite()
            && !rooms@[key]@.dom().is_empty()
}

/// Probes every member of `room` once and keeps those whose handle the
/// probe reports live.
fn sweep<H, F: Fn(&H) -> bool>(room: KeyedList<H>, is_live: &F) -> (kept: KeyedList<H>)
    requires
        room.wf(),
        probe_total(*is_live),
    ensures
        kept.wf(),
        kept@.dom().finite(),
        swept(room@, kept@, *is_live),
{
    let mut rest = room;
    let mut kept: KeyedList<H> = KeyedList::new();
    let mut remaining: usize = rest.len();
    proof {
        kept.lemma_enumeration();
    }
    while remaining > 0
        invariant
            rest.wf(),
            kept.wf(),
            probe_total(*is_live),
            rest@.dom().finite(),
            kept@.dom().finite(),
            remaining == rest@.dom().len(),
            rest@.submap_of(room@),
            kept@.submap_of(room@),
            forall|session: Seq<char>| #[trigger]
                room@.contains_key(session) ==> rest@.contains_key(session) || call_ensures(
                    *is_live,
                    (&room@[session],),
                    kept@.contains_key(session),
                ),
            forall|session: Seq<char>|
                !(#[trigger] rest@.contains_key(session) && kept@.contains_key(session)),
        decreases remaining,
    {
        let ghost rest_before = rest@;
        let ghost kept_before = kept@;
        match rest.pop() {
            Some((session_id, handle)) => {
                let live = is_live(&handle);
                if live {
                    kept.insert(session_id, handle);
                }
                proof {
                    assert forall|session: Seq<char>| #[trigger]
                        room@.contains_key(session) implies rest@.contains_key(session)
                        || call_ensures(
                        *is_live,
                        (&room@[session],),
                        kept@.contains_key(session),
                    ) by {
                        if session != session_id@ && !rest_before.contains_key(session) {
                            assert(kept@.contains_key(session) == kept_before.contains_key(
                                session,
                            ));
                        }
                    }
                }
            },
            None => {},
        }
        remaining = rest.len();
        proof {
            kept.lemma_enumeration();
        }
    }
    proof {
        rest@.dom().lemma_len0_is_empty();
    }
    kept
}

/// Sweeps every room of `rooms` and keeps the rooms that still have a
/// member.
fn sweep_rooms<H, F: Fn(&H) -> bool>(rooms: KeyedList<KeyedList<H>>, is_live: &F) -> (kept: KeyedList<
    KeyedList<H>,
>)
    requires
        rooms_wf(rooms),
        probe_total(*is_live),
    ensures
        rooms_wf(kept),
        forall|key: Seq<char>|
            #![trigger roster_of(rooms_view(kept), key)]
            swept(roster_of(rooms_view(rooms), key), roster_of(rooms_view(kept), key), *is_live),
{
    let mut rest = rooms;
    let mut kept: KeyedList<KeyedList<H>> = KeyedList::new();
    let mut remaining: usize = rest.len();
    proof {
        kept.lemma_enumeration();
    }
    while remaining > 0
        invariant
            rooms_wf(rest),
            rooms_wf(kept),
            probe_total(*is_live),
            remaining == rest@.dom().len(),
            rest@.submap_of(rooms@),
            forall|key: Seq<char>| #[trigger] kept@.contains_key(key) ==> rooms@.contains_key(key),
            forall|key: Seq<char>| !(#[trigger] rest@.contains_key(key) && kept@.contains_key(key)),
            forall|key: Seq<char>|
                #![trigger roster_of(rooms_view(kept), key)]
                !rest@.contains_key(key) ==> swept(
                    roster_of(rooms_view(rooms), key),
                    roster_of(rooms_view(kept), key),
                    *is_live,
                ),
        decreases remaining,
    {
        let ghost rest_before = rest@;
        let ghost kept_before = kept;
        match rest.pop() {
            Some((key, room)) => {
                assert(rest_before.contains_key(key@));
                let members = sweep(room, is_live);
                let live: usize = members.len();
                if live > 0 {
                    assert(!members@.dom().is_empty()) by {
                        if members@.dom().is_empty() {
                            assert(members@.dom().len() == 0);
                        }
                    }
                    kept.insert(key, members);
                } else {
                    proof {
                        members@.dom().lemma_len0_is_empty();
                    }
                }
                proof {
                    assert forall|other: Seq<char>|
                        #![trigger roster_of(rooms_view(kept), other)]
                        !rest@.contains_key(other) implies swept(
                        roster_of(rooms_view(rooms), other),
                        roster_of(rooms_view(kept), other),
                        *is_live,
                    ) by {
                        if other == key@ {
                            assert(roster_of(rooms_view(rooms), other) == room@);
                            assert(roster_of(rooms_view(kept), other) =~= members@);
                        } else {
                            assert(!rest_before.contains_key(other));
                            assert(roster_of(rooms_view(kept), other) == roster_of(
                                rooms_view(kept_before),
                                other,
                            ));
                        }
                    }
                }
            },
            None => {},
        }
        remaining = rest.len();
        proof {
            kept.lemma_enumeration();
        }
    }
    proof {
        rest@.dom().lemma_len0_is_empty();
    }
    kept
}

/// The registry of rooms.
pub struct RoomManager<H> {
    rooms: KeyedList<KeyedList<H>>,
}

impl<H> View for RoomManager<H> {
    type V = Rooms<H>;

    closed spec fn view(&self) -> Rooms<H> {
        rooms_view(self.rooms)
    }
}

impl<H> RoomManager<H> {
    /// The invariant of the representation. Every constructor establishes
    /// it and every method preserves it; it implies `valid_rooms` of the
    /// view.
    pub closed spec fn wf(&self) -> bool {
        rooms_wf(self.rooms)
    }

    /// A well-formed registry is in a valid state.
    pub proof fn lemma_valid(&self)
        requires
            self.wf(),
        ensures
            valid_rooms(self@),
    {
        assert(self@.dom() =~= self.rooms@.dom());
    }

    /// A registry without rooms.
    pub fn new() -> (manager: Self)
        ensures
            manager.wf(),
            manager@ == Map::<Seq<char>, Map<Seq<char>, H>>::empty(),
    {
        let manager = RoomManager { rooms: KeyedList::new() };
        assert(manager@ =~= Map::<Seq<char>, Map<Seq<char>, H>>::empty());
        manager
    }

    /// Takes the room `user_id` out of the registry, for the caller to work
    /// on; where there is no such room the caller gets an empty one.
    fn take_room(&mut self, user_id: &str) -> (room: KeyedList<H>)
        requires
            old(self).wf(),
        ensures
            final(self).wf(),
            room.wf(),
            room@.dom().finite(),
            room@ == roster_of(old(self)@, user_id@),
            final(self)@ == old(self)@.remove(user_id@),
    {
        let taken = self.rooms.remove(user_id);
        assert(self@ =~= old(self)@.remove(user_id@));
        match taken {
            Some(room) => room,
            None => {
                let room = KeyedList::new();
                proof {
                    room.lemma_enumeration();
                }
                room
            },
        }
    }

    /// Puts a room that was taken out back under `user_id`, unless it is
    /// empty.
    fn put_room(&mut self, user_id: &str, room: KeyedList<H>)
        requires
            old(self).wf(),
            !old(self)@.contains_key(user_id@),
            room.wf(),
        ensures
            final(self).wf(),
            final(self)@ == with_roster(old(self)@, user_id@, room@),
    {
        let members: usize = room.len();
        if members > 0 {
            assert(!room@.dom().is_empty()) by {
                if room@.dom().is_empty() {
                    assert(room@.dom().len() == 0);
                }
            }
            let key = user_id.to_owned();
            self.rooms.insert(key, room);
            assert(self@ =~= old(self)@.insert(user_id@, room@));
        } else {
            proof {
                room@.dom().lemma_len0_is_empty();
                assert(self@ =~= old(self)@.remove(user_id@));
            }
        }
    }

    /// Sweeps the room `user_id`: members whose handle no longer resolves
    /// are removed, and the room with them if nobody is left.
    fn cleanup_dead_connections<F: Fn(&H) -> bool>(&mut self, user_id: &str, is_live: &F)
        requires
            old(self).wf(),
            probe_total(*is_live),
        ensures
            final(self).wf(),
            room_swept(old(self)@, final(self)@, user_id@, *is_live),
    {
        let room = self.take_room(user_id);
        let kept = sweep(room, is_live);
        self.put_room(user_id, kept);
        proof {
            assert(self@ =~= with_roster(old(self)@, user_id@, kept@));
            assert(roster_of(self@, user_id@) =~= kept@);
        }
    }

    /// The number of live members of the room `user_id`, after a sweep of
    /// that room; 0 where there is no such room.
    pub fn get_room_user_count<F: Fn(&H) -> bool>(&mut self, user_id: &str, is_live: &F) -> (count:
        usize)
        requires
            old(self).wf(),
            probe_total(*is_live),
        ensures
            final(self).wf(),
            room_swept(old(self)@, final(self)@, user_id@, *is_live),
            count == member_count(final(self)@, user_id@),
    {
        self.cleanup_dead_connections(user_id, is_live);
        match self.rooms.get(user_id) {
            Some(room) => {
                assert(self@.contains_key(user_id@) && self@[user_id@] == room@);
                room.len()
            },
            None => {
                assert(!self@.contains_key(user_id@));
                0
            },
        }
    }

    /// Registers `session_id` with `handle` under the room `user_id`.
    ///
    /// The room is swept first. A session id that is already a member gets
    /// the new handle. The answer is the welcome for the joining session,
    /// followed by one notice of the new member count for every other
    /// member.
    pub fn join_room<F: Fn(&H) -> bool>(
        &mut self,
        user_id: &str,
        session_id: String,
        handle: H,
        is_live: &F,
    ) -> (deliveries: Vec<Delivery>)
        requires
            old(self).wf(),
            probe_total(*is_live),
        ensures
            final(self).wf(),
            room_joined(old(self)@, final(self)@, user_id@, session_id@, handle, *is_live),
            welcomed(deliveries@, final(self)@, user_id@, session_id@),
    {
        let room = self.take_room(user_id);
        let mut members = sweep(room, is_live);
        let joiner = session_id.clone();
        let ghost swept_roster = members@;
        members.insert(session_id, handle);
        let count: usize = members.len();
        let welcome = notice("[SYSTEM] You joined room. Active users: ", count);
        let joined = notice("[SYSTEM] New user joined. Active users: ", count);
        let mut deliveries: Vec<Delivery> = Vec::new();
        deliveries.push(Delivery { session_id: joiner.clone(), message: ClientMessage(welcome) });
        let mut others = deliveries_for(&members, joined.as_str(), Some(joiner.as_str()));
        let ghost notices = others@;
        deliveries.append(&mut others);
        self.put_room(user_id, members);
        proof {
            assert(members@.contains_key(session_id@));
            assert(!members@.dom().is_empty());
            assert(self@ =~= old(self)@.insert(user_id@, members@));
            assert(members@.remove(session_id@) =~= swept_roster.remove(session_id@));
            assert(self@.remove(user_id@) =~= old(self)@.remove(user_id@));
            assert(deliveries@.skip(1) =~= notices);
        }
        deliveries
    }

    /// Removes `session_id` from the room `user_id`.
    ///
    /// Where the session is no member (it never joined, it left before, or
    /// a sweep removed it) nothing changes and nothing is delivered. Else
    /// the remaining members are told the new member count, and a room left
    /// empty is deleted. A leave does not sweep.
    pub fn leave_room(&mut self, user_id: &str, session_id: &str) -> (deliveries: Vec<Delivery>)
        requires
            old(self).wf(),
        ensures
            final(self).wf(),
            final(self)@ == room_left(old(self)@, user_id@, session_id@),
            farewelled(deliveries@, old(self)@, final(self)@, user_id@, session_id@),
    {
        proof {
            old(self).lemma_valid();
        }
        let mut room = self.take_room(user_id);
        let ghost roster = room@;
        match room.remove(session_id) {
            Some(_) => {
                let remaining: usize = room.len();
                let text = notice("[SYSTEM] User left. Remaining users: ", remaining);
                let deliveries = deliveries_for(&room, text.as_str(), None);
                self.put_room(user_id, room);
                proof {
                    assert(self@ =~= with_roster(old(self)@, user_id@, room@));
                    assert(roster_of(self@, user_id@) =~= room@);
                }
                deliveries
            },
            None => {
                self.put_room(user_id, room);
                proof {
                    assert(room@ =~= roster);
                    assert(self@ =~= old(self)@);
                }
                Vec::new()
            },
        }
    }

    /// Relays `message` to the members of the room `user_id`, but not to
    /// `exclude_session` where one is named. The room is swept first.
    pub fn broadcast_to_room_excluding<F: Fn(&H) -> bool>(
        &mut self,
        user_id: &str,
        message: String,
        exclude_session: Option<&str>,
        is_live: &F,
    ) -> (deliveries: Vec<Delivery>)
        requires
            old(self).wf(),
            probe_total(*is_live),
        ensures
            final(self).wf(),
            room_swept(old(self)@, final(self)@, user_id@, *is_live),
            addressed(
                deliveries@,
                all_but(roster_of(final(self)@, user_id@).dom(), exclude_session),
                message@,
            ),
            exclude_session matches Some(session) ==> forall|i: int|
                0 <= i < deliveries@.len() ==> (#[trigger] deliveries@[i]).session_id@ != session@,
    {
        let room = self.take_room(user_id);
        let members = sweep(room, is_live);
        let deliveries = deliveries_for(&members, message.as_str(), exclude_session);
        self.put_room(user_id, members);
        proof {
            assert(self@ =~= with_roster(old(self)@, user_id@, members@));
            assert(roster_of(self@, user_id@) =~= members@);
        }
        deliveries
    }

    /// Relays `message` to every member of the room `user_id`, the sender
    /// included if it is still a member. The room is swept first.
    pub fn broadcast_to_room<F: Fn(&H) -> bool>(
        &mut self,
        user_id: &str,
        message: String,
        is_live: &F,
    ) -> (deliveries: Vec<Delivery>)
        requires
            old(self).wf(),
            probe_total(*is_live),
        ensures
            final(self).wf(),
            room_swept(old(self)@, final(self)@, user_id@, *is_live),
            addressed(deliveries@, roster_of(final(self)@, user_id@).dom(), message@),
    {
        self.broadcast_to_room_excluding(user_id, message, None, is_live)
    }

    /// Sweeps every room. This is what the periodic sweep runs; it reclaims
    /// the rooms whose members vanished without leaving.
    pub fn cleanup_all_rooms<F: Fn(&H) -> bool>(&mut self, is_live: &F)
        requires
            old(self).wf(),
            probe_total(*is_live),
        ensures
            final(self).wf(),
            all_swept(old(self)@, final(self)@, *is_live),
    {
        let mut rooms: KeyedList<KeyedList<H>> = KeyedList::new();
        proof {
            rooms.lemma_enumeration();
        }
        std::mem::swap(&mut self.rooms, &mut rooms);
        self.rooms = sweep_rooms(rooms, is_live);
        proof {
            self.lemma_valid();
        }
    }

    /// Sweeps every room and lists the rooms that are left, each with its
    /// member count. A room without a live member is not listed.
    pub fn debug_rooms<F: Fn(&H) -> bool>(&mut self, is_live: &F) -> (snapshot: Vec<RoomStatus>)
        requires
            old(self).wf(),
            probe_total(*is_live),
        ensures
            final(self).wf(),
            all_swept(old(self)@, final(self)@, *is_live),
            lists_rooms(snapshot@, final(self)@),
            forall|i: int| 0 <= i < snapshot@.len() ==> (#[trigger] snapshot@[i]).sessions > 0,
    {
        self.cleanup_all_rooms(is_live);
        let n: usize = self.rooms.len();
        let mut snapshot: Vec<RoomStatus> = Vec::new();
        let mut i: usize = 0;
        proof {
            self.rooms.lemma_enumeration();
        }
        while i < n
            invariant
                self.wf(),
                i <= n,
                n == self.rooms.keys().len(),
                self.rooms.keys().no_duplicates(),
                self.rooms.keys().to_set() == self.rooms@.dom(),
                snapshot@.len() == i,
                forall|k: int|
                    0 <= k < i ==> (#[trigger] snapshot@[k]).user_id@ == self.rooms.keys()[k]
                        && self@.contains_key(snapshot@[k].user_id@) && snapshot@[k].sessions
                        == self@[snapshot@[k].user_id@].dom().len() && snapshot@[k].sessions > 0,
            decreases n - i,
        {
            let key = self.rooms.key_at(i);
            let room = self.rooms.value_at(i);
            let sessions: usize = room.len();
            proof {
                assert(self@.contains_key(key@) && self@[key@] == room@);
                if sessions == 0 {
                    room@.dom().lemma_len0_is_empty();
                }
            }
            snapshot.push(RoomStatus { user_id: key.clone(), sessions });
            i += 1;
        }
        proof {
            assert forall|key: Seq<char>| #[trigger] self@.contains_key(key) implies exists|k: int|
                0 <= k < snapshot@.len() && (#[trigger] snapshot@[k]).user_id@ == key by {
                assert(self.rooms@.contains_key(key));
                assert(self.rooms.keys().to_set().contains(key));
                let k = choose|k: int| 0 <= k < self.rooms.keys().len() && self.rooms.keys()[k] == key;
                assert(snapshot@[k].user_id@ == key);
            }
        }
        snapshot
    }

    /// The handle under which `session_id` is a member of the room
    /// `user_id`, if it is one. The registry hands the handle out for a
    /// delivery; it does not probe it.
    pub fn handle_of(&self, user_id: &str, session_id: &str) -> (found: Option<&H>)
        requires
            self.wf(),
        ensures
            match found {
                Some(handle) => roster_of(self@, user_id@).contains_key(session_id@) && *handle
                    == roster_of(self@, user_id@)[session_id@],
                None => !roster_of(self@, user_id@).contains_key(session_id@),
            },
    {
        match self.rooms.get(user_id) {
            Some(room) => {
                assert(self@.contains_key(user_id@) && self@[user_id@] == room@);
                room.get(session_id)
            },
            None => {
                assert(!self@.contains_key(user_id@));
                None
            },
        }
    }

    /// Handles one request of a session and answers it.
    pub fn handle<F: Fn(&H) -> bool>(&mut self, request: Request<H>, is_live: &F) -> (reply: Reply)
        requires
            old(self).wf(),
            probe_total(*is_live),
        ensures
            final(self).wf(),
            answered(old(self)@, final(self)@, request, reply, *is_live),
    {
        match request {
            Request::Join(join) => Reply::Deliveries(
                self.join_room(join.user_id.as_str(), join.session_id, join.addr, is_live),
            ),
            Request::Leave(leave) => Reply::Deliveries(
                self.leave_room(leave.user_id.as_str(), leave.session_id.as_str()),
            ),
            Request::Send(send) => Reply::Deliveries(
                self.broadcast_to_room_excluding(
                    send.user_id.as_str(),
                    send.message,
                    Some(send.sender_session_id.as_str()),
                    is_live,
                ),
            ),
            Request::Count(count) => Reply::Count(
                self.get_room_user_count(count.user_id.as_str(), is_live),
            ),
            Request::Debug(_) => Reply::Rooms(self.debug_rooms(is_live)),
        }
    }
}

} // verus!

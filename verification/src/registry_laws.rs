//! Laws of the registry, proved over the relations and functions in which
//! the registry's operations state their effect.

use vstd::prelude::*;
use vstd::set_lib::*;
use crate::messages::{addressed, recipients_of, Delivery};
use crate::rooms::{
    all_swept, member_count, room_joined, room_left, room_swept, roster_of, swept, Rooms, Roster,
};

verus! {

/// A membership event on one room.
pub enum RoomEvent<H> {
    /// A session joins with a handle.
    Join { session: Seq<char>, handle: H },
    /// A session leaves.
    Leave { session: Seq<char> },
}

/// The sessions that are members after `events`, starting from the members
/// `initial`, if no handle dies on the way: a join adds the session, a
/// leave removes it.
pub open spec fn members_after<H>(initial: Set<Seq<char>>, events: Seq<RoomEvent<H>>) -> Set<
    Seq<char>,
>
    decreases events.len(),
{
    if events.len() == 0 {
        initial
    } else {
        let earlier = members_after(initial, events.drop_last());
        match events.last() {
            RoomEvent::Join { session, .. } => earlier.insert(session),
            RoomEvent::Leave { session } => earlier.remove(session),
        }
    }
}

/// The distinct sessions that join somewhere in `events`.
pub open spec fn joined_ids<H>(events: Seq<RoomEvent<H>>) -> Set<Seq<char>>
    decreases events.len(),
{
    if events.len() == 0 {
        Set::empty()
    } else {
        let earlier = joined_ids(events.drop_last());
        match events.last() {
            RoomEvent::Join { session, .. } => earlier.insert(session),
            RoomEvent::Leave { .. } => earlier,
        }
    }
}

/// The distinct sessions that leave somewhere in `events`.
pub open spec fn left_ids<H>(events: Seq<RoomEvent<H>>) -> Set<Seq<char>>
    decreases events.len(),
{
    if events.len() == 0 {
        Set::empty()
    } else {
        let earlier = left_ids(events.drop_last());
        match events.last() {
            RoomEvent::Join { .. } => earlier,
            RoomEvent::Leave { session } => earlier.insert(session),
        }
    }
}

/// `after` is a state in which the registry may be when `event` has been
/// handled for room `key` in state `before`: what `join_room` and
/// `leave_room` promise.
pub open spec fn handled<H, F: Fn(&H) -> bool>(
    before: Rooms<H>,
    after: Rooms<H>,
    key: Seq<char>,
    event: RoomEvent<H>,
    is_live: F,
) -> bool {
    match event {
        RoomEvent::Join { session, handle } => room_joined(
            before,
            after,
            key,
            session,
            handle,
            is_live,
        ),
        RoomEvent::Leave { session } => after == room_left(before, key, session),
    }
}

/// `states` are the states that the registry goes through while it handles
/// `events` for room `key`, one after the other: `states[0]` before the
/// first event, `states[i + 1]` after `events[i]`.
pub open spec fn history<H, F: Fn(&H) -> bool>(
    states: Seq<Rooms<H>>,
    key: Seq<char>,
    events: Seq<RoomEvent<H>>,
    is_live: F,
) -> bool {
    &&& states.len() == events.len() + 1
    &&& forall|i: int|
        #![trigger events[i]]
        0 <= i < events.len() ==> handled(states[i], states[i + 1], key, events[i], is_live)
}

/// The probe finds every handle live.
pub open spec fn always_live<H, F: Fn(&H) -> bool>(is_live: F) -> bool {
    forall|handle: H, answer: bool| #[trigger] call_ensures(is_live, (&handle,), answer) ==> answer
}

/// The probe finds `handle` dead whenever it is asked.
pub open spec fn never_live<H, F: Fn(&H) -> bool>(is_live: F, handle: H) -> bool {
    forall|answer: bool| #[trigger] call_ensures(is_live, (&handle,), answer) ==> !answer
}

/// The count that the number of joined and of left sessions suggest: their
/// difference, and 0 where more sessions left than joined.
pub open spec fn joined_minus_left(joined: nat, left: nat) -> nat {
    if joined >= left {
        (joined - left) as nat
    } else {
        0
    }
}

proof fn lemma_one_event<H, F: Fn(&H) -> bool>(
    before: Rooms<H>,
    after: Rooms<H>,
    key: Seq<char>,
    event: RoomEvent<H>,
    is_live: F,
)
    requires
        handled(before, after, key, event, is_live),
    ensures
        roster_of(after, key).dom().subset_of(
            members_after(roster_of(before, key).dom(), seq![event]),
        ),
        always_live(is_live) ==> roster_of(after, key).dom() == members_after(
            roster_of(before, key).dom(),
            seq![event],
        ),
{
    let start = roster_of(before, key).dom();
    let end = roster_of(after, key).dom();
    let one = seq![event];
    assert(one.drop_last() =~= Seq::<RoomEvent<H>>::empty());
    assert(members_after(start, one.drop_last()) == start);
    assert(one.last() == event);
    match event {
        RoomEvent::Join { session, handle } => {
            assert(members_after(start, one) == start.insert(session));
            let old_others = roster_of(before, key).remove(session);
            let new_others = after[key].remove(session);
            assert forall|s: Seq<char>| end.contains(s) implies start.insert(session).contains(
                s,
            ) by {
                if s != session {
                    assert(new_others.dom().contains(s));
                    assert(old_others.dom().contains(s));
                }
            }
            if always_live(is_live) {
                assert forall|s: Seq<char>| start.insert(session).contains(s) implies end.contains(
                    s,
                ) by {
                    if s != session {
                        assert(old_others.contains_key(s));
                        assert(call_ensures(is_live, (&old_others[s],), new_others.contains_key(s)));
                    }
                }
                assert(end =~= start.insert(session));
            }
        },
        RoomEvent::Leave { session } => {
            assert(members_after(start, one) == start.remove(session));
            assert(end =~= start.remove(session));
        },
    }
}

proof fn lemma_members_monotone<H>(small: Set<Seq<char>>, large: Set<Seq<char>>, events: Seq<RoomEvent<H>>)
    requires
        small.subset_of(large),
    ensures
        members_after(small, events).subset_of(members_after(large, events)),
    decreases events.len(),
{
    if events.len() > 0 {
        lemma_members_monotone(small, large, events.drop_last());
    }
}

proof fn lemma_members_finite<H>(initial: Set<Seq<char>>, events: Seq<RoomEvent<H>>)
    requires
        initial.finite(),
    ensures
        members_after(initial, events).finite(),
    decreases events.len(),
{
    if events.len() > 0 {
        lemma_members_finite(initial, events.drop_last());
    }
}

proof fn lemma_members_step<H>(initial: Set<Seq<char>>, events: Seq<RoomEvent<H>>)
    requires
        events.len() > 0,
    ensures
        members_after(initial, events) == members_after(
            members_after(initial, events.drop_last()),
            seq![events.last()],
        ),
{
    let one = seq![events.last()];
    assert(one.drop_last() =~= Seq::<RoomEvent<H>>::empty());
    assert(members_after(members_after(initial, events.drop_last()), one.drop_last())
        == members_after(initial, events.drop_last()));
    assert(one.last() == events.last());
}

/// Who is in a room after a sequence of joins and leaves.
///
/// Let the registry handle `events` for room `key`, whatever it does for
/// other rooms in between being left out. Then the members of the room at
/// the end are among `members_after` of the members at the start. If the
/// probe finds every handle live, they are exactly those: no member is
/// lost but by leaving.
pub proof fn law_members_after_history<H, F: Fn(&H) -> bool>(
    states: Seq<Rooms<H>>,
    key: Seq<char>,
    events: Seq<RoomEvent<H>>,
    is_live: F,
)
    requires
        history(states, key, events, is_live),
        roster_of(states[0], key).dom().finite(),
    ensures
        members_after(roster_of(states[0], key).dom(), events).finite(),
        roster_of(states.last(), key).dom().subset_of(
            members_after(roster_of(states[0], key).dom(), events),
        ),
        always_live(is_live) ==> roster_of(states.last(), key).dom() == members_after(
            roster_of(states[0], key).dom(),
            events,
        ),
    decreases events.len(),
{
    let start = roster_of(states[0], key).dom();
    lemma_members_finite(start, events);
    if events.len() > 0 {
        let earlier_states = states.drop_last();
        let earlier = events.drop_last();
        let n = events.len() as int;
        assert forall|i: int| #![trigger earlier[i]] 0 <= i < earlier.len() implies handled(
            earlier_states[i],
            earlier_states[i + 1],
            key,
            earlier[i],
            is_live,
        ) by {
            assert(earlier[i] == events[i]);
        }
        law_members_after_history(earlier_states, key, earlier, is_live);
        let middle = roster_of(earlier_states.last(), key).dom();
        assert(earlier_states.last() == states[n - 1]);
        assert(handled(states[n - 1], states[n], key, events[n - 1], is_live));
        lemma_one_event(states[n - 1], states[n], key, events.last(), is_live);
        lemma_members_step(start, events);
        lemma_members_monotone(middle, members_after(start, earlier), seq![events.last()]);
    }
}

proof fn lemma_ids<H>(events: Seq<RoomEvent<H>>)
    ensures
        joined_ids(events).finite(),
        left_ids(events).finite(),
        members_after(Set::<Seq<char>>::empty(), events).subset_of(joined_ids(events)),
        joined_ids(events).difference(left_ids(events)).subset_of(
            members_after(Set::<Seq<char>>::empty(), events),
        ),
    decreases events.len(),
{
    if events.len() > 0 {
        lemma_ids(events.drop_last());
    }
}

/// Whether `events` is a sequence of which the plain count is right: no
/// session that left is a member again at the end, and the sessions that
/// left are all among those that joined, or the other way round.
pub open spec fn plainly_counted<H>(events: Seq<RoomEvent<H>>) -> bool {
    &&& left_ids(events).disjoint(members_after(Set::<Seq<char>>::empty(), events))
    &&& left_ids(events).subset_of(joined_ids(events)) || joined_ids(events).subset_of(
        left_ids(events),
    )
}

/// When the plain count is right.
///
/// After `events` on a room that was empty, and with no handle dying, the
/// number of members is the number of distinct sessions that joined minus
/// the number of those that left, and 0 where more left than joined, if
/// and only if the sequence is `plainly_counted`. A session that leaves
/// and joins again, for one, makes the plain count too small.
pub proof fn law_count_is_joined_minus_left<H>(events: Seq<RoomEvent<H>>)
    ensures
        plainly_counted(events) <==> members_after(Set::<Seq<char>>::empty(), events).len()
            == joined_minus_left(joined_ids(events).len(), left_ids(events).len()),
{
    let members = members_after(Set::<Seq<char>>::empty(), events);
    let joined = joined_ids(events);
    let left = left_ids(events);
    let never_left = joined.difference(left);
    lemma_ids(events);
    lemma_members_finite(Set::<Seq<char>>::empty(), events);
    lemma_set_difference_len(joined, left);
    lemma_set_difference_len(left, joined);
    lemma_len_subset(never_left, members);
    assert(left.intersect(joined) =~= joined.intersect(left));
    if plainly_counted(events) {
        assert(members =~= never_left);
        if left.subset_of(joined) {
            assert(joined.intersect(left) =~= left);
        } else {
            assert(joined.intersect(left) =~= joined);
            lemma_len_subset(joined, left);
        }
    }
    if members.len() == joined_minus_left(joined.len(), left.len()) {
        assert(members.len() == never_left.len());
        lemma_subset_equality(never_left, members);
        assert(left.disjoint(members));
        if joined.len() >= left.len() {
            left.difference(joined).lemma_len0_is_empty();
            assert(left.subset_of(joined)) by {
                assert forall|s: Seq<char>| left.contains(s) implies joined.contains(s) by {
                    if !joined.contains(s) {
                        assert(left.difference(joined).contains(s));
                    }
                }
            }
        } else {
            never_left.lemma_len0_is_empty();
            assert(joined.subset_of(left)) by {
                assert forall|s: Seq<char>| joined.contains(s) implies left.contains(s) by {
                    if !left.contains(s) {
                        assert(never_left.contains(s));
                    }
                }
            }
        }
    }
}

/// The member count after a sequence of joins and leaves on one room.
///
/// Let the registry handle `events` for a room that does not exist at the
/// start. Then the room's member count at the end is at most the number
/// of sessions whose last event is a join; what is missing are members
/// whose handles a sweep found dead. If the probe finds every handle
/// live, the count is that number, and it is the number of distinct
/// sessions joined minus the number of those left, and 0 where more left,
/// if and only if the sequence is `plainly_counted`.
pub proof fn law_member_count<H, F: Fn(&H) -> bool>(
    states: Seq<Rooms<H>>,
    key: Seq<char>,
    events: Seq<RoomEvent<H>>,
    is_live: F,
)
    requires
        history(states, key, events, is_live),
        !states[0].contains_key(key),
    ensures
        member_count(states.last(), key) <= members_after(
            Set::<Seq<char>>::empty(),
            events,
        ).len(),
        always_live(is_live) ==> member_count(states.last(), key) == members_after(
            Set::<Seq<char>>::empty(),
            events,
        ).len(),
        always_live(is_live) ==> (plainly_counted(events) <==> member_count(states.last(), key)
            == joined_minus_left(joined_ids(events).len(), left_ids(events).len())),
{
    assert(roster_of(states[0], key).dom() =~= Set::<Seq<char>>::empty());
    law_members_after_history(states, key, events, is_live);
    lemma_len_subset(
        roster_of(states.last(), key).dom(),
        members_after(Set::<Seq<char>>::empty(), events),
    );
    law_count_is_joined_minus_left(events);
}

/// Leaving is idempotent: a second leave of the same session from the same
/// room changes nothing, and the session is no member after the first.
pub proof fn law_leave_idempotent<H>(rooms: Rooms<H>, key: Seq<char>, session: Seq<char>)
    ensures
        !roster_of(room_left(rooms, key, session), key).contains_key(session),
        room_left(room_left(rooms, key, session), key, session) == room_left(rooms, key, session),
{
}

/// Rooms do not touch each other: a join or a leave in room `key` leaves
/// every other room as it was.
pub proof fn law_other_rooms_untouched<H, F: Fn(&H) -> bool>(
    before: Rooms<H>,
    after: Rooms<H>,
    key: Seq<char>,
    event: RoomEvent<H>,
    is_live: F,
    other: Seq<char>,
)
    requires
        handled(before, after, key, event, is_live),
        other != key,
    ensures
        after.contains_key(other) == before.contains_key(other),
        roster_of(after, other) == roster_of(before, other),
{
    if event is Join {
        assert(after.remove(key).contains_key(other) == before.remove(key).contains_key(other));
        assert(after.remove(key)[other] == before.remove(key)[other]);
    }
}

/// A sweep of room `key` leaves every other room as it was.
pub proof fn law_room_sweep_is_local<H, F: Fn(&H) -> bool>(
    before: Rooms<H>,
    after: Rooms<H>,
    key: Seq<char>,
    is_live: F,
    other: Seq<char>,
)
    requires
        room_swept(before, after, key, is_live),
        other != key,
    ensures
        after.contains_key(other) == before.contains_key(other),
        roster_of(after, other) == roster_of(before, other),
{
}

/// A member whose handle the probe finds dead does not outlast a sweep of
/// its roster.
pub proof fn law_sweep_drops_dead<H, F: Fn(&H) -> bool>(
    before: Roster<H>,
    after: Roster<H>,
    is_live: F,
    session: Seq<char>,
)
    requires
        swept(before, after, is_live),
        before.contains_key(session),
        never_live(is_live, before[session]),
    ensures
        !after.contains_key(session),
        after.dom().subset_of(before.dom().remove(session)),
{
    assert(call_ensures(is_live, (&before[session],), after.contains_key(session)));
}

/// A member whose handle the probe finds dead is no member of its room
/// after any operation that sweeps the room (a count, a broadcast), and so
/// does not count.
pub proof fn law_dead_member_gone_after_room_sweep<H, F: Fn(&H) -> bool>(
    before: Rooms<H>,
    after: Rooms<H>,
    key: Seq<char>,
    is_live: F,
    session: Seq<char>,
)
    requires
        room_swept(before, after, key, is_live),
        roster_of(before, key).contains_key(session),
        never_live(is_live, roster_of(before, key)[session]),
    ensures
        !roster_of(after, key).contains_key(session),
{
    law_sweep_drops_dead(roster_of(before, key), roster_of(after, key), is_live, session);
}

/// A member whose handle the probe finds dead is no member of its room
/// after a sweep of all rooms (the periodic sweep, the diagnostic listing).
pub proof fn law_dead_member_gone_after_full_sweep<H, F: Fn(&H) -> bool>(
    before: Rooms<H>,
    after: Rooms<H>,
    key: Seq<char>,
    is_live: F,
    session: Seq<char>,
)
    requires
        all_swept(before, after, is_live),
        roster_of(before, key).contains_key(session),
        never_live(is_live, roster_of(before, key)[session]),
    ensures
        !roster_of(after, key).contains_key(session),
{
    assert(swept(roster_of(before, key), roster_of(after, key), is_live));
    law_sweep_drops_dead(roster_of(before, key), roster_of(after, key), is_live, session);
}

/// A member whose handle the probe finds dead is no member of its room
/// after another session has joined that room.
pub proof fn law_dead_member_gone_after_join<H, F: Fn(&H) -> bool>(
    before: Rooms<H>,
    after: Rooms<H>,
    key: Seq<char>,
    joiner: Seq<char>,
    handle: H,
    is_live: F,
    session: Seq<char>,
)
    requires
        room_joined(before, after, key, joiner, handle, is_live),
        session != joiner,
        roster_of(before, key).contains_key(session),
        never_live(is_live, roster_of(before, key)[session]),
    ensures
        !roster_of(after, key).contains_key(session),
{
    let old_others = roster_of(before, key).remove(joiner);
    let new_others = after[key].remove(joiner);
    assert(old_others.contains_key(session));
    law_sweep_drops_dead(old_others, new_others, is_live, session);
}

/// One delivery each: deliveries that are addressed to a set of sessions
/// are as many as the sessions, and the sessions they address are that
/// set.
pub proof fn law_one_delivery_each(
    deliveries: Seq<Delivery>,
    recipients: Set<Seq<char>>,
    text: Seq<char>,
)
    requires
        addressed(deliveries, recipients, text),
    ensures
        recipients_of(deliveries).no_duplicates(),
        recipients_of(deliveries).to_set() == recipients,
        recipients.finite(),
        deliveries.len() == recipients.len(),
{
    let ids = recipients_of(deliveries);
    assert forall|i: int, j: int| 0 <= i < ids.len() && 0 <= j < ids.len() && i != j implies ids[i]
        != ids[j] by {
        if i < j {
            assert(deliveries[i].session_id@ != deliveries[j].session_id@);
        } else {
            assert(deliveries[j].session_id@ != deliveries[i].session_id@);
        }
    }
    assert forall|session: Seq<char>| ids.to_set().contains(session) == recipients.contains(
        session,
    ) by {
        if ids.contains(session) {
            let i = choose|i: int| 0 <= i < ids.len() && ids[i] == session;
            assert(recipients.contains(deliveries[i].session_id@));
        }
        if recipients.contains(session) {
            let i = choose|i: int|
                0 <= i < deliveries.len() && (#[trigger] deliveries[i]).session_id@ == session;
            assert(ids[i] == session);
        }
    }
    assert(ids.to_set() =~= recipients);
    ids.unique_seq_to_set();
}

} // verus!

//! Laws of the session state machine, proved over the functions in which
//! the session's methods state their effect.

use vstd::prelude::*;
use crate::heartbeat::{alive_at, silence, CLIENT_TIMEOUT_MS};
use crate::registry::{answered, Reply, Request};
use crate::rooms::{roster_of, Rooms};
use crate::session::{
    echo_text, ignored, in_state, leave_of, pushed, received, room_text, started, stopped, ticked,
    EffectView, FrameView, ProtocolError, SessionState, SessionView, Step,
};

verus! {

/// An event in the life of a session.
pub enum SessionEvent {
    /// The handshake has completed.
    Started,
    /// The heartbeat timer has fired.
    Tick { now: u64 },
    /// The transport has handed over a frame or a protocol error.
    Message { msg: Result<FrameView, ProtocolError>, now: u64, timestamp: Seq<char> },
    /// The registry has pushed a text.
    Push { text: Seq<char> },
    /// The connection is being torn down.
    Stopping,
}

/// What the session does on `event` in state `s`.
pub open spec fn after_event(s: SessionView, event: SessionEvent) -> Step {
    match event {
        SessionEvent::Started => started(s),
        SessionEvent::Tick { now } => ticked(s, now),
        SessionEvent::Message { msg, now, timestamp } => received(s, msg, now, timestamp),
        SessionEvent::Push { text } => pushed(s, text),
        SessionEvent::Stopping => stopped(s),
    }
}

/// The state after `events`, handled one after the other from state `s`,
/// and all the effects that they had, in their order.
pub open spec fn run(s: SessionView, events: Seq<SessionEvent>) -> Step
    decreases events.len(),
{
    if events.len() == 0 {
        ignored(s)
    } else {
        let earlier = run(s, events.drop_last());
        let last = after_event(earlier.next, events.last());
        Step { next: last.next, effects: earlier.effects + last.effects }
    }
}

/// The number of leaves among `effects`.
pub open spec fn leaves_in(effects: Seq<EffectView>) -> nat
    decreases effects.len(),
{
    if effects.len() == 0 {
        0
    } else {
        leaves_in(effects.drop_last()) + if effects.last() is Leave {
            1nat
        } else {
            0nat
        }
    }
}

proof fn lemma_leaves_in_concat(a: Seq<EffectView>, b: Seq<EffectView>)
    ensures
        leaves_in(a + b) == leaves_in(a) + leaves_in(b),
    decreases b.len(),
{
    if b.len() == 0 {
        assert(a + b =~= a);
    } else {
        assert((a + b).drop_last() =~= a + b.drop_last());
        assert((a + b).last() == b.last());
        lemma_leaves_in_concat(a, b.drop_last());
    }
}

proof fn lemma_leaves_in_few(a: EffectView, b: EffectView)
    ensures
        leaves_in(Seq::<EffectView>::empty()) == 0,
        leaves_in(seq![a]) == if a is Leave {
            1nat
        } else {
            0nat
        },
        leaves_in(seq![a, b]) == if a is Leave {
            1nat
        } else {
            0nat
        } + if b is Leave {
            1nat
        } else {
            0nat
        },
{
    let none = Seq::<EffectView>::empty();
    let one = seq![a];
    let two = seq![a, b];
    assert(leaves_in(none) == 0);
    assert(one.drop_last() =~= none);
    assert(one.last() == a);
    assert(leaves_in(one) == leaves_in(none) + if a is Leave {
        1nat
    } else {
        0nat
    });
    assert(two.drop_last() =~= one);
    assert(two.last() == b);
    assert(leaves_in(two) == leaves_in(one) + if b is Leave {
        1nat
    } else {
        0nat
    });
}

proof fn lemma_leaves_in_one_event(s: SessionView, event: SessionEvent)
    ensures
        after_event(s, event).next.user_id == s.user_id,
        after_event(s, event).next.session_id == s.session_id,
        s.state == SessionState::Terminated ==> after_event(s, event).next.state
            == SessionState::Terminated,
        leaves_in(after_event(s, event).effects) == if s.state != SessionState::Terminated
            && after_event(s, event).next.state == SessionState::Terminated {
            1nat
        } else {
            0nat
        },
        forall|i: int|
            0 <= i < after_event(s, event).effects.len() && (#[trigger] after_event(
                s,
                event,
            ).effects[i]) is Leave ==> after_event(s, event).effects[i] == leave_of(s),
{
    let effects = after_event(s, event).effects;
    if effects.len() == 0 {
        assert(effects =~= Seq::<EffectView>::empty());
        lemma_leaves_in_few(EffectView::Stop, EffectView::Stop);
    } else if effects.len() == 1 {
        assert(effects =~= seq![effects[0]]);
        lemma_leaves_in_few(effects[0], EffectView::Stop);
    } else {
        assert(effects.len() == 2);
        assert(effects =~= seq![effects[0], effects[1]]);
        lemma_leaves_in_few(effects[0], effects[1]);
    }
}

/// A session issues its leave exactly once.
///
/// Whatever events a session is handed, in whatever order: among all its
/// effects there is one leave if it has been terminated on the way, and
/// none if it has not. Every leave that it issues names its own room key
/// and session id, which never change, and a terminated session stays
/// terminated.
pub proof fn law_leave_issued_once(s: SessionView, events: Seq<SessionEvent>)
    ensures
        run(s, events).next.user_id == s.user_id,
        run(s, events).next.session_id == s.session_id,
        s.state == SessionState::Terminated ==> run(s, events).next.state
            == SessionState::Terminated,
        leaves_in(run(s, events).effects) == if s.state != SessionState::Terminated && run(
            s,
            events,
        ).next.state == SessionState::Terminated {
            1nat
        } else {
            0nat
        },
        forall|i: int|
            0 <= i < run(s, events).effects.len() && (#[trigger] run(s, events).effects[i]) is Leave
                ==> run(s, events).effects[i] == leave_of(s),
    decreases events.len(),
{
    if events.len() > 0 {
        let earlier = run(s, events.drop_last());
        let last = after_event(earlier.next, events.last());
        law_leave_issued_once(s, events.drop_last());
        lemma_leaves_in_one_event(earlier.next, events.last());
        lemma_leaves_in_concat(earlier.effects, last.effects);
        assert(leave_of(earlier.next) == leave_of(s));
        assert forall|i: int|
            0 <= i < run(s, events).effects.len() && (#[trigger] run(s, events).effects[i]) is Leave
            implies run(s, events).effects[i] == leave_of(s) by {
            if i < earlier.effects.len() {
                assert(run(s, events).effects[i] == earlier.effects[i]);
            } else {
                assert(run(s, events).effects[i] == last.effects[i - earlier.effects.len()]);
            }
        }
    }
}

/// Whether `event` brings a frame that counts as activity of the client: a
/// ping, a pong, a text or a binary frame.
pub open spec fn is_activity(event: SessionEvent) -> bool {
    event matches SessionEvent::Message { msg: Ok(frame), .. } && (frame is Ping || frame is Pong
        || frame is Text || frame is Binary)
}

/// Only the client's frames count as activity: whatever else a session is
/// handed (timer ticks, pushes of the registry, close frames, protocol
/// errors), the time of its last activity stays what it was.
pub proof fn law_only_frames_refresh(s: SessionView, events: Seq<SessionEvent>)
    requires
        forall|i: int| 0 <= i < events.len() ==> !is_activity(#[trigger] events[i]),
    ensures
        run(s, events).next.last_activity == s.last_activity,
    decreases events.len(),
{
    if events.len() > 0 {
        let earlier = events.drop_last();
        assert forall|i: int| 0 <= i < earlier.len() implies !is_activity(#[trigger] earlier[i]) by {
            assert(earlier[i] == events[i]);
        }
        law_only_frames_refresh(s, earlier);
        assert(!is_activity(events[events.len() - 1]));
    }
}

/// A silent session terminates itself and leaves once.
///
/// When the heartbeat timer fires for an active session from which nothing
/// has been heard for the timeout or longer, the session stops, without
/// waiting for its peer. The teardown that follows issues the session's
/// leave, and any further teardown issues none.
pub proof fn law_silent_session_terminates(s: SessionView, now: u64)
    requires
        s.state == SessionState::Active,
        silence(s.last_activity, now) >= CLIENT_TIMEOUT_MS,
    ensures
        ticked(s, now).effects == seq![EffectView::Stop],
        ticked(s, now).next == in_state(s, SessionState::Closing),
        stopped(ticked(s, now).next).effects == seq![leave_of(s)],
        stopped(ticked(s, now).next).next == in_state(s, SessionState::Terminated),
        stopped(stopped(ticked(s, now).next).next).effects == Seq::<EffectView>::empty(),
{
}

/// A session that has been heard of within the timeout is not stopped by
/// the heartbeat timer: it pings its peer and stays as it is.
pub proof fn law_live_session_pings(s: SessionView, now: u64)
    requires
        s.state == SessionState::Active,
        silence(s.last_activity, now) < CLIENT_TIMEOUT_MS,
    ensures
        ticked(s, now).effects == seq![EffectView::Ping],
        ticked(s, now).next == s,
{
}

/// A ping, a pong, a text or a binary frame counts as activity: after an
/// active session has received one at `at`, it counts as alive at every
/// time less than the timeout later.
pub proof fn law_activity_defers_timeout(
    s: SessionView,
    frame: FrameView,
    at: u64,
    timestamp: Seq<char>,
    now: u64,
)
    requires
        s.state == SessionState::Active,
        frame is Ping || frame is Pong || frame is Text || frame is Binary,
        silence(at, now) < CLIENT_TIMEOUT_MS,
    ensures
        received(s, Ok(frame), at, timestamp).next.last_activity == at,
        received(s, Ok(frame), at, timestamp).next.state == SessionState::Active,
        alive_at(received(s, Ok(frame), at, timestamp).next.last_activity, now),
{
}

/// Whether `request` is the request to relay that `effect` asks the driver
/// to send to the registry.
pub open spec fn carries<H>(request: Request<H>, effect: EffectView) -> bool {
    request matches Request::Send(send) && effect == (EffectView::Broadcast {
        user_id: send.user_id@,
        message: send.message@,
        sender_session_id: send.sender_session_id@,
    })
}

/// A client hears its own text once.
///
/// When an active session receives a text, it echoes the text to its own
/// client in the form of an echo and asks the registry to relay it in the
/// form of a relayed message. When the registry has answered that request,
/// every member of the session's room but the session itself is sent the
/// relayed form, once, and the session itself is sent nothing.
pub proof fn law_text_is_heard_once<H, F: Fn(&H) -> bool>(
    s: SessionView,
    text: Seq<char>,
    now: u64,
    timestamp: Seq<char>,
    before: Rooms<H>,
    after: Rooms<H>,
    request: Request<H>,
    reply: Reply,
    is_live: F,
)
    requires
        s.state == SessionState::Active,
        carries(request, received(s, Ok(FrameView::Text(text)), now, timestamp).effects[0]),
        answered(before, after, request, reply, is_live),
    ensures
        received(s, Ok(FrameView::Text(text)), now, timestamp).effects.len() == 2,
        received(s, Ok(FrameView::Text(text)), now, timestamp).effects[1] == EffectView::Text(
            echo_text(timestamp, text),
        ),
        reply matches Reply::Deliveries(deliveries) && (forall|i: int|
            0 <= i < deliveries@.len() ==> (#[trigger] deliveries@[i]).session_id@ != s.session_id
                && deliveries@[i].message.0@ == room_text(timestamp, s.session_id, text)) && (
        forall|member: Seq<char>|
            #![trigger roster_of(after, s.user_id).contains_key(member)]
            roster_of(after, s.user_id).contains_key(member) && member != s.session_id
                ==> exists|i: int|
                0 <= i < deliveries@.len() && (#[trigger] deliveries@[i]).session_id@ == member),
{
    match reply {
        Reply::Deliveries(deliveries) => {
            assert forall|member: Seq<char>|
                #![trigger roster_of(after, s.user_id).contains_key(member)]
                roster_of(after, s.user_id).contains_key(member) && member
                    != s.session_id implies exists|i: int|
                0 <= i < deliveries@.len() && (#[trigger] deliveries@[i]).session_id@ == member by {
                assert(roster_of(after, s.user_id).dom().remove(s.session_id).contains(member));
            }
        },
        _ => {},
    }
}

} // verus!

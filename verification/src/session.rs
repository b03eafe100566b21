//! The connection session: one connected client under one room key.
//!
//! A session is a state machine. Its driver owns the duplex stream and the
//! timers; it hands every event to the session (the handshake has
//! completed, a frame has arrived, the heartbeat timer has fired, the
//! connection is being torn down) and carries out the effects that the
//! session answers with, in their order.

use vstd::prelude::*;
use vstd::string::*;
use crate::clock::{is_clock_time, local_clock_time};
use crate::heartbeat::{alive_at, Heartbeat};
use crate::ident::{fresh_session_id, is_hyphenated_uuid};
use crate::messages::{ClientMessage, LeaveRoom, SendToRoom};
use crate::text::{abbreviate, short_id, trim, trimmed};

verus! {

/// Where a session is in its life.
#[derive(Debug, Clone, Copy, PartialEq, Eq, Structural)]
pub enum SessionState {
    /// Created; the handshake has not completed yet.
    Connecting,
    /// Joined to its room and exchanging frames.
    Active,
    /// Told to stop: by the peer's close frame, by a protocol error or by
    /// the liveness timeout.
    Closing,
    /// Torn down; its leave has been issued.
    Terminated,
}

/// Why a connection is closed, as the close frame carries it.
#[derive(Debug, Clone, PartialEq, Eq)]
pub struct CloseReason {
    pub code: u16,
    pub description: Option<String>,
}

/// The transport could not decode what the peer sent.
#[derive(Debug, Clone, Copy, PartialEq, Eq, Structural)]
pub struct ProtocolError;

/// A frame received from the client.
#[derive(Debug, Clone, PartialEq, Eq)]
pub enum Frame {
    Text(String),
    Binary(Vec<u8>),
    Ping(Vec<u8>),
    Pong(Vec<u8>),
    Close(Option<CloseReason>),
    /// Any other frame; a session takes no notice of it.
    Other,
}

/// What a session asks its driver to do.
#[derive(Debug, Clone, PartialEq, Eq)]
pub enum Effect {
    /// Send the registry a join for this session, with the session's handle.
    Join { user_id: String, session_id: String },
    /// Send the registry this leave.
    Leave(LeaveRoom),
    /// Send the registry this request to relay a message.
    Broadcast(SendToRoom),
    /// Send the client a text frame.
    Text(String),
    /// Send the client a binary frame.
    Binary(Vec<u8>),
    /// Send the client a ping without payload.
    Ping,
    /// Send the client a pong with this payload.
    Pong(Vec<u8>),
    /// Send the client a close frame.
    Close(Option<CloseReason>),
    /// Terminate the connection, without waiting for the peer.
    Stop,
}

/// The view of a close reason.
pub struct CloseReasonView {
    pub code: u16,
    pub description: Option<Seq<char>>,
}

/// The view of a frame.
pub enum FrameView {
    Text(Seq<char>),
    Binary(Seq<u8>),
    Ping(Seq<u8>),
    Pong(Seq<u8>),
    Close(Option<CloseReasonView>),
    Other,
}

/// The view of an effect.
pub enum EffectView {
    Join { user_id: Seq<char>, session_id: Seq<char> },
    Leave { user_id: Seq<char>, session_id: Seq<char> },
    Broadcast { user_id: Seq<char>, message: Seq<char>, sender_session_id: Seq<char> },
    Text(Seq<char>),
    Binary(Seq<u8>),
    Ping,
    Pong(Seq<u8>),
    Close(Option<CloseReasonView>),
    Stop,
}

impl View for CloseReason {
    type V = CloseReasonView;

    open spec fn view(&self) -> CloseReasonView {
        CloseReasonView {
            code: self.code,
            description: match self.description {
                Some(text) => Some(text@),
                None => None,
            },
        }
    }
}

/// The view of a close reason that may be absent.
pub open spec fn reason_view(reason: Option<CloseReason>) -> Option<CloseReasonView> {
    match reason {
        Some(reason) => Some(reason@),
        None => None,
    }
}

impl View for Frame {
    type V = FrameView;

    open spec fn view(&self) -> FrameView {
        match *self {
            Frame::Text(text) => FrameView::Text(text@),
            Frame::Binary(data) => FrameView::Binary(data@),
            Frame::Ping(data) => FrameView::Ping(data@),
            Frame::Pong(data) => FrameView::Pong(data@),
            Frame::Close(reason) => FrameView::Close(reason_view(reason)),
            Frame::Other => FrameView::Other,
        }
    }
}

impl View for Effect {
    type V = EffectView;

    open spec fn view(&self) -> EffectView {
        match *self {
            Effect::Join { user_id, session_id } => EffectView::Join {
                user_id: user_id@,
                session_id: session_id@,
            },
            Effect::Leave(leave) => EffectView::Leave {
                user_id: leave.user_id@,
                session_id: leave.session_id@,
            },
            Effect::Broadcast(send) => EffectView::Broadcast {
                user_id: send.user_id@,
                message: send.message@,
                sender_session_id: send.sender_session_id@,
            },
            Effect::Text(text) => EffectView::Text(text@),
            Effect::Binary(data) => EffectView::Binary(data@),
            Effect::Ping => EffectView::Ping,
            Effect::Pong(data) => EffectView::Pong(data@),
            Effect::Close(reason) => EffectView::Close(reason_view(reason)),
            Effect::Stop => EffectView::Stop,
        }
    }
}

/// The views of a list of effects, in their order.
pub open spec fn effect_views(effects: Seq<Effect>) -> Seq<EffectView> {
    effects.map_values(|effect: Effect| effect@)
}

/// The view of what a session was handed: a frame, or the news that the
/// transport failed to decode one.
pub open spec fn message_view(msg: Result<Frame, ProtocolError>) -> Result<FrameView, ProtocolError> {
    match msg {
        Ok(frame) => Ok(frame@),
        Err(error) => Err(error),
    }
}

/// The state of a session.
pub struct SessionView {
    /// The room key under which the client is connected.
    pub user_id: Seq<char>,
    /// The id of this session.
    pub session_id: Seq<char>,
    /// The time of the last activity seen from the client.
    pub last_activity: u64,
    pub state: SessionState,
}

/// The outcome of one event: the state that follows and the effects that
/// the driver is to carry out, in this order.
pub struct Step {
    pub next: SessionView,
    pub effects: Seq<EffectView>,
}

/// The same session in another state of its life.
pub open spec fn in_state(s: SessionView, state: SessionState) -> SessionView {
    SessionView {
        user_id: s.user_id,
        session_id: s.session_id,
        last_activity: s.last_activity,
        state,
    }
}

/// The same session with activity seen at `now`.
pub open spec fn refreshed(s: SessionView, now: u64) -> SessionView {
    SessionView {
        user_id: s.user_id,
        session_id: s.session_id,
        last_activity: now,
        state: s.state,
    }
}

/// The session unchanged, and nothing to do.
pub open spec fn ignored(s: SessionView) -> Step {
    Step { next: s, effects: Seq::empty() }
}

/// The text that welcomes a client: the room key, the abbreviated session
/// id and a hint at the commands.
pub open spec fn welcome_text(user_id: Seq<char>, session_id: Seq<char>) -> Seq<char> {
    "🚀 WELCOME: Connected as user "@ + user_id + "\nSession ID: "@ + short_id(session_id)
        + "\n\n📝 Commands: HELP | DEBUG | TEST\n💬 Type any message to broadcast to your room."@
}

/// The form in which a client's text is relayed to the other members of
/// its room.
pub open spec fn room_text(timestamp: Seq<char>, session_id: Seq<char>, text: Seq<char>) -> Seq<
    char,
> {
    "["@ + timestamp + "] "@ + short_id(session_id) + ": "@ + trimmed(text)
}

/// The form in which a client's text is echoed to the client itself.
pub open spec fn echo_text(timestamp: Seq<char>, text: Seq<char>) -> Seq<char> {
    "[You @ "@ + timestamp + "] "@ + trimmed(text)
}

/// The leave that a session issues.
pub open spec fn leave_of(s: SessionView) -> EffectView {
    EffectView::Leave { user_id: s.user_id, session_id: s.session_id }
}

/// The handshake has completed: a connecting session becomes active, asks
/// to be joined to its room and welcomes its client. In any other state
/// the event is ignored.
pub open spec fn started(s: SessionView) -> Step {
    if s.state == SessionState::Connecting {
        Step {
            next: in_state(s, SessionState::Active),
            effects: seq![
                EffectView::Join { user_id: s.user_id, session_id: s.session_id },
                EffectView::Text(welcome_text(s.user_id, s.session_id)),
            ],
        }
    } else {
        ignored(s)
    }
}

/// The heartbeat timer has fired at `now`: an active session that has been
/// silent for the timeout or longer stops; one that is alive pings its
/// peer. In any other state the event is ignored.
pub open spec fn ticked(s: SessionView, now: u64) -> Step {
    if s.state == SessionState::Active {
        if alive_at(s.last_activity, now) {
            Step { next: s, effects: seq![EffectView::Ping] }
        } else {
            Step { next: in_state(s, SessionState::Closing), effects: seq![EffectView::Stop] }
        }
    } else {
        ignored(s)
    }
}

/// The transport has handed `msg` to the session at `now`, and the local
/// time of day reads `timestamp`.
///
/// An active session answers a ping with a pong, echoes a binary frame,
/// relays a text to its room and echoes it to the sender in another form,
/// and counts each of these and a pong as activity. On a close frame it
/// echoes the close and stops; on a protocol error it stops. In any other
/// state the event is ignored.
pub open spec fn received(
    s: SessionView,
    msg: Result<FrameView, ProtocolError>,
    now: u64,
    timestamp: Seq<char>,
) -> Step {
    if s.state == SessionState::Active {
        match msg {
            Ok(FrameView::Ping(payload)) => Step {
                next: refreshed(s, now),
                effects: seq![EffectView::Pong(payload)],
            },
            Ok(FrameView::Pong(_)) => Step { next: refreshed(s, now), effects: Seq::empty() },
            Ok(FrameView::Text(text)) => Step {
                next: refreshed(s, now),
                effects: seq![
                    EffectView::Broadcast {
                        user_id: s.user_id,
                        message: room_text(timestamp, s.session_id, text),
                        sender_session_id: s.session_id,
                    },
                    EffectView::Text(echo_text(timestamp, text)),
                ],
            },
            Ok(FrameView::Binary(data)) => Step {
                next: refreshed(s, now),
                effects: seq![EffectView::Binary(data)],
            },
            Ok(FrameView::Close(reason)) => Step {
                next: in_state(s, SessionState::Closing),
                effects: seq![EffectView::Close(reason), EffectView::Stop],
            },
            Ok(FrameView::Other) => ignored(s),
            Err(_) => Step {
                next: in_state(s, SessionState::Closing),
                effects: seq![EffectView::Stop],
            },
        }
    } else {
        ignored(s)
    }
}

/// The registry has pushed `text` to the session: an active session
/// forwards it to its client. In any other state it is dropped.
pub open spec fn pushed(s: SessionView, text: Seq<char>) -> Step {
    if s.state == SessionState::Active {
        Step { next: s, effects: seq![EffectView::Text(text)] }
    } else {
        ignored(s)
    }
}

/// The connection is being torn down, whatever the cause: the session
/// issues its leave and is terminated. A terminated session ignores the
/// event, so the leave is issued once.
pub open spec fn stopped(s: SessionView) -> Step {
    if s.state == SessionState::Terminated {
        ignored(s)
    } else {
        Step { next: in_state(s, SessionState::Terminated), effects: seq![leave_of(s)] }
    }
}

/// `next` and `effects` are what `step` says.
pub open spec fn step_taken(step: Step, next: SessionView, effects: Seq<Effect>) -> bool {
    &&& step.next == next
    &&& step.effects == effect_views(effects)
}

/// One connected client under one room key.
pub struct MyWs {
    user_id: String,
    session_id: String,
    heartbeat: Heartbeat,
    state: SessionState,
}

impl View for MyWs {
    type V = SessionView;

    closed spec fn view(&self) -> SessionView {
        SessionView {
            user_id: self.user_id@,
            session_id: self.session_id@,
            last_activity: self.heartbeat@,
            state: self.state,
        }
    }
}

fn concat3(a: &str, b: &str, c: &str) -> (text: String)
    ensures
        text@ == a@ + b@ + c@,
{
    let mut text = a.to_owned();
    text.append(b);
    text.append(c);
    text
}

impl MyWs {
    /// A session for a client connected under `user_id` at `now`, with a
    /// fresh session id.
    pub fn new(user_id: String, now: u64) -> (session: Self)
        ensures
            session@.user_id == user_id@,
            is_hyphenated_uuid(session@.session_id),
            session@.last_activity == now,
            session@.state == SessionState::Connecting,
    {
        Self::with_session_id(user_id, fresh_session_id(), now)
    }

    /// A session for a client connected under `user_id` at `now`, with the
    /// session id that the caller has chosen.
    pub fn with_session_id(user_id: String, session_id: String, now: u64) -> (session: Self)
        ensures
            session@ == (SessionView {
                user_id: user_id@,
                session_id: session_id@,
                last_activity: now,
                state: SessionState::Connecting,
            }),
    {
        MyWs { user_id, session_id, heartbeat: Heartbeat::new(now), state: SessionState::Connecting }
    }

    /// The room key under which the client is connected.
    pub fn user_id(&self) -> (user_id: &str)
        ensures
            user_id@ == self@.user_id,
    {
        self.user_id.as_str()
    }

    /// The id of this session.
    pub fn session_id(&self) -> (session_id: &str)
        ensures
            session_id@ == self@.session_id,
    {
        self.session_id.as_str()
    }

    /// Where the session is in its life.
    pub fn state(&self) -> (state: SessionState)
        ensures
            state == self@.state,
    {
        self.state
    }

    /// The time of the last activity seen from the client.
    pub fn last_activity(&self) -> (last: u64)
        ensures
            last == self@.last_activity,
    {
        self.heartbeat.last_heartbeat()
    }

    /// Whether the session counts as alive at `now`.
    pub fn is_alive(&self, now: u64) -> (alive: bool)
        ensures
            alive == alive_at(self@.last_activity, now),
    {
        self.heartbeat.is_alive(now)
    }

    /// The join for this session and the welcome for its client.
    fn join_room(&self) -> (effects: Vec<Effect>)
        ensures
            effect_views(effects@) == seq![
                EffectView::Join { user_id: self@.user_id, session_id: self@.session_id },
                EffectView::Text(welcome_text(self@.user_id, self@.session_id)),
            ],
    {
        let mut welcome = concat3(
            "🚀 WELCOME: Connected as user ",
            self.user_id.as_str(),
            "\nSession ID: ",
        );
        welcome.append(abbreviate(self.session_id.as_str()));
        welcome.append(
            "\n\n📝 Commands: HELP | DEBUG | TEST\n💬 Type any message to broadcast to your room.",
        );
        let mut effects: Vec<Effect> = Vec::new();
        effects.push(
            Effect::Join { user_id: self.user_id.clone(), session_id: self.session_id.clone() },
        );
        effects.push(Effect::Text(welcome));
        assert(effect_views(effects@) =~= seq![
            EffectView::Join { user_id: self@.user_id, session_id: self@.session_id },
            EffectView::Text(welcome_text(self@.user_id, self@.session_id)),
        ]);
        effects
    }

    /// The leave for this session.
    fn leave_room(&self) -> (effect: Effect)
        ensures
            effect@ == leave_of(self@),
    {
        Effect::Leave(
            LeaveRoom { user_id: self.user_id.clone(), session_id: self.session_id.clone() },
        )
    }

    /// The request to relay `message` to the room, in this session's name.
    fn send_to_room(&self, message: String) -> (effect: Effect)
        ensures
            effect@ == (EffectView::Broadcast {
                user_id: self@.user_id,
                message: message@,
                sender_session_id: self@.session_id,
            }),
    {
        Effect::Broadcast(
            SendToRoom {
                user_id: self.user_id.clone(),
                message,
                sender_session_id: self.session_id.clone(),
            },
        )
    }

    /// The handshake has completed.
    pub fn started(&mut self) -> (effects: Vec<Effect>)
        ensures
            step_taken(started(old(self)@), final(self)@, effects@),
    {
        match self.state {
            SessionState::Connecting => {
                let effects = self.join_room();
                self.state = SessionState::Active;
                effects
            },
            _ => {
                let effects: Vec<Effect> = Vec::new();
                assert(effect_views(effects@) =~= Seq::empty());
                effects
            },
        }
    }

    /// The heartbeat timer has fired at `now`.
    pub fn heartbeat_tick(&mut self, now: u64) -> (effects: Vec<Effect>)
        ensures
            step_taken(ticked(old(self)@, now), final(self)@, effects@),
    {
        let mut effects: Vec<Effect> = Vec::new();
        match self.state {
            SessionState::Active => {
                if self.heartbeat.is_alive(now) {
                    effects.push(Effect::Ping);
                    assert(effect_views(effects@) =~= seq![EffectView::Ping]);
                } else {
                    self.state = SessionState::Closing;
                    effects.push(Effect::Stop);
                    assert(effect_views(effects@) =~= seq![EffectView::Stop]);
                }
            },
            _ => {
                assert(effect_views(effects@) =~= Seq::empty());
            },
        }
        effects
    }

    /// The transport has handed `msg` to the session at `now`. A text is
    /// stamped with the local time of day as the clock reads it during the
    /// call; for anything else the clock is not read.
    pub fn handle(&mut self, msg: Result<Frame, ProtocolError>, now: u64) -> (effects: Vec<Effect>)
        ensures
            exists|timestamp: Seq<char>|
                (msg matches Ok(Frame::Text(_)) ==> is_clock_time(timestamp)) && #[trigger] step_taken(
                    received(old(self)@, message_view(msg), now, timestamp),
                    final(self)@,
                    effects@,
                ),
    {
        match msg {
            Ok(Frame::Text(_)) => {
                let timestamp = local_clock_time();
                self.handle_at(msg, now, timestamp.as_str())
            },
            _ => self.handle_at(msg, now, ""),
        }
    }

    /// The transport has handed `msg` to the session at `now`, and the
    /// local time of day reads `timestamp`.
    pub fn handle_at(&mut self, msg: Result<Frame, ProtocolError>, now: u64, timestamp: &str) -> (effects:
        Vec<Effect>)
        ensures
            step_taken(
                received(old(self)@, message_view(msg), now, timestamp@),
                final(self)@,
                effects@,
            ),
    {
        let mut effects: Vec<Effect> = Vec::new();
        match self.state {
            SessionState::Active => {},
            _ => {
                assert(effect_views(effects@) =~= Seq::empty());
                return effects;
            },
        }
        match msg {
            Ok(Frame::Ping(payload)) => {
                self.heartbeat.heartbeat(now);
                effects.push(Effect::Pong(payload));
                assert(effect_views(effects@) =~= seq![EffectView::Pong(payload@)]);
            },
            Ok(Frame::Pong(_)) => {
                self.heartbeat.heartbeat(now);
                assert(effect_views(effects@) =~= Seq::empty());
            },
            Ok(Frame::Text(text)) => {
                self.heartbeat.heartbeat(now);
                let message = trim(text.as_str());
                let mut room_msg = concat3("[", timestamp, "] ");
                room_msg.append(abbreviate(self.session_id.as_str()));
                room_msg.append(": ");
                room_msg.append(message);
                let mut my_msg = concat3("[You @ ", timestamp, "] ");
                my_msg.append(message);
                effects.push(self.send_to_room(room_msg));
                effects.push(Effect::Text(my_msg));
                assert(effect_views(effects@) =~= seq![
                    EffectView::Broadcast {
                        user_id: self@.user_id,
                        message: room_text(timestamp@, self@.session_id, text@),
                        sender_session_id: self@.session_id,
                    },
                    EffectView::Text(echo_text(timestamp@, text@)),
                ]);
            },
            Ok(Frame::Binary(data)) => {
                self.heartbeat.heartbeat(now);
                effects.push(Effect::Binary(data));
                assert(effect_views(effects@) =~= seq![EffectView::Binary(data@)]);
            },
            Ok(Frame::Close(reason)) => {
                self.state = SessionState::Closing;
                effects.push(Effect::Close(reason));
                effects.push(Effect::Stop);
                assert(effect_views(effects@) =~= seq![
                    EffectView::Close(reason_view(reason)),
                    EffectView::Stop,
                ]);
            },
            Ok(Frame::Other) => {
                assert(effect_views(effects@) =~= Seq::empty());
            },
            Err(_) => {
                self.state = SessionState::Closing;
                effects.push(Effect::Stop);
                assert(effect_views(effects@) =~= seq![EffectView::Stop]);
            },
        }
        effects
    }

    /// The registry has pushed `message` to the session.
    pub fn deliver(&self, message: ClientMessage) -> (effects: Vec<Effect>)
        ensures
            step_taken(pushed(self@, message.0@), self@, effects@),
    {
        let mut effects: Vec<Effect> = Vec::new();
        match self.state {
            SessionState::Active => {
                effects.push(Effect::Text(message.0));
                assert(effect_views(effects@) =~= seq![EffectView::Text(message.0@)]);
            },
            _ => {
                assert(effect_views(effects@) =~= Seq::empty());
            },
        }
        effects
    }

    /// The connection is being torn down.
    pub fn stopping(&mut self) -> (effects: Vec<Effect>)
        ensures
            step_taken(stopped(old(self)@), final(self)@, effects@),
    {
        let mut effects: Vec<Effect> = Vec::new();
        match self.state {
            SessionState::Terminated => {
                assert(effect_views(effects@) =~= Seq::empty());
            },
            _ => {
                effects.push(self.leave_room());
                self.state = SessionState::Terminated;
                assert(effect_views(effects@) =~= seq![leave_of(old(self)@)]);
            },
        }
        effects
    }
}

} // verus!

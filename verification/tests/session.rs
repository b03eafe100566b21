use room_hub::messages::{ClientMessage, LeaveRoom, SendToRoom};
use room_hub::registry::RoomManager;
use room_hub::session::{CloseReason, Effect, Frame, MyWs, ProtocolError, SessionState};
use std::rc::{Rc, Weak};

const SESSION_A: &str = "aaaaaaaa-1111-4111-8111-111111111111";
const SESSION_B: &str = "bbbbbbbb-2222-4222-8222-222222222222";

fn active(user_id: &str, session_id: &str, now: u64) -> MyWs {
    let mut session = MyWs::with_session_id(user_id.to_string(), session_id.to_string(), now);
    session.started();
    session
}

fn leave(user_id: &str, session_id: &str) -> Effect {
    Effect::Leave(LeaveRoom { user_id: user_id.to_string(), session_id: session_id.to_string() })
}

fn is_clock_time(text: &str) -> bool {
    let bytes = text.as_bytes();
    bytes.len() == 8
        && bytes.iter().enumerate().all(|(i, b)| {
            if i == 2 || i == 5 {
                *b == b':'
            } else {
                b.is_ascii_digit()
            }
        })
}

#[test]
fn new_session_has_a_fresh_uuid() {
    let session = MyWs::new("u1".to_string(), 42);
    let other = MyWs::new("u1".to_string(), 42);
    assert_eq!(session.user_id(), "u1");
    assert_eq!(session.state(), SessionState::Connecting);
    assert_eq!(session.last_activity(), 42);
    let id = session.session_id();
    assert_eq!(id.len(), 36);
    for (i, c) in id.chars().enumerate() {
        if i == 8 || i == 13 || i == 18 || i == 23 {
            assert_eq!(c, '-');
        } else {
            assert!(c.is_ascii_digit() || ('a'..='f').contains(&c));
        }
    }
    assert_ne!(session.session_id(), other.session_id());
}

#[test]
fn started_joins_and_welcomes() {
    let mut session = MyWs::with_session_id("u1".to_string(), SESSION_A.to_string(), 0);
    let effects = session.started();
    assert_eq!(
        effects,
        vec![
            Effect::Join { user_id: "u1".to_string(), session_id: SESSION_A.to_string() },
            Effect::Text(
                "🚀 WELCOME: Connected as user u1\nSession ID: aaaaaaaa\n\n📝 Commands: HELP | \
                 DEBUG | TEST\n💬 Type any message to broadcast to your room."
                    .to_string()
            ),
        ]
    );
    assert_eq!(session.state(), SessionState::Active);
    assert!(session.started().is_empty());
    assert_eq!(session.state(), SessionState::Active);
}

#[test]
fn text_is_relayed_and_echoed() {
    let mut session = active("u1", SESSION_A, 0);
    let effects = session.handle_at(Ok(Frame::Text("  hi \n".to_string())), 1_000, "12:34:56");
    assert_eq!(
        effects,
        vec![
            Effect::Broadcast(SendToRoom {
                user_id: "u1".to_string(),
                message: "[12:34:56] aaaaaaaa: hi".to_string(),
                sender_session_id: SESSION_A.to_string(),
            }),
            Effect::Text("[You @ 12:34:56] hi".to_string()),
        ]
    );
    assert_eq!(session.last_activity(), 1_000);
}

#[test]
fn text_is_stamped_with_the_time_of_day() {
    let mut session = active("u1", SESSION_A, 0);
    let effects = session.handle(Ok(Frame::Text("hi".to_string())), 1_000);
    assert_eq!(effects.len(), 2);
    match &effects[1] {
        Effect::Text(echo) => {
            assert!(echo.starts_with("[You @ "));
            assert!(echo.ends_with("] hi"));
            assert_eq!(echo.len(), "[You @ ".len() + 8 + "] hi".len());
            assert!(is_clock_time(&echo["[You @ ".len().."[You @ ".len() + 8]));
        }
        other => panic!("unexpected effect {:?}", other),
    }
    match &effects[0] {
        Effect::Broadcast(send) => {
            assert_eq!(send.user_id, "u1");
            assert_eq!(send.sender_session_id, SESSION_A);
            assert!(send.message.starts_with("["));
            assert!(send.message.ends_with("] aaaaaaaa: hi"));
            assert!(is_clock_time(&send.message[1..9]));
        }
        other => panic!("unexpected effect {:?}", other),
    }
}

#[test]
fn short_session_id_is_shown_whole() {
    let mut session = active("u1", "abc", 0);
    let effects = session.handle_at(Ok(Frame::Text("x".to_string())), 1, "00:00:00");
    assert_eq!(
        effects[0],
        Effect::Broadcast(SendToRoom {
            user_id: "u1".to_string(),
            message: "[00:00:00] abc: x".to_string(),
            sender_session_id: "abc".to_string(),
        })
    );
}

#[test]
fn ping_is_answered_with_pong() {
    let mut session = active("u1", SESSION_A, 0);
    let effects = session.handle_at(Ok(Frame::Ping(vec![1, 2, 3])), 7_000, "00:00:00");
    assert_eq!(effects, vec![Effect::Pong(vec![1, 2, 3])]);
    assert_eq!(session.last_activity(), 7_000);
}

#[test]
fn pong_only_refreshes() {
    let mut session = active("u1", SESSION_A, 0);
    let effects = session.handle_at(Ok(Frame::Pong(vec![9])), 8_000, "00:00:00");
    assert!(effects.is_empty());
    assert_eq!(session.last_activity(), 8_000);
    assert_eq!(session.state(), SessionState::Active);
}

#[test]
fn binary_is_echoed_unmodified() {
    let mut session = active("u1", SESSION_A, 0);
    let effects = session.handle_at(Ok(Frame::Binary(vec![0, 255, 7])), 9_000, "00:00:00");
    assert_eq!(effects, vec![Effect::Binary(vec![0, 255, 7])]);
    assert_eq!(session.last_activity(), 9_000);
}

#[test]
fn close_is_echoed_and_stops() {
    let mut session = active("u1", SESSION_A, 0);
    let reason = Some(CloseReason { code: 1000, description: Some("bye".to_string()) });
    let effects = session.handle_at(Ok(Frame::Close(reason.clone())), 9_000, "00:00:00");
    assert_eq!(effects, vec![Effect::Close(reason), Effect::Stop]);
    assert_eq!(session.state(), SessionState::Closing);
    assert_eq!(session.last_activity(), 0);
    assert_eq!(session.stopping(), vec![leave("u1", SESSION_A)]);
    assert_eq!(session.state(), SessionState::Terminated);
}

#[test]
fn other_frames_are_ignored() {
    let mut session = active("u1", SESSION_A, 0);
    assert!(session.handle_at(Ok(Frame::Other), 9_000, "00:00:00").is_empty());
    assert_eq!(session.last_activity(), 0);
    assert_eq!(session.state(), SessionState::Active);
}

#[test]
fn protocol_error_goes_straight_to_teardown() {
    let mut session = active("u1", SESSION_A, 0);
    let effects = session.handle_at(Err(ProtocolError), 9_000, "00:00:00");
    assert_eq!(effects, vec![Effect::Stop]);
    assert_eq!(session.state(), SessionState::Closing);
    assert_eq!(session.stopping(), vec![leave("u1", SESSION_A)]);
}

#[test]
fn heartbeat_pings_a_live_session() {
    let mut session = active("u1", SESSION_A, 0);
    assert_eq!(session.heartbeat_tick(5_000), vec![Effect::Ping]);
    assert_eq!(session.heartbeat_tick(29_999), vec![Effect::Ping]);
    assert_eq!(session.state(), SessionState::Active);
    assert_eq!(session.last_activity(), 0);
}

#[test]
fn silent_session_terminates_and_leaves_once() {
    let mut session = active("u1", SESSION_A, 0);
    assert!(session.is_alive(29_999));
    assert!(!session.is_alive(30_000));
    assert_eq!(session.heartbeat_tick(30_000), vec![Effect::Stop]);
    assert_eq!(session.state(), SessionState::Closing);
    assert!(session.heartbeat_tick(35_000).is_empty());
    assert!(session.handle_at(Ok(Frame::Text("late".to_string())), 36_000, "00:00:00").is_empty());
    assert_eq!(session.stopping(), vec![leave("u1", SESSION_A)]);
    assert_eq!(session.state(), SessionState::Terminated);
    assert!(session.stopping().is_empty());
    assert!(session.heartbeat_tick(40_000).is_empty());
    assert!(session.started().is_empty());
    assert_eq!(session.state(), SessionState::Terminated);
}

#[test]
fn activity_defers_the_timeout() {
    let mut session = active("u1", SESSION_A, 0);
    session.handle_at(Ok(Frame::Pong(Vec::new())), 25_000, "00:00:00");
    assert_eq!(session.heartbeat_tick(30_000), vec![Effect::Ping]);
    assert_eq!(session.heartbeat_tick(54_999), vec![Effect::Ping]);
    assert_eq!(session.heartbeat_tick(55_000), vec![Effect::Stop]);
}

#[test]
fn events_before_the_handshake_are_ignored() {
    let mut session = MyWs::with_session_id("u1".to_string(), SESSION_A.to_string(), 0);
    assert!(session.heartbeat_tick(60_000).is_empty());
    assert!(session.handle_at(Ok(Frame::Text("early".to_string())), 1, "00:00:00").is_empty());
    assert!(session.deliver(ClientMessage("x".to_string())).is_empty());
    assert_eq!(session.state(), SessionState::Connecting);
    assert_eq!(session.stopping(), vec![leave("u1", SESSION_A)]);
    assert_eq!(session.state(), SessionState::Terminated);
}

#[test]
fn pushed_text_is_forwarded_to_the_client() {
    let session = active("u1", SESSION_A, 0);
    assert_eq!(
        session.deliver(ClientMessage("[SYSTEM] hello".to_string())),
        vec![Effect::Text("[SYSTEM] hello".to_string())]
    );
}

fn live(handle: &Weak<()>) -> bool {
    handle.upgrade().is_some()
}

#[test]
fn two_sessions_share_a_room() {
    let conn_a = Rc::new(());
    let conn_b = Rc::new(());
    let mut manager: RoomManager<Weak<()>> = RoomManager::new();
    let mut a = MyWs::with_session_id("u1".to_string(), SESSION_A.to_string(), 0);
    let mut b = MyWs::with_session_id("u1".to_string(), SESSION_B.to_string(), 0);

    for (session, conn) in [(&mut a, &conn_a), (&mut b, &conn_b)] {
        let effects = session.started();
        match &effects[0] {
            Effect::Join { user_id, session_id } => {
                manager.join_room(user_id, session_id.clone(), Rc::downgrade(conn), &live);
            }
            other => panic!("unexpected effect {:?}", other),
        }
    }
    assert_eq!(manager.get_room_user_count("u1", &live), 2);

    let effects = a.handle_at(Ok(Frame::Text("hi".to_string())), 1_000, "10:20:30");
    assert_eq!(effects[1], Effect::Text("[You @ 10:20:30] hi".to_string()));
    let deliveries = match &effects[0] {
        Effect::Broadcast(send) => manager.broadcast_to_room_excluding(
            &send.user_id,
            send.message.clone(),
            Some(&send.sender_session_id),
            &live,
        ),
        other => panic!("unexpected effect {:?}", other),
    };
    assert_eq!(deliveries.len(), 1);
    assert_eq!(deliveries[0].session_id, SESSION_B);
    assert_eq!(
        b.deliver(deliveries[0].message.clone()),
        vec![Effect::Text("[10:20:30] aaaaaaaa: hi".to_string())]
    );

    let deliveries = match &b.stopping()[0] {
        Effect::Leave(leave) => manager.leave_room(&leave.user_id, &leave.session_id),
        other => panic!("unexpected effect {:?}", other),
    };
    assert_eq!(manager.get_room_user_count("u1", &live), 1);
    assert_eq!(deliveries.len(), 1);
    assert_eq!(deliveries[0].session_id, SESSION_A);
    assert_eq!(
        a.deliver(deliveries[0].message.clone()),
        vec![Effect::Text("[SYSTEM] User left. Remaining users: 1".to_string())]
    );

    match &a.stopping()[0] {
        Effect::Leave(leave) => {
            assert!(manager.leave_room(&leave.user_id, &leave.session_id).is_empty());
        }
        other => panic!("unexpected effect {:?}", other),
    }
    assert!(manager.debug_rooms(&live).iter().all(|room| room.user_id != "u1"));
    assert!(manager.debug_rooms(&live).is_empty());
}

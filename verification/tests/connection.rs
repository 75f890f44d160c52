use chat_hub::clock::unix_now;
use chat_hub::connection::{
    gen_random_user_id, render_all, ConnectionError, ConnectionState, Event, Frame, Outbound, Phase,
};
use chat_hub::message::ChatMessage;
use chat_hub::room::Room;

const NOON: i64 = 12 * 3600;

fn text(line: &str) -> Outbound {
    Outbound::Text(String::from(line))
}

fn drain(room: &mut Room, conn: &mut ConnectionState, now_ms: u64) -> Vec<Outbound> {
    let mut out = Vec::new();
    let id = conn.subscription.unwrap();
    while let Some(msg) = room.hub.recv(id) {
        out.extend(conn.step(Event::Delivery(msg), now_ms, NOON, room).unwrap());
    }
    out
}

#[test]
fn random_ids_have_four_digits() {
    for _ in 0..2000 {
        let id = gen_random_user_id();
        assert!((1000..10000).contains(&id));
    }
}

#[test]
fn random_ids_vary() {
    let first = gen_random_user_id();
    let mut differs = false;
    for _ in 0..200 {
        if gen_random_user_id() != first {
            differs = true;
        }
    }
    assert!(differs);
}

#[test]
fn accepted_connection_is_joining() {
    let conn = ConnectionState::accept(77);
    assert!((1000..10000).contains(&conn.connection_id));
    assert_eq!(conn.last_heartbeat_at, 77);
    assert_eq!(conn.phase, Phase::Joining);
    assert_eq!(conn.subscription, None);
    assert_eq!(conn, ConnectionState::new(conn.connection_id, 77));
}

#[test]
fn join_replays_history_then_join_notice() {
    let mut room = Room::with_capacity(8);
    room.post(ChatMessage::new(NOON, 1111, String::from("one")));
    room.post(ChatMessage::new(NOON + 1, 2222, String::from("two")));
    room.post(ChatMessage::new(NOON + 2, 1111, String::from("three")));
    let mut conn = ConnectionState::new(3333, 0);
    let replay = conn.join(&mut room, NOON + 3).unwrap();
    assert_eq!(
        replay,
        vec![
            text("[user_id:1111 12:00:00]: one"),
            text("[user_id:2222 12:00:01]: two"),
            text("[user_id:1111 12:00:02]: three"),
        ]
    );
    assert_eq!(conn.phase, Phase::Active);
    assert_eq!(conn.subscription, Some(0));
    assert_eq!(room.history.len(), 4);
    room.post(ChatMessage::new(NOON + 4, 2222, String::from("four")));
    let delivered = drain(&mut room, &mut conn, 0);
    assert_eq!(
        delivered,
        vec![
            text("[user_id:3333 12:00:03]: joined in the room"),
            text("[user_id:2222 12:00:04]: four"),
        ]
    );
}

#[test]
fn join_twice_is_refused() {
    let mut room = Room::with_capacity(8);
    let mut conn = ConnectionState::new(3333, 0);
    assert_eq!(conn.join(&mut room, NOON), Ok(vec![]));
    let before = conn;
    assert_eq!(conn.join(&mut room, NOON), Err(ConnectionError::NotJoining));
    assert_eq!(conn, before);
    assert_eq!(room.history.len(), 1);
    assert_eq!(room.hub.subscriptions(), 1);
}

#[test]
fn observer_sees_join_message_leave_in_order() {
    let mut room = Room::new();
    let mut observer = ConnectionState::new(1000, 0);
    observer.join(&mut room, NOON).unwrap();
    drain(&mut room, &mut observer, 0);

    let mut guest = ConnectionState::new(4821, 0);
    assert_eq!(guest.join(&mut room, NOON + 1).unwrap().len(), 1);
    let sent = guest.step(Event::Frame(Frame::Text(String::from("hi"))), 10, NOON + 2, &mut room);
    assert_eq!(sent, Ok(vec![]));
    let own = guest.step(Event::Frame(Frame::Close), 20, NOON + 3, &mut room);
    assert_eq!(own, Ok(vec![text("[user_id:4821 12:00:03]: left the room")]));
    assert_eq!(guest.phase, Phase::Closed);
    assert_eq!(guest.subscription, None);

    let seen = drain(&mut room, &mut observer, 30);
    assert_eq!(
        seen,
        vec![
            text("[user_id:4821 12:00:01]: joined in the room"),
            text("[user_id:4821 12:00:02]: hi"),
            text("[user_id:4821 12:00:03]: left the room"),
        ]
    );
    assert_eq!(room.history.len(), 4);
    assert!(!room.hub.is_open(1));
    assert_eq!(room.hub.pending_len(1), 0);
}

#[test]
fn sender_gets_its_own_message_back() {
    let mut room = Room::new();
    let mut a = ConnectionState::new(1001, 0);
    let mut b = ConnectionState::new(1002, 0);
    a.join(&mut room, NOON).unwrap();
    b.join(&mut room, NOON).unwrap();
    drain(&mut room, &mut a, 0);
    drain(&mut room, &mut b, 0);
    a.step(Event::Frame(Frame::Text(String::from("both"))), 0, NOON + 5, &mut room).unwrap();
    assert_eq!(drain(&mut room, &mut a, 0), vec![text("[user_id:1001 12:00:05]: both")]);
    assert_eq!(drain(&mut room, &mut b, 0), vec![text("[user_id:1001 12:00:05]: both")]);
}

#[test]
fn ping_is_answered_and_leaves_the_heartbeat() {
    let mut room = Room::new();
    let mut conn = ConnectionState::new(1001, 5);
    conn.join(&mut room, NOON).unwrap();
    let out = conn.step(Event::Frame(Frame::Ping), 9000, NOON, &mut room);
    assert_eq!(out, Ok(vec![Outbound::Pong]));
    assert_eq!(conn.last_heartbeat_at, 5);
    assert_eq!(conn.phase, Phase::Active);
    assert_eq!(room.history.len(), 1);
}

#[test]
fn pong_resets_the_heartbeat() {
    let mut room = Room::new();
    let mut conn = ConnectionState::new(1001, 5);
    conn.join(&mut room, NOON).unwrap();
    let out = conn.step(Event::Frame(Frame::Pong), 9000, NOON, &mut room);
    assert_eq!(out, Ok(vec![]));
    assert_eq!(conn.last_heartbeat_at, 9000);
    assert_eq!(conn.step(Event::Tick, 24_000, NOON, &mut room), Ok(vec![Outbound::Ping]));
    assert_eq!(conn.phase, Phase::Active);
    assert_eq!(conn.last_heartbeat_at, 9000);
    let out = conn.step(Event::Tick, 24_001, NOON, &mut room);
    assert_eq!(out, Ok(vec![text("[user_id:1001 12:00:00]: left the room")]));
    assert_eq!(conn.phase, Phase::Closed);
}

#[test]
fn silent_connection_is_closed_with_one_notice() {
    let mut room = Room::new();
    let mut observer = ConnectionState::new(1000, 0);
    observer.join(&mut room, NOON).unwrap();
    let mut conn = ConnectionState::new(2000, 0);
    conn.join(&mut room, NOON).unwrap();
    drain(&mut room, &mut observer, 0);
    let mut now = 1000;
    while now < 16_000 {
        assert_eq!(conn.step(Event::Tick, now, NOON, &mut room), Ok(vec![Outbound::Ping]));
        now += 1000;
    }
    let out = conn.step(Event::Tick, 16_000, NOON + 16, &mut room);
    assert_eq!(out, Ok(vec![text("[user_id:2000 12:00:16]: left the room")]));
    assert_eq!(conn.phase, Phase::Closed);
    assert_eq!(conn.step(Event::Tick, 17_000, NOON + 17, &mut room), Err(ConnectionError::NotActive));
    assert_eq!(
        drain(&mut room, &mut observer, 0),
        vec![text("[user_id:2000 12:00:16]: left the room")]
    );
    assert_eq!(room.history.len(), 3);
}

#[test]
fn stream_end_leaves_like_a_close_frame() {
    let mut room = Room::new();
    let mut conn = ConnectionState::new(2000, 0);
    conn.join(&mut room, NOON).unwrap();
    let out = conn.step(Event::StreamEnd, 0, NOON + 1, &mut room);
    assert_eq!(out, Ok(vec![text("[user_id:2000 12:00:01]: left the room")]));
    assert_eq!(conn.phase, Phase::Closed);
    assert!(!room.hub.is_open(0));
    assert_eq!(room.history.len(), 2);
}

#[test]
fn binary_frame_closes_the_connection_only() {
    let mut room = Room::new();
    let mut other = ConnectionState::new(1000, 0);
    other.join(&mut room, NOON).unwrap();
    let mut conn = ConnectionState::new(2000, 0);
    conn.join(&mut room, NOON).unwrap();
    drain(&mut room, &mut other, 0);
    let out = conn.step(Event::Frame(Frame::Binary), 0, NOON, &mut room);
    assert_eq!(out, Err(ConnectionError::UnsupportedBinary));
    assert_eq!(conn.phase, Phase::Closed);
    assert_eq!(conn.subscription, None);
    assert!(!room.hub.is_open(1));
    assert_eq!(room.history.len(), 2);
    // The other connection goes on.
    other.step(Event::Frame(Frame::Text(String::from("still here"))), 0, NOON + 1, &mut room).unwrap();
    assert_eq!(
        drain(&mut room, &mut other, 0),
        vec![text("[user_id:1000 12:00:01]: still here")]
    );
}

#[test]
fn transport_failure_closes_without_notice() {
    let mut room = Room::with_capacity(2);
    let mut stalled = ConnectionState::new(1000, 0);
    stalled.join(&mut room, NOON).unwrap();
    let mut other = ConnectionState::new(2000, 0);
    other.join(&mut room, NOON).unwrap();
    drain(&mut room, &mut other, 0);
    // The stalled one never reads; the other still gets every message.
    for n in 0..5 {
        other.step(Event::Frame(Frame::Text(format!("n{}", n))), 0, NOON, &mut room).unwrap();
        assert_eq!(
            drain(&mut room, &mut other, 0),
            vec![Outbound::Text(format!("[user_id:2000 12:00:00]: n{}", n))]
        );
    }
    assert_eq!(room.hub.pending_len(0), 2);
    let out = stalled.step(Event::TransportError, 0, NOON, &mut room);
    assert_eq!(out, Err(ConnectionError::TransportFailure));
    assert_eq!(stalled.phase, Phase::Closed);
    assert_eq!(room.history.len(), 7);
    other.step(Event::Frame(Frame::Text(String::from("after"))), 0, NOON, &mut room).unwrap();
    assert_eq!(drain(&mut room, &mut other, 0), vec![text("[user_id:2000 12:00:00]: after")]);
}

#[test]
fn transport_failure_while_joining() {
    let mut room = Room::new();
    let mut conn = ConnectionState::new(2000, 0);
    let out = conn.step(Event::TransportError, 0, NOON, &mut room);
    assert_eq!(out, Err(ConnectionError::TransportFailure));
    assert_eq!(conn.phase, Phase::Closed);
    assert_eq!(room.history.len(), 0);
}

#[test]
fn events_before_joining_are_refused() {
    let mut room = Room::new();
    let mut conn = ConnectionState::new(2000, 0);
    let events = vec![
        Event::Frame(Frame::Text(String::from("early"))),
        Event::Frame(Frame::Ping),
        Event::Frame(Frame::Pong),
        Event::Frame(Frame::Close),
        Event::Frame(Frame::Binary),
        Event::StreamEnd,
        Event::Delivery(ChatMessage::new(0, 1, String::from("x"))),
        Event::Tick,
    ];
    for event in events {
        assert_eq!(conn.step(event, 99, NOON, &mut room), Err(ConnectionError::NotActive));
        assert_eq!(conn, ConnectionState::new(2000, 0));
    }
    assert_eq!(room.history.len(), 0);
    assert_eq!(room.hub.subscriptions(), 0);
}

#[test]
fn leave_and_abort_called_directly() {
    let mut room = Room::new();
    let mut conn = ConnectionState::new(2000, 0);
    conn.join(&mut room, NOON).unwrap();
    assert_eq!(conn.leave(&mut room, NOON + 9), vec![text("[user_id:2000 12:00:09]: left the room")]);
    assert_eq!(conn.phase, Phase::Closed);
    let mut second = ConnectionState::new(3000, 0);
    second.join(&mut room, NOON).unwrap();
    second.abort(&mut room);
    assert_eq!(second.phase, Phase::Closed);
    assert_eq!(second.subscription, None);
    assert!(!room.hub.is_open(0));
    assert_eq!(room.hub.subscriptions(), 1);
    assert_eq!(room.history.len(), 3);
}

#[test]
fn leave_is_done_once() {
    let mut room = Room::new();
    let mut observer = ConnectionState::new(1000, 0);
    observer.join(&mut room, NOON).unwrap();
    let mut conn = ConnectionState::new(2000, 0);
    conn.join(&mut room, NOON).unwrap();
    observer.deliver_pending(&mut room);
    assert_eq!(conn.leave(&mut room, NOON + 1).len(), 1);
    let closed = conn;
    assert_eq!(conn.leave(&mut room, NOON + 2), vec![]);
    assert_eq!(conn, closed);
    assert_eq!(room.history.len(), 3);
    assert_eq!(
        observer.deliver_pending(&mut room),
        vec![text("[user_id:2000 12:00:01]: left the room")]
    );
    // Nor does a connection leave that has not joined.
    let mut early = ConnectionState::new(3000, 0);
    assert_eq!(early.leave(&mut room, NOON + 3), vec![]);
    assert_eq!(early, ConnectionState::new(3000, 0));
    assert_eq!(room.history.len(), 3);
    assert_eq!(observer.deliver_pending(&mut room), vec![]);
}

#[test]
fn tick_between_whole_seconds_closes_past_the_timeout() {
    let mut room = Room::new();
    let mut conn = ConnectionState::new(2000, 0);
    conn.join(&mut room, NOON).unwrap();
    let mut now = 500;
    while now <= 14_500 {
        assert_eq!(conn.step(Event::Tick, now, NOON, &mut room), Ok(vec![Outbound::Ping]));
        now += 1000;
    }
    // A ping from the client is answered and does not count as an acknowledgment.
    assert_eq!(conn.step(Event::Frame(Frame::Ping), 15_000, NOON, &mut room), Ok(vec![Outbound::Pong]));
    let out = conn.step(Event::Tick, 15_500, NOON + 15, &mut room);
    assert_eq!(out, Ok(vec![text("[user_id:2000 12:00:15]: left the room")]));
    assert_eq!(conn.phase, Phase::Closed);
    assert_eq!(room.history.len(), 2);
}

#[test]
fn a_whole_stay_is_posted_in_order() {
    let mut room = Room::new();
    let mut observer = ConnectionState::new(1000, 0);
    observer.join(&mut room, NOON).unwrap();
    observer.deliver_pending(&mut room);
    let mut conn = ConnectionState::new(2000, 0);
    conn.join(&mut room, NOON + 1).unwrap();
    let frames = vec![
        Frame::Text(String::from("a")),
        Frame::Ping,
        Frame::Text(String::from("b")),
        Frame::Pong,
        Frame::Text(String::from("a")),
    ];
    let mut wall = NOON + 2;
    for frame in frames {
        assert!(conn.step(Event::Frame(frame), 0, wall, &mut room).is_ok());
        wall += 1;
    }
    assert_eq!(conn.step(Event::StreamEnd, 0, wall, &mut room).map(|out| out.len()), Ok(1));
    let posted = vec![
        ChatMessage::new(NOON + 1, 2000, String::from("joined in the room")),
        ChatMessage::new(NOON + 2, 2000, String::from("a")),
        ChatMessage::new(NOON + 4, 2000, String::from("b")),
        ChatMessage::new(NOON + 6, 2000, String::from("a")),
        ChatMessage::new(NOON + 7, 2000, String::from("left the room")),
    ];
    assert_eq!(room.history.snapshot()[1..], posted[..]);
    assert_eq!(observer.deliver_pending(&mut room), render_all(&posted));
}

#[test]
fn joining_takes_over_a_free_id() {
    let mut room = Room::new();
    let mut a = ConnectionState::new(1001, 0);
    let mut b = ConnectionState::new(1002, 0);
    a.join(&mut room, NOON).unwrap();
    b.join(&mut room, NOON).unwrap();
    a.leave(&mut room, NOON);
    let mut c = ConnectionState::new(1003, 0);
    c.join(&mut room, NOON + 1).unwrap();
    assert_eq!(c.subscription, Some(0));
    assert_eq!(room.hub.subscriptions(), 2);
    // It starts with its own join notice, not with what the one before left unread.
    assert_eq!(
        c.deliver_pending(&mut room),
        vec![text("[user_id:1003 12:00:01]: joined in the room")]
    );
}

#[test]
fn post_at_uses_the_given_time() {
    let mut room = Room::new();
    let conn = ConnectionState::new(4821, 0);
    conn.post_at(String::from("hello"), 14 * 3600 + 5 * 60 + 9, &mut room);
    let log = room.history.snapshot();
    assert_eq!(log, vec![ChatMessage::new(50709, 4821, String::from("hello"))]);
    assert_eq!(render_all(&log), vec![text("[user_id:4821 14:05:09]: hello")]);
}

#[test]
fn handle_client_msg_stamps_the_message_with_the_clock() {
    let mut room = Room::new();
    let observer = room.hub.subscribe();
    let conn = ConnectionState::new(4821, 0);
    let created_at = conn.handle_client_msg(String::from("now"), &mut room);
    // Later than 2020-01-01 and not the zero that a clock that was never read would give.
    assert!(created_at > 1_577_836_800);
    assert!(unix_now() >= created_at);
    let expected = ChatMessage::new(created_at, 4821, String::from("now"));
    assert_eq!(room.history.snapshot(), vec![expected.clone()]);
    assert_eq!(room.hub.recv(observer), Some(expected));
}

#[test]
fn deliver_pending_empties_the_inbox_in_order() {
    let mut room = Room::new();
    let mut a = ConnectionState::new(1001, 0);
    let mut b = ConnectionState::new(1002, 0);
    a.join(&mut room, NOON).unwrap();
    b.join(&mut room, NOON + 1).unwrap();
    a.post_at(String::from("first"), NOON + 2, &mut room);
    b.post_at(String::from("second"), NOON + 3, &mut room);
    assert_eq!(
        a.deliver_pending(&mut room),
        vec![
            text("[user_id:1001 12:00:00]: joined in the room"),
            text("[user_id:1002 12:00:01]: joined in the room"),
            text("[user_id:1001 12:00:02]: first"),
            text("[user_id:1002 12:00:03]: second"),
        ]
    );
    assert_eq!(a.deliver_pending(&mut room), vec![]);
    assert_eq!(room.hub.pending_len(0), 0);
    assert_eq!(room.hub.pending_len(1), 3);
    assert_eq!(
        b.deliver_pending(&mut room),
        vec![
            text("[user_id:1002 12:00:01]: joined in the room"),
            text("[user_id:1001 12:00:02]: first"),
            text("[user_id:1002 12:00:03]: second"),
        ]
    );
    assert_eq!(room.history.len(), 4);
}

#[test]
fn deliver_pending_outside_the_active_phase_reads_nothing() {
    let mut room = Room::new();
    let watcher = room.hub.subscribe();
    room.post(ChatMessage::new(NOON, 1, String::from("kept")));
    let joining = ConnectionState::new(1001, 0);
    assert_eq!(joining.deliver_pending(&mut room), vec![]);
    let mut closed = ConnectionState::new(1002, 0);
    closed.subscription = Some(watcher);
    closed.phase = Phase::Closed;
    assert_eq!(closed.deliver_pending(&mut room), vec![]);
    assert_eq!(room.hub.pending_len(watcher), 1);
    let mut stray = ConnectionState::new(1003, 0);
    stray.phase = Phase::Active;
    stray.subscription = Some(99);
    assert_eq!(stray.deliver_pending(&mut room), vec![]);
    assert_eq!(room.hub.pending_len(watcher), 1);
}

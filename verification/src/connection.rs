//! One connection's state machine. The caller owns the transport: it hands
//! each event in (a frame from the client, a message from the hub, a tick of
//! the probe, a failure), and writes out the frames that come back.

use vstd::prelude::*;
use crate::clock::unix_now;
use crate::heartbeat::{
    check, silence_is_noticed, timed_out, Liveness, HEARTBEAT_INTERVAL, HEARTBEAT_TIMEOUT,
};
use crate::message::{render_line, views, ChatMessage, MessageView};
use crate::hub::{fan_out_reaches_every_subscriber, subscribing_opens_a_fresh_inbox};
use crate::room::{inbox_collects_in_order, posting_extends_history, Room, RoomView};

verus! {

/// Where a connection stands in its life.
#[derive(Clone, Copy, PartialEq, Eq, Structural, Debug)]
pub enum Phase {
    Joining,
    Active,
    Closing,
    Closed,
}

/// Why a connection did not take an event.
#[derive(Clone, Copy, PartialEq, Eq, Structural, Debug)]
pub enum ConnectionError {
    /// The connection has joined already, or is closed.
    NotJoining,
    /// The connection is not in its active phase.
    NotActive,
    /// The client sent a binary frame, which the room does not take.
    UnsupportedBinary,
    /// Reading from or writing to the client failed.
    TransportFailure,
}

/// A frame from the client. Of the payloads only a text frame's is kept.
#[derive(Debug, PartialEq, Eq)]
pub enum Frame {
    Text(String),
    Ping,
    Pong,
    Close,
    Binary,
}

/// A frame from the client as plain values.
pub ghost enum FrameView {
    Text(Seq<char>),
    Ping,
    Pong,
    Close,
    Binary,
}

impl View for Frame {
    type V = FrameView;

    open spec fn view(&self) -> FrameView {
        match self {
            Frame::Text(t) => FrameView::Text(t@),
            Frame::Ping => FrameView::Ping,
            Frame::Pong => FrameView::Pong,
            Frame::Close => FrameView::Close,
            Frame::Binary => FrameView::Binary,
        }
    }
}

/// What can happen to an active connection.
#[derive(Debug, PartialEq, Eq)]
pub enum Event {
    /// The client sent a frame.
    Frame(Frame),
    /// The client's stream ended without a close frame.
    StreamEnd,
    /// A read or a write on the transport failed.
    TransportError,
    /// The hub delivered a message to this connection's inbox.
    Delivery(ChatMessage),
    /// The probe's interval passed.
    Tick,
}

/// An event as plain values.
pub ghost enum EventView {
    Frame(FrameView),
    StreamEnd,
    TransportError,
    Delivery(MessageView),
    Tick,
}

impl View for Event {
    type V = EventView;

    open spec fn view(&self) -> EventView {
        match self {
            Event::Frame(f) => EventView::Frame(f@),
            Event::StreamEnd => EventView::StreamEnd,
            Event::TransportError => EventView::TransportError,
            Event::Delivery(m) => EventView::Delivery(m@),
            Event::Tick => EventView::Tick,
        }
    }
}

/// A frame to write to the client. Probes and their answers carry no payload.
#[derive(Debug, PartialEq, Eq)]
pub enum Outbound {
    Text(String),
    Ping,
    Pong,
}

/// A frame to write as plain values.
pub ghost enum OutboundView {
    Text(Seq<char>),
    Ping,
    Pong,
}

impl View for Outbound {
    type V = OutboundView;

    open spec fn view(&self) -> OutboundView {
        match self {
            Outbound::Text(t) => OutboundView::Text(t@),
            Outbound::Ping => OutboundView::Ping,
            Outbound::Pong => OutboundView::Pong,
        }
    }
}

/// The frames of a sequence as plain values, in their order.
pub open spec fn frames(out: Seq<Outbound>) -> Seq<OutboundView> {
    out.map_values(|o: Outbound| o@)
}

/// One text frame for each message, with the message's line as payload.
pub open spec fn text_frames(msgs: Seq<MessageView>) -> Seq<OutboundView> {
    msgs.map_values(|m: MessageView| OutboundView::Text(render_line(m)))
}

/// The text of the notice that a connection posts when it has joined.
pub open spec fn joined_text() -> Seq<char> {
    "joined in the room"@
}

/// The text of the notice that a connection posts when it leaves.
pub open spec fn left_text() -> Seq<char> {
    "left the room"@
}

/// What one connection keeps.
#[derive(Clone, Copy, Debug, PartialEq, Eq)]
pub struct ConnectionState {
    /// The id under which its messages appear; two connections may share one.
    pub connection_id: i32,
    /// When the client last acknowledged a probe, in milliseconds.
    pub last_heartbeat_at: u64,
    pub phase: Phase,
    /// Its subscription to the hub, from joining until it closes.
    pub subscription: Option<usize>,
}

/// What a call came to: the connection and the room after it, the frames to
/// write, and the error if the event was not taken.
pub ghost struct Outcome {
    pub conn: ConnectionState,
    pub room: RoomView,
    pub frames: Seq<OutboundView>,
    pub error: Option<ConnectionError>,
}

/// The message that connection `conn` posts at `wall_seconds`.
pub open spec fn authored(conn: ConnectionState, wall_seconds: i64, text: Seq<char>) -> MessageView {
    MessageView { created_at: wall_seconds as int, author_id: conn.connection_id as int, text }
}

/// Joining: the history as it stands is replayed, the connection subscribes,
/// and its join notice is posted.
pub open spec fn joined(conn: ConnectionState, room: RoomView, wall_seconds: i64) -> Outcome {
    if conn.phase != Phase::Joining {
        Outcome { conn, room, frames: Seq::empty(), error: Some(ConnectionError::NotJoining) }
    } else {
        Outcome {
            conn: ConnectionState {
                phase: Phase::Active,
                subscription: Some(room.hub.free_slot() as usize),
                ..conn
            },
            room: room.subscribe().post(authored(conn, wall_seconds, joined_text())),
            frames: text_frames(room.history),
            error: None,
        }
    }
}

/// Leaving: the leave notice is posted and also written to the leaving client
/// itself, then the subscription is given up. Only an active connection
/// leaves: for any other nothing is posted, written or changed.
pub open spec fn left(conn: ConnectionState, room: RoomView, wall_seconds: i64) -> Outcome {
    if conn.phase != Phase::Active {
        Outcome { conn, room, frames: Seq::empty(), error: None }
    } else {
        Outcome {
            conn: ConnectionState { phase: Phase::Closed, subscription: None, ..conn },
            room: room.post(authored(conn, wall_seconds, left_text())).release(conn.subscription),
            frames: seq![
                OutboundView::Text(render_line(authored(conn, wall_seconds, left_text()))),
            ],
            error: None,
        }
    }
}

/// Giving up after a failure: the subscription is released, nothing is posted
/// and nothing is written.
pub open spec fn aborted(conn: ConnectionState, room: RoomView, error: ConnectionError) -> Outcome {
    Outcome {
        conn: ConnectionState { phase: Phase::Closed, subscription: None, ..conn },
        room: room.release(conn.subscription),
        frames: Seq::empty(),
        error: Some(error),
    }
}

/// What an event does to a connection and the room.
pub open spec fn react(
    conn: ConnectionState,
    room: RoomView,
    event: EventView,
    now_ms: u64,
    wall_seconds: i64,
) -> Outcome {
    if event == EventView::TransportError {
        aborted(conn, room, ConnectionError::TransportFailure)
    } else if conn.phase != Phase::Active {
        Outcome { conn, room, frames: Seq::empty(), error: Some(ConnectionError::NotActive) }
    } else {
        match event {
            EventView::Frame(FrameView::Text(text)) => Outcome {
                conn,
                room: room.post(authored(conn, wall_seconds, text)),
                frames: Seq::empty(),
                error: None,
            },
            EventView::Frame(FrameView::Ping) => Outcome {
                conn,
                room,
                frames: seq![OutboundView::Pong],
                error: None,
            },
            EventView::Frame(FrameView::Pong) => Outcome {
                conn: ConnectionState { last_heartbeat_at: now_ms, ..conn },
                room,
                frames: Seq::empty(),
                error: None,
            },
            EventView::Frame(FrameView::Close) => left(conn, room, wall_seconds),
            EventView::Frame(FrameView::Binary) => aborted(
                conn,
                room,
                ConnectionError::UnsupportedBinary,
            ),
            EventView::StreamEnd => left(conn, room, wall_seconds),
            EventView::TransportError => aborted(conn, room, ConnectionError::TransportFailure),
            EventView::Delivery(m) => Outcome {
                conn,
                room,
                frames: seq![OutboundView::Text(render_line(m))],
                error: None,
            },
            EventView::Tick => if timed_out(conn.last_heartbeat_at as int, now_ms as int) {
                left(conn, room, wall_seconds)
            } else {
                Outcome { conn, room, frames: seq![OutboundView::Ping], error: None }
            },
        }
    }
}

/// What a call left behind, put together from the states after it and from
/// what it returned.
pub open spec fn observed(
    conn: ConnectionState,
    room: RoomView,
    result: Result<Vec<Outbound>, ConnectionError>,
) -> Outcome {
    match result {
        Ok(out) => Outcome { conn, room, frames: frames(out@), error: None },
        Err(e) => Outcome { conn, room, frames: Seq::empty(), error: Some(e) },
    }
}

/// Calls rand: `Rng::gen_range` on the thread's generator, with the half-open
/// range from `low` to `high`. rand returns a number of that range; which
/// one is left open.
#[verifier::external_body]
fn sample_in_range(low: i32, high: i32) -> (n: i32)
    requires
        low < high,
    ensures
        low <= n < high,
{
    rand::Rng::gen_range(&mut rand::thread_rng(), low..high)
}

/// An id for a new connection: four decimal digits, drawn at random. Two
/// connections may draw the same id.
pub fn gen_random_user_id() -> (id: i32)
    ensures
        1000 <= id < 10000,
{
    sample_in_range(1000, 10000)
}

/// One text frame for each message, in their order.
pub fn render_all(msgs: &Vec<ChatMessage>) -> (out: Vec<Outbound>)
    ensures
        frames(out@) == text_frames(views(msgs@)),
{
    let mut out: Vec<Outbound> = Vec::new();
    let mut i: usize = 0;
    while i < msgs.len()
        invariant
            i <= msgs.len(),
            out@.len() == i,
            forall|j: int|
                0 <= j < i ==> (#[trigger] out@[j])@ == OutboundView::Text(render_line(msgs@[j]@)),
        decreases msgs.len() - i,
    {
        out.push(Outbound::Text(msgs[i].to_string()));
        i += 1;
    }
    proof {
        assert(frames(out@) =~= text_frames(views(msgs@)));
    }
    out
}

impl ConnectionState {
    /// A connection that is about to join, with the given id.
    pub fn new(connection_id: i32, now_ms: u64) -> (conn: ConnectionState)
        ensures
            conn == (ConnectionState {
                connection_id,
                last_heartbeat_at: now_ms,
                phase: Phase::Joining,
                subscription: None,
            }),
    {
        ConnectionState {
            connection_id,
            last_heartbeat_at: now_ms,
            phase: Phase::Joining,
            subscription: None,
        }
    }

    /// A connection that is about to join, with an id drawn at random.
    pub fn accept(now_ms: u64) -> (conn: ConnectionState)
        ensures
            1000 <= conn.connection_id < 10000,
            conn.last_heartbeat_at == now_ms,
            conn.phase == Phase::Joining,
            conn.subscription == None::<usize>,
    {
        ConnectionState::new(gen_random_user_id(), now_ms)
    }

    /// Posts `msg` to the room as a message of this connection, made at
    /// `wall_seconds`.
    pub fn post_at(&self, msg: String, wall_seconds: i64, room: &mut Room)
        requires
            old(room)@.wf(),
        ensures
            final(room)@ == old(room)@.post(authored(*self, wall_seconds, msg@)),
            final(room)@.wf(),
    {
        room.post(ChatMessage::new(wall_seconds, self.connection_id, msg));
    }

    /// Posts `msg` to the room as a message of this connection, made now.
    /// Returns the time that the message carries.
    pub fn handle_client_msg(&self, msg: String, room: &mut Room) -> (created_at: i64)
        requires
            old(room)@.wf(),
        ensures
            final(room)@ == old(room)@.post(authored(*self, created_at, msg@)),
            final(room)@.wf(),
    {
        let created_at = unix_now();
        self.post_at(msg, created_at, room);
        created_at
    }

    /// Reads everything that the hub has queued for this connection and
    /// returns one text frame for each message, oldest first. A connection
    /// that is not active reads nothing.
    pub fn deliver_pending(&self, room: &mut Room) -> (out: Vec<Outbound>)
        requires
            old(room)@.wf(),
        ensures
            final(room)@.wf(),
            final(room)@ == self.after_delivery(old(room)@),
            frames(out@) == text_frames(self.deliverable(old(room)@)),
    {
        match (self.phase, self.subscription) {
            (Phase::Active, Some(id)) => {
                let pending = room.hub.drain(id);
                render_all(&pending)
            },
            _ => {
                let out: Vec<Outbound> = Vec::new();
                proof {
                    assert(frames(out@) =~= text_frames(self.deliverable(old(room)@)));
                }
                out
            },
        }
    }

    /// What the hub holds for this connection to write: what waits in its
    /// inbox while it is active, else nothing.
    pub open spec fn deliverable(self, room: RoomView) -> Seq<MessageView> {
        match (self.phase, self.subscription) {
            (Phase::Active, Some(id)) => room.hub.waiting(id as int),
            _ => Seq::empty(),
        }
    }

    /// The room after this connection read what was deliverable.
    pub open spec fn after_delivery(self, room: RoomView) -> RoomView {
        match (self.phase, self.subscription) {
            (Phase::Active, Some(id)) => RoomView {
                history: room.history,
                hub: room.hub.drain(id as int),
            },
            _ => room,
        }
    }

    /// Joins the room. The frames that come back replay the history, oldest
    /// first; the join notice follows through the connection's own inbox.
    pub fn join(&mut self, room: &mut Room, wall_seconds: i64) -> (result: Result<
        Vec<Outbound>,
        ConnectionError,
    >)
        requires
            old(room)@.wf(),
        ensures
            final(room)@.wf(),
            observed(*final(self), final(room)@, result) == joined(
                *old(self),
                old(room)@,
                wall_seconds,
            ),
    {
        match self.phase {
            Phase::Joining => {
                let id = room.hub.subscribe();
                let snapshot = room.history.snapshot();
                let replay = render_all(&snapshot);
                self.post_at("joined in the room".to_owned(), wall_seconds, room);
                self.phase = Phase::Active;
                self.subscription = Some(id);
                Ok(replay)
            },
            _ => Err(ConnectionError::NotJoining),
        }
    }

    /// Leaves the room: posts the leave notice, hands the same line back for
    /// the leaving client, and gives up the subscription. A connection that
    /// is not active has nothing to leave: nothing is posted and no frame
    /// comes back, so a connection never leaves twice.
    pub fn leave(&mut self, room: &mut Room, wall_seconds: i64) -> (out: Vec<Outbound>)
        requires
            old(room)@.wf(),
        ensures
            final(room)@.wf(),
            observed(*final(self), final(room)@, Ok(out)) == left(
                *old(self),
                old(room)@,
                wall_seconds,
            ),
    {
        let mut out: Vec<Outbound> = Vec::new();
        match self.phase {
            Phase::Active => {},
            _ => {
                proof {
                    assert(frames(out@) =~= left(*old(self), old(room)@, wall_seconds).frames);
                }
                return out;
            },
        }
        self.phase = Phase::Closing;
        let notice = ChatMessage::new(wall_seconds, self.connection_id, "left the room".to_owned());
        let line = notice.to_string();
        room.post(notice);
        self.release(room);
        out.push(Outbound::Text(line));
        proof {
            assert(frames(out@) =~= left(*old(self), old(room)@, wall_seconds).frames);
        }
        out
    }

    /// Gives the connection up without a notice, as after a failure of the
    /// transport: the subscription is released and the connection is closed.
    pub fn abort(&mut self, room: &mut Room)
        requires
            old(room)@.wf(),
        ensures
            final(room)@.wf(),
            final(room)@ == old(room)@.release(old(self).subscription),
            *final(self) == (ConnectionState {
                phase: Phase::Closed,
                subscription: None,
                ..*old(self)
            }),
    {
        self.release(room);
    }

    fn release(&mut self, room: &mut Room)
        requires
            old(room)@.wf(),
        ensures
            final(room)@.wf(),
            final(room)@ == old(room)@.release(old(self).subscription),
            *final(self) == (ConnectionState {
                phase: Phase::Closed,
                subscription: None,
                ..*old(self)
            }),
    {
        match self.subscription {
            Some(id) => {
                room.hub.unsubscribe(id);
            },
            None => {},
        }
        self.subscription = None;
        self.phase = Phase::Closed;
    }

    /// Takes one event. The frames that come back are to be written to the
    /// client in their order; an error says that the event was not taken, or
    /// that the connection was closed for it.
    pub fn step(&mut self, event: Event, now_ms: u64, wall_seconds: i64, room: &mut Room) -> (result:
        Result<Vec<Outbound>, ConnectionError>)
        requires
            old(room)@.wf(),
        ensures
            final(room)@.wf(),
            observed(*final(self), final(room)@, result) == react(
                *old(self),
                old(room)@,
                event@,
                now_ms,
                wall_seconds,
            ),
    {
        if let Event::TransportError = event {
            self.abort(room);
            return Err(ConnectionError::TransportFailure);
        }
        match self.phase {
            Phase::Active => {},
            _ => {
                return Err(ConnectionError::NotActive);
            },
        }
        let mut out: Vec<Outbound> = Vec::new();
        match event {
            Event::Frame(Frame::Text(text)) => {
                self.post_at(text, wall_seconds, room);
            },
            Event::Frame(Frame::Ping) => {
                out.push(Outbound::Pong);
            },
            Event::Frame(Frame::Pong) => {
                self.last_heartbeat_at = now_ms;
            },
            Event::Frame(Frame::Close) => {
                return Ok(self.leave(room, wall_seconds));
            },
            Event::Frame(Frame::Binary) => {
                self.abort(room);
                return Err(ConnectionError::UnsupportedBinary);
            },
            Event::StreamEnd => {
                return Ok(self.leave(room, wall_seconds));
            },
            Event::TransportError => {
                self.abort(room);
                return Err(ConnectionError::TransportFailure);
            },
            Event::Delivery(msg) => {
                out.push(Outbound::Text(msg.to_string()));
            },
            Event::Tick => {
                match check(self.last_heartbeat_at, now_ms) {
                    Liveness::Dead => {
                        return Ok(self.leave(room, wall_seconds));
                    },
                    Liveness::Alive => {
                        out.push(Outbound::Ping);
                    },
                }
            },
        }
        proof {
            assert(frames(out@) =~= react(
                *old(self),
                old(room)@,
                event@,
                now_ms,
                wall_seconds,
            ).frames);
        }
        Ok(out)
    }
}

/// A connection that joins after messages were posted is handed exactly the
/// lines of the history and of those messages, in the order of posting. The
/// first message in its inbox is then its own join notice, and what is posted
/// later waits behind that notice, in the order of posting.
pub proof fn replay_precedes_join_notice(
    conn: ConnectionState,
    room: RoomView,
    published: Seq<MessageView>,
    later: Seq<MessageView>,
    wall_seconds: i64,
)
    requires
        room.wf(),
        conn.phase == Phase::Joining,
        room.hub.inboxes.len() <= usize::MAX,
        1 + later.len() <= room.hub.capacity,
    ensures
        ({
            let before = room.post_all(published);
            let o = joined(conn, before, wall_seconds);
            let id = before.hub.free_slot();
            let notice = authored(conn, wall_seconds, joined_text());
            &&& o.error is None
            &&& o.frames == text_frames(room.history + published)
            &&& o.frames.len() == room.history.len() + published.len()
            &&& o.conn.phase == Phase::Active
            &&& o.conn.subscription == Some(id as usize)
            &&& o.room.wf()
            &&& o.room.history == (room.history + published).push(notice)
            &&& o.room.hub.is_open(id)
            &&& o.room.hub.pending(id) == seq![notice]
            &&& o.room.post_all(later).hub.pending(id) == seq![notice] + later
        }),
{
    let before = room.post_all(published);
    posting_extends_history(room, published);
    let o = joined(conn, before, wall_seconds);
    let id = before.hub.free_slot();
    let notice = authored(conn, wall_seconds, joined_text());
    let subscribed = before.subscribe();
    subscribing_opens_a_fresh_inbox(before.hub);
    fan_out_reaches_every_subscriber(subscribed.hub, notice, id);
    assert(o.room.hub.pending(id) =~= seq![notice]);
    inbox_collects_in_order(o.room, id, later);
}

/// A message that one connection sends reaches every subscriber, the sender
/// included: it waits as the newest message of the inbox, behind all that
/// waited there where the inbox had room, and when the hub delivers it the
/// connection writes its line.
pub proof fn message_reaches_every_connection(
    sender: ConnectionState,
    receiver: ConnectionState,
    room: RoomView,
    text: Seq<char>,
    id: int,
    now_ms: u64,
    wall_seconds: i64,
)
    requires
        room.wf(),
        sender.phase == Phase::Active,
        receiver.phase == Phase::Active,
        id <= usize::MAX,
        receiver.subscription == Some(id as usize),
        room.hub.is_open(id),
    ensures
        ({
            let msg = authored(sender, wall_seconds, text);
            let sent = react(sender, room, EventView::Frame(FrameView::Text(text)), now_ms, wall_seconds);
            let got = react(receiver, sent.room, EventView::Delivery(msg), now_ms, wall_seconds);
            &&& sent.error is None
            &&& sent.room.wf()
            &&& sent.room.history == room.history.push(msg)
            &&& sent.room.hub.is_open(id)
            &&& sent.room.hub.pending(id).last() == msg
            &&& room.hub.pending(id).len() < room.hub.capacity ==> sent.room.hub.pending(id)
                == room.hub.pending(id).push(msg)
            &&& got.frames == seq![OutboundView::Text(render_line(msg))]
            &&& got.error is None
            &&& got.room == sent.room
            &&& text_frames(receiver.deliverable(sent.room)).len() > 0
            &&& text_frames(receiver.deliverable(sent.room)).last() == OutboundView::Text(
                render_line(msg),
            )
            &&& receiver.after_delivery(sent.room).history == sent.room.history
        }),
{
    fan_out_reaches_every_subscriber(room.hub, authored(sender, wall_seconds, text), id);
}

/// A connection that has not acknowledged a probe for more than the timeout
/// is closed by the next tick, and exactly one leave notice is posted and
/// written for it: once closed, it takes no further event. Where the tick
/// before came no more than one interval earlier and still found it within
/// the timeout, the close comes no later than the timeout and one interval
/// after the last acknowledgment.
pub proof fn silent_connection_is_evicted(
    conn: ConnectionState,
    room: RoomView,
    previous_ms: u64,
    now_ms: u64,
    wall_seconds: i64,
    next: EventView,
)
    requires
        conn.phase == Phase::Active,
        now_ms - conn.last_heartbeat_at > HEARTBEAT_TIMEOUT * 1000,
        next != EventView::TransportError,
    ensures
        ({
            let o = react(conn, room, EventView::Tick, now_ms, wall_seconds);
            let notice = authored(conn, wall_seconds, left_text());
            let after = react(o.conn, o.room, next, now_ms, wall_seconds);
            &&& o.conn.phase == Phase::Closed
            &&& o.error is None
            &&& o.frames == seq![OutboundView::Text(render_line(notice))]
            &&& o.room.history == room.history.push(notice)
            &&& after.error == Some(ConnectionError::NotActive)
            &&& after.room == o.room
            &&& after.frames.len() == 0
            &&& left(o.conn, o.room, wall_seconds).room == o.room
            &&& left(o.conn, o.room, wall_seconds).frames.len() == 0
        }),
        now_ms - previous_ms <= HEARTBEAT_INTERVAL * 1000 && !timed_out(
            conn.last_heartbeat_at as int,
            previous_ms as int,
        ) ==> now_ms - conn.last_heartbeat_at <= (HEARTBEAT_TIMEOUT + HEARTBEAT_INTERVAL) * 1000,
{
    if now_ms - previous_ms <= HEARTBEAT_INTERVAL * 1000 && !timed_out(
        conn.last_heartbeat_at as int,
        previous_ms as int,
    ) {
        silence_is_noticed(conn.last_heartbeat_at as int, previous_ms as int, now_ms as int);
    }
}

/// Only the client's acknowledgment of a probe moves the time from which
/// the timeout counts: a pong sets it to now and leaves the connection
/// active, and no other event changes it, a ping or a text from the client
/// included.
pub proof fn only_a_pong_resets_the_timer(
    conn: ConnectionState,
    room: RoomView,
    event: EventView,
    now_ms: u64,
    wall_seconds: i64,
)
    requires
        conn.phase == Phase::Active,
    ensures
        ({
            let o = react(conn, room, event, now_ms, wall_seconds);
            &&& event == EventView::Frame(FrameView::Pong) ==> o.conn == (ConnectionState {
                last_heartbeat_at: now_ms,
                ..conn
            }) && o.room == room && o.frames.len() == 0
            &&& event != EventView::Frame(FrameView::Pong) ==> o.conn.last_heartbeat_at
                == conn.last_heartbeat_at
            &&& event == EventView::Frame(FrameView::Ping) ==> o.conn == conn && o.room == room
                && o.frames == seq![OutboundView::Pong]
        }),
{
}

/// A connection that acknowledged a probe within the timeout is probed
/// again at a tick, and stays active.
pub proof fn live_connection_is_probed(
    conn: ConnectionState,
    room: RoomView,
    now_ms: u64,
    wall_seconds: i64,
)
    requires
        conn.phase == Phase::Active,
        now_ms - conn.last_heartbeat_at <= HEARTBEAT_TIMEOUT * 1000,
    ensures
        react(conn, room, EventView::Tick, now_ms, wall_seconds) == (Outcome {
            conn,
            room,
            frames: seq![OutboundView::Ping],
            error: None,
        }),
{
}

/// Whatever happens to one connection, be it a failure, the others keep
/// what is theirs: the history only grows at its end, every other subscriber
/// stays subscribed, and its inbox is either left as it was or has been
/// offered the one message that the event posted.
pub proof fn others_are_not_disturbed(
    conn: ConnectionState,
    room: RoomView,
    event: EventView,
    now_ms: u64,
    wall_seconds: i64,
    other: usize,
)
    requires
        room.wf(),
        room.hub.is_open(other as int),
        conn.subscription != Some(other),
    ensures
        ({
            let o = react(conn, room, event, now_ms, wall_seconds);
            let inbox = room.hub.inboxes[other as int];
            &&& o.room.wf()
            &&& room.history.is_prefix_of(o.room.history)
            &&& o.room.hub.is_open(other as int)
            &&& o.room.history == room.history ==> o.room.hub.inboxes[other as int] == inbox
            &&& o.room.history != room.history ==> o.room.history == room.history.push(
                o.room.history.last(),
            ) && o.room.hub.inboxes[other as int] == inbox.offer(
                o.room.history.last(),
                room.hub.capacity,
            )
        }),
{
    assert(room.hub.inboxes[other as int].wf(room.hub.capacity));
    let notice = authored(conn, wall_seconds, left_text());
    published_room_is_well_formed(room, notice);
    released_room_is_well_formed(room, conn.subscription);
    released_room_is_well_formed(room.post(notice), conn.subscription);
    match event {
        EventView::Frame(FrameView::Text(text)) => {
            published_room_is_well_formed(room, authored(conn, wall_seconds, text));
        },
        _ => {},
    }
    assert(room.history.push(notice).last() == notice);
    assert(room.history.push(notice) != room.history) by {
        assert(room.history.push(notice).len() != room.history.len());
    }
}

/// One frame as it arrives from the client, with what the two clocks read
/// at that moment.
pub ghost struct Arrival {
    pub frame: FrameView,
    pub now_ms: u64,
    pub wall_seconds: i64,
}

/// The frame neither closes the connection nor is refused.
pub open spec fn keeps_open(frame: FrameView) -> bool {
    frame != FrameView::Close && frame != FrameView::Binary
}

/// What a run of frames comes to: the connection and the room after one
/// `step` for each frame, in their order, all frames to write, and the last
/// step's error.
pub open spec fn after_arrivals(
    conn: ConnectionState,
    room: RoomView,
    arrivals: Seq<Arrival>,
) -> Outcome
    decreases arrivals.len(),
{
    if arrivals.len() == 0 {
        Outcome { conn, room, frames: Seq::empty(), error: None }
    } else {
        let before = after_arrivals(conn, room, arrivals.drop_last());
        let last = arrivals.last();
        let o = react(
            before.conn,
            before.room,
            EventView::Frame(last.frame),
            last.now_ms,
            last.wall_seconds,
        );
        Outcome { conn: o.conn, room: o.room, frames: before.frames + o.frames, error: o.error }
    }
}

/// The messages that a connection posts for the text frames of a run, in the
/// order of the frames.
pub open spec fn texts_posted(conn: ConnectionState, arrivals: Seq<Arrival>) -> Seq<MessageView>
    decreases arrivals.len(),
{
    if arrivals.len() == 0 {
        Seq::empty()
    } else {
        let earlier = texts_posted(conn, arrivals.drop_last());
        match arrivals.last().frame {
            FrameView::Text(text) => earlier.push(
                authored(conn, arrivals.last().wall_seconds, text),
            ),
            _ => earlier,
        }
    }
}

/// An active connection stays active over frames that are neither a close
/// nor binary, and what it does to the room is to post one message for each
/// text frame, in the order of the frames.
pub proof fn frames_post_their_texts(conn: ConnectionState, room: RoomView, arrivals: Seq<Arrival>)
    requires
        room.wf(),
        conn.phase == Phase::Active,
        forall|i: int| 0 <= i < arrivals.len() ==> keeps_open((#[trigger] arrivals[i]).frame),
    ensures
        ({
            let s = after_arrivals(conn, room, arrivals);
            &&& s.conn.phase == Phase::Active
            &&& s.conn.connection_id == conn.connection_id
            &&& s.conn.subscription == conn.subscription
            &&& s.error is None
            &&& s.room == room.post_all(texts_posted(conn, arrivals))
            &&& s.room.wf()
            &&& s.room.history == room.history + texts_posted(conn, arrivals)
        }),
        texts_posted(conn, arrivals).len() <= arrivals.len(),
        forall|i: int|
            0 <= i < texts_posted(conn, arrivals).len() ==> (#[trigger] texts_posted(
                conn,
                arrivals,
            )[i]).author_id == conn.connection_id,
    decreases arrivals.len(),
{
    let texts = texts_posted(conn, arrivals);
    if arrivals.len() > 0 {
        let earlier = arrivals.drop_last();
        frames_post_their_texts(conn, room, earlier);
        let before = after_arrivals(conn, room, earlier);
        assert(keeps_open(arrivals[arrivals.len() - 1].frame));
        match arrivals.last().frame {
            FrameView::Text(text) => {
                assert(texts.drop_last() =~= texts_posted(conn, earlier));
            },
            _ => {},
        }
    }
    posting_extends_history(room, texts);
}

/// A whole stay in order: a connection that joins, sends any frames but a
/// close or a binary one, and then closes or ends its stream has posted
/// exactly its join notice, one message for each text frame in the order of
/// the frames, and its leave notice; each once, all under its own id. A
/// subscriber that was there before and has room for them finds exactly
/// these behind what waited in its inbox.
pub proof fn stay_is_posted_in_order(
    conn: ConnectionState,
    room: RoomView,
    join_at: i64,
    arrivals: Seq<Arrival>,
    end: EventView,
    now_ms: u64,
    leave_at: i64,
    observer: int,
)
    requires
        room.wf(),
        conn.phase == Phase::Joining,
        room.hub.inboxes.len() < usize::MAX,
        forall|i: int| 0 <= i < arrivals.len() ==> keeps_open((#[trigger] arrivals[i]).frame),
        end == EventView::Frame(FrameView::Close) || end == EventView::StreamEnd,
    ensures
        ({
            let j = joined(conn, room, join_at);
            let s = after_arrivals(j.conn, j.room, arrivals);
            let e = react(s.conn, s.room, end, now_ms, leave_at);
            let posted = seq![authored(conn, join_at, joined_text())] + texts_posted(conn, arrivals)
                + seq![authored(conn, leave_at, left_text())];
            &&& s.conn.phase == Phase::Active
            &&& e.conn.phase == Phase::Closed
            &&& e.error is None
            &&& e.room.wf()
            &&& e.room.history == room.history + posted
            &&& !e.room.hub.is_open(room.hub.free_slot())
            &&& room.hub.is_open(observer) && room.hub.pending(observer).len() + posted.len()
                <= room.hub.capacity ==> e.room.hub.is_open(observer) && e.room.hub.pending(
                observer,
            ) == room.hub.pending(observer) + posted
        }),
{
    let join_notice = authored(conn, join_at, joined_text());
    let leave_notice = authored(conn, leave_at, left_text());
    let texts = texts_posted(conn, arrivals);
    let j = joined(conn, room, join_at);
    subscribing_opens_a_fresh_inbox(room.hub);
    published_room_is_well_formed(room.subscribe(), join_notice);
    frames_post_their_texts(j.conn, j.room, arrivals);
    let s = after_arrivals(j.conn, j.room, arrivals);
    assert(texts_posted(j.conn, arrivals) =~= texts) by {
        same_author_same_texts(j.conn, conn, arrivals);
    }
    published_room_is_well_formed(s.room, leave_notice);
    released_room_is_well_formed(s.room.post(leave_notice), s.conn.subscription);
    let e = react(s.conn, s.room, end, now_ms, leave_at);
    let posted = seq![join_notice] + texts + seq![leave_notice];
    assert(e.room.history =~= room.history + posted);
    if room.hub.is_open(observer) && room.hub.pending(observer).len() + posted.len()
        <= room.hub.capacity {
        let waited = room.hub.pending(observer);
        assert(room.hub.inboxes[observer].wf(room.hub.capacity));
        fan_out_reaches_every_subscriber(room.subscribe().hub, join_notice, observer);
        inbox_collects_in_order(j.room, observer, texts);
        assert(posted.len() == texts.len() + 2);
        assert(s.room.hub.capacity == room.hub.capacity) by {
            posting_extends_history(j.room, texts);
        }
        fan_out_reaches_every_subscriber(s.room.hub, leave_notice, observer);
        assert(e.room.hub.pending(observer) =~= waited + posted);
    }
}

proof fn same_author_same_texts(a: ConnectionState, b: ConnectionState, arrivals: Seq<Arrival>)
    requires
        a.connection_id == b.connection_id,
    ensures
        texts_posted(a, arrivals) == texts_posted(b, arrivals),
    decreases arrivals.len(),
{
    if arrivals.len() > 0 {
        same_author_same_texts(a, b, arrivals.drop_last());
    }
}

proof fn published_room_is_well_formed(room: RoomView, msg: MessageView)
    requires
        room.wf(),
    ensures
        room.post(msg).wf(),
{
    assert forall|i: int| 0 <= i < room.post(msg).hub.inboxes.len() implies (
    #[trigger] room.post(msg).hub.inboxes[i]).wf(room.hub.capacity) by {
        assert(room.hub.inboxes[i].wf(room.hub.capacity));
    }
}

proof fn released_room_is_well_formed(room: RoomView, subscription: Option<usize>)
    requires
        room.wf(),
    ensures
        room.release(subscription).wf(),
{
    assert forall|i: int| 0 <= i < room.release(subscription).hub.inboxes.len() implies (
    #[trigger] room.release(subscription).hub.inboxes[i]).wf(room.hub.capacity) by {
        assert(room.hub.inboxes[i].wf(room.hub.capacity));
    }
}

} // verus!

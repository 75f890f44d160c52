//! The room: the history store and the broadcast hub that all connections
//! share. A message is posted by appending it to the history and then
//! publishing it to the hub.

use vstd::prelude::*;
use crate::history::History;
use crate::hub::{Hub, HubView, INBOX_CAPACITY};
use crate::message::{ChatMessage, MessageView};

verus! {

/// What all connections share.
pub struct Room {
    pub history: History,
    pub hub: Hub,
}

/// The room as plain values.
pub ghost struct RoomView {
    pub history: Seq<MessageView>,
    pub hub: HubView,
}

impl View for Room {
    type V = RoomView;

    open spec fn view(&self) -> RoomView {
        RoomView { history: self.history@, hub: self.hub@ }
    }
}

impl RoomView {
    /// The hub's invariant holds.
    pub open spec fn wf(self) -> bool {
        self.hub.wf()
    }

    /// The room after `msg` was posted.
    pub open spec fn post(self, msg: MessageView) -> RoomView {
        RoomView { history: self.history.push(msg), hub: self.hub.publish(msg) }
    }

    /// The room after one more subscription.
    pub open spec fn subscribe(self) -> RoomView {
        RoomView { history: self.history, hub: self.hub.subscribe() }
    }

    /// The room after a subscription was given up, if there was one.
    pub open spec fn release(self, subscription: Option<usize>) -> RoomView {
        match subscription {
            Some(id) => RoomView { history: self.history, hub: self.hub.unsubscribe(id as int) },
            None => self,
        }
    }

    /// The room after the messages of `msgs` were posted in their order.
    pub open spec fn post_all(self, msgs: Seq<MessageView>) -> RoomView
        decreases msgs.len(),
    {
        if msgs.len() == 0 {
            self
        } else {
            self.post_all(msgs.drop_last()).post(msgs.last())
        }
    }
}

impl Room {
    /// An empty room whose inboxes hold `INBOX_CAPACITY` messages.
    pub fn new() -> (room: Room)
        ensures
            room@.wf(),
            room@.history == Seq::<MessageView>::empty(),
            room@.hub == (HubView { capacity: INBOX_CAPACITY as nat, inboxes: Seq::empty() }),
    {
        Room { history: History::new(), hub: Hub::new(INBOX_CAPACITY) }
    }

    /// An empty room whose inboxes hold `capacity` messages.
    pub fn with_capacity(capacity: usize) -> (room: Room)
        requires
            capacity >= 1,
        ensures
            room@.wf(),
            room@.history == Seq::<MessageView>::empty(),
            room@.hub == (HubView { capacity: capacity as nat, inboxes: Seq::empty() }),
    {
        Room { history: History::new(), hub: Hub::new(capacity) }
    }

    /// Posts a message: it is appended to the history and then published to
    /// every subscriber.
    pub fn post(&mut self, msg: ChatMessage)
        requires
            old(self)@.wf(),
        ensures
            final(self)@ == old(self)@.post(msg@),
            final(self)@.wf(),
    {
        self.history.append(msg.clone());
        self.hub.publish(&msg);
    }
}

/// Posting leaves the hub's invariant in place, adds the messages to the
/// history in their order and changes nothing that was there.
pub proof fn posting_extends_history(room: RoomView, msgs: Seq<MessageView>)
    requires
        room.wf(),
    ensures
        room.post_all(msgs).wf(),
        room.post_all(msgs).history == room.history + msgs,
        room.history.is_prefix_of(room.post_all(msgs).history),
        room.post_all(msgs).hub.inboxes.len() == room.hub.inboxes.len(),
        room.post_all(msgs).hub.capacity == room.hub.capacity,
    decreases msgs.len(),
{
    if msgs.len() > 0 {
        posting_extends_history(room, msgs.drop_last());
        let before = room.post_all(msgs.drop_last());
        assert(before.post(msgs.last()).wf());
    }
    assert(room.post_all(msgs).history =~= room.history + msgs);
}

/// An open inbox with room for them collects the posted messages in the
/// order of posting, behind what waited there already.
pub proof fn inbox_collects_in_order(room: RoomView, id: int, msgs: Seq<MessageView>)
    requires
        room.wf(),
        room.hub.is_open(id),
        room.hub.pending(id).len() + msgs.len() <= room.hub.capacity,
    ensures
        room.post_all(msgs).wf(),
        room.post_all(msgs).hub.is_open(id),
        room.post_all(msgs).hub.pending(id) == room.hub.pending(id) + msgs,
    decreases msgs.len(),
{
    posting_extends_history(room, msgs);
    if msgs.len() > 0 {
        inbox_collects_in_order(room, id, msgs.drop_last());
    }
    assert(room.post_all(msgs).hub.pending(id) =~= room.hub.pending(id) + msgs);
}

} // verus!

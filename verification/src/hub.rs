//! The broadcast hub: every published message is queued for every
//! subscriber, the publisher included. An inbox holds a bounded number of
//! messages; where it is full, its oldest message makes room for the new one,
//! so a subscriber that does not read never holds up a publisher.

use vstd::prelude::*;
use std::collections::VecDeque;
use crate::message::{views, ChatMessage, MessageView};

verus! {

/// The number of messages that an inbox of the room holds.
pub const INBOX_CAPACITY: usize = 5000;

/// One subscriber's inbox as plain values.
pub ghost struct InboxView {
    /// Whether the subscription still stands.
    pub open: bool,
    /// The messages that wait to be read, oldest first.
    pub queued: Seq<MessageView>,
}

/// The hub as plain values: its inboxes by subscription id.
pub ghost struct HubView {
    /// The bound on each inbox.
    pub capacity: nat,
    /// The inboxes; a subscription's id is its index here.
    pub inboxes: Seq<InboxView>,
}

/// A queue after one more message arrived: where the queue is full, its
/// oldest message is dropped.
pub open spec fn enqueue_bounded(queued: Seq<MessageView>, msg: MessageView, capacity: nat) -> Seq<MessageView> {
    if queued.len() < capacity {
        queued.push(msg)
    } else {
        queued.subrange(1, queued.len() as int).push(msg)
    }
}

/// The first closed inbox from `from` on; the number of inboxes where all of
/// them are open.
pub open spec fn first_closed(inboxes: Seq<InboxView>, from: int) -> int
    decreases inboxes.len() - from,
{
    if from < 0 || from >= inboxes.len() {
        inboxes.len() as int
    } else if !inboxes[from].open {
        from
    } else {
        first_closed(inboxes, from + 1)
    }
}

impl InboxView {
    /// A fresh inbox: open, nothing queued.
    pub open spec fn fresh() -> InboxView {
        InboxView { open: true, queued: Seq::empty() }
    }

    /// A closed inbox: nothing is queued for it any more.
    pub open spec fn closed() -> InboxView {
        InboxView { open: false, queued: Seq::empty() }
    }

    /// The inbox after a message was published.
    pub open spec fn offer(self, msg: MessageView, capacity: nat) -> InboxView {
        if self.open {
            InboxView { open: true, queued: enqueue_bounded(self.queued, msg, capacity) }
        } else {
            self
        }
    }

    /// The inbox after its oldest message was read.
    pub open spec fn advance(self) -> InboxView {
        if self.queued.len() > 0 {
            InboxView { open: self.open, queued: self.queued.subrange(1, self.queued.len() as int) }
        } else {
            self
        }
    }

    /// The inbox after everything in it was read.
    pub open spec fn emptied(self) -> InboxView {
        InboxView { open: self.open, queued: Seq::empty() }
    }

    /// The bound holds, and a closed inbox is empty.
    pub open spec fn wf(self, capacity: nat) -> bool {
        &&& self.queued.len() <= capacity
        &&& !self.open ==> self.queued.len() == 0
    }
}

impl HubView {
    /// The bound is positive and every inbox keeps it.
    pub open spec fn wf(self) -> bool {
        &&& self.capacity >= 1
        &&& forall|id: int| 0 <= id < self.inboxes.len() ==> (#[trigger] self.inboxes[id]).wf(self.capacity)
    }

    /// Whether `id` is a subscription that still stands.
    pub open spec fn is_open(self, id: int) -> bool {
        0 <= id < self.inboxes.len() && self.inboxes[id].open
    }

    /// What waits in the inbox of `id`, oldest first.
    pub open spec fn pending(self, id: int) -> Seq<MessageView> {
        self.inboxes[id].queued
    }

    /// The id that the next subscriber gets: that of the first closed inbox,
    /// which it takes over, or a new one where every inbox is open.
    pub open spec fn free_slot(self) -> int {
        first_closed(self.inboxes, 0)
    }

    /// The hub after one more subscription, whose id is `free_slot()`.
    pub open spec fn subscribe(self) -> HubView {
        HubView {
            capacity: self.capacity,
            inboxes: if self.free_slot() < self.inboxes.len() {
                self.inboxes.update(self.free_slot(), InboxView::fresh())
            } else {
                self.inboxes.push(InboxView::fresh())
            },
        }
    }

    /// The hub after `msg` was published: offered to every inbox.
    pub open spec fn publish(self, msg: MessageView) -> HubView {
        HubView {
            capacity: self.capacity,
            inboxes: Seq::new(
                self.inboxes.len(),
                |id: int| self.inboxes[id].offer(msg, self.capacity),
            ),
        }
    }

    /// The hub after the subscription `id` was given up.
    pub open spec fn unsubscribe(self, id: int) -> HubView {
        if 0 <= id < self.inboxes.len() {
            HubView {
                capacity: self.capacity,
                inboxes: self.inboxes.update(id, InboxView::closed()),
            }
        } else {
            self
        }
    }

    /// The hub after the oldest message of inbox `id` was read.
    pub open spec fn advance(self, id: int) -> HubView {
        if 0 <= id < self.inboxes.len() {
            HubView {
                capacity: self.capacity,
                inboxes: self.inboxes.update(id, self.inboxes[id].advance()),
            }
        } else {
            self
        }
    }

    /// The hub after everything in inbox `id` was read.
    pub open spec fn drain(self, id: int) -> HubView {
        if 0 <= id < self.inboxes.len() {
            HubView {
                capacity: self.capacity,
                inboxes: self.inboxes.update(id, self.inboxes[id].emptied()),
            }
        } else {
            self
        }
    }

    /// What a reader of inbox `id` is handed when it reads everything: what
    /// waits there, or nothing where no such inbox is.
    pub open spec fn waiting(self, id: int) -> Seq<MessageView> {
        if 0 <= id < self.inboxes.len() {
            self.inboxes[id].queued
        } else {
            Seq::empty()
        }
    }

    /// The oldest message that waits for `id`, if there is one.
    pub open spec fn front(self, id: int) -> Option<MessageView> {
        if 0 <= id < self.inboxes.len() && self.inboxes[id].queued.len() > 0 {
            Some(self.inboxes[id].queued[0])
        } else {
            None
        }
    }
}

/// What a read handed out, as plain values.
pub open spec fn received(msg: Option<ChatMessage>) -> Option<MessageView> {
    match msg {
        Some(m) => Some(m@),
        None => None,
    }
}

/// One subscriber's inbox.
pub struct Inbox {
    open: bool,
    queue: VecDeque<ChatMessage>,
}

impl View for Inbox {
    type V = InboxView;

    closed spec fn view(&self) -> InboxView {
        InboxView { open: self.open, queued: views(self.queue@) }
    }
}

impl Inbox {
    /// An open inbox with nothing in it.
    pub fn new() -> (inbox: Inbox)
        ensures
            inbox@ == InboxView::fresh(),
    {
        let inbox = Inbox { open: true, queue: VecDeque::new() };
        proof {
            assert(inbox@.queued =~= InboxView::fresh().queued);
        }
        inbox
    }

    /// Queues a message, unless the inbox is closed. A full inbox drops its
    /// oldest message first.
    pub fn offer(&mut self, msg: ChatMessage, capacity: usize)
        requires
            capacity >= 1,
            old(self)@.wf(capacity as nat),
        ensures
            final(self)@ == old(self)@.offer(msg@, capacity as nat),
            final(self)@.wf(capacity as nat),
    {
        if self.open {
            if self.queue.len() >= capacity {
                self.queue.pop_front();
            }
            self.queue.push_back(msg);
            proof {
                assert(final(self)@.queued =~= old(self)@.offer(msg@, capacity as nat).queued);
            }
        }
    }

    /// Takes the oldest message out of the inbox.
    pub fn take(&mut self) -> (msg: Option<ChatMessage>)
        ensures
            final(self)@ == old(self)@.advance(),
            received(msg) == (if old(self)@.queued.len() > 0 {
                Some(old(self)@.queued[0])
            } else {
                None
            }),
    {
        let msg = self.queue.pop_front();
        proof {
            assert(final(self)@.queued =~= old(self)@.advance().queued);
        }
        msg
    }

    /// Takes everything out of the inbox, oldest first.
    pub fn drain(&mut self) -> (out: Vec<ChatMessage>)
        ensures
            final(self)@ == old(self)@.emptied(),
            views(out@) == old(self)@.queued,
    {
        let mut out: Vec<ChatMessage> = Vec::new();
        loop
            invariant
                self.open == old(self).open,
                views(out@) + views(self.queue@) == views(old(self).queue@),
            ensures
                self.open == old(self).open,
                self.queue@.len() == 0,
                views(out@) == views(old(self).queue@),
            decreases self.queue@.len(),
        {
            let ghost before = self.queue@;
            let ghost had = out@;
            match self.queue.pop_front() {
                Some(msg) => {
                    out.push(msg);
                    proof {
                        assert(views(out@) + views(self.queue@) =~= views(had) + views(before));
                    }
                },
                None => {
                    proof {
                        assert(views(out@) =~= views(out@) + views(self.queue@));
                    }
                    break ;
                },
            }
        }
        proof {
            assert(final(self)@.queued =~= Seq::<MessageView>::empty());
        }
        out
    }

    /// Opens the inbox for a new subscriber, with nothing in it.
    pub fn reopen(&mut self)
        ensures
            final(self)@ == InboxView::fresh(),
    {
        self.open = true;
        self.queue.clear();
        proof {
            assert(final(self)@.queued =~= InboxView::fresh().queued);
        }
    }

    /// Closes the inbox and drops what it holds.
    pub fn close(&mut self)
        ensures
            final(self)@ == InboxView::closed(),
    {
        self.open = false;
        self.queue.clear();
        proof {
            assert(final(self)@.queued =~= InboxView::closed().queued);
        }
    }
}

/// The broadcast hub.
pub struct Hub {
    capacity: usize,
    inboxes: Vec<Inbox>,
}

impl View for Hub {
    type V = HubView;

    closed spec fn view(&self) -> HubView {
        HubView {
            capacity: self.capacity as nat,
            inboxes: Seq::new(self.inboxes@.len(), |id: int| self.inboxes@[id]@),
        }
    }
}

impl Hub {
    /// A hub without subscribers, whose inboxes will hold `capacity`
    /// messages each.
    pub fn new(capacity: usize) -> (hub: Hub)
        requires
            capacity >= 1,
        ensures
            hub@ == (HubView { capacity: capacity as nat, inboxes: Seq::empty() }),
            hub@.wf(),
    {
        let hub = Hub { capacity, inboxes: Vec::new() };
        proof {
            assert(hub@.inboxes =~= Seq::empty());
        }
        hub
    }

    /// The bound on each inbox.
    pub fn capacity(&self) -> (capacity: usize)
        ensures
            capacity == self@.capacity,
    {
        self.capacity
    }

    /// The number of inboxes that the hub holds, closed ones included.
    pub fn subscriptions(&self) -> (n: usize)
        ensures
            n == self@.inboxes.len(),
    {
        self.inboxes.len()
    }

    /// Whether `id` is a subscription that still stands.
    pub fn is_open(&self, id: usize) -> (open: bool)
        ensures
            open == self@.is_open(id as int),
    {
        id < self.inboxes.len() && self.inboxes[id].open
    }

    /// The number of messages that wait for `id`; zero for an id that was
    /// never given out.
    pub fn pending_len(&self, id: usize) -> (n: usize)
        ensures
            n == (if id < self@.inboxes.len() {
                self@.pending(id as int).len()
            } else {
                0
            }),
    {
        if id < self.inboxes.len() {
            self.inboxes[id].queue.len()
        } else {
            0
        }
    }

    /// Registers a new subscriber and returns its id. Its inbox receives
    /// every message published from now on. The id of a subscription that
    /// was given up is used again, so the hub holds no more inboxes than
    /// there were subscribers at one time.
    pub fn subscribe(&mut self) -> (id: usize)
        requires
            old(self)@.wf(),
        ensures
            id == old(self)@.free_slot(),
            final(self)@ == old(self)@.subscribe(),
            final(self)@.wf(),
    {
        let n = self.inboxes.len();
        let mut id: usize = 0;
        let mut found = false;
        while id < n && !found
            invariant
                id <= n,
                n == self.inboxes@.len(),
                *self == *old(self),
                first_closed(self@.inboxes, 0) == first_closed(self@.inboxes, id as int),
                found ==> id < n && !self@.inboxes[id as int].open,
            decreases n - id, if found { 0int } else { 1int },
        {
            if self.inboxes[id].open {
                id += 1;
            } else {
                found = true;
            }
        }
        if found {
            self.inboxes[id].reopen();
        } else {
            self.inboxes.push(Inbox::new());
        }
        proof {
            subscribing_opens_a_fresh_inbox(old(self)@);
            assert(final(self)@.inboxes =~= old(self)@.subscribe().inboxes);
        }
        id
    }

    /// Gives up the subscription `id`: nothing is queued for it any more. An
    /// id that was never given out changes nothing.
    pub fn unsubscribe(&mut self, id: usize)
        requires
            old(self)@.wf(),
        ensures
            final(self)@ == old(self)@.unsubscribe(id as int),
            final(self)@.wf(),
    {
        if id < self.inboxes.len() {
            self.inboxes[id].close();
            proof {
                assert(final(self)@.inboxes =~= old(self)@.unsubscribe(id as int).inboxes);
            }
        }
    }

    /// Publishes a message: a copy is queued for every open subscription.
    /// Without subscribers nothing happens.
    pub fn publish(&mut self, msg: &ChatMessage)
        requires
            old(self)@.wf(),
        ensures
            final(self)@ == old(self)@.publish(msg@),
            final(self)@.wf(),
    {
        let n = self.inboxes.len();
        let capacity = self.capacity;
        let mut i: usize = 0;
        proof {
            assert forall|j: int| 0 <= j < n implies (#[trigger] self.inboxes@[j])@.wf(
                capacity as nat,
            ) by {
                assert(self@.inboxes[j] == self.inboxes@[j]@);
            }
        }
        while i < n
            invariant
                i <= n,
                n == self.inboxes@.len(),
                n == old(self).inboxes@.len(),
                capacity == self.capacity,
                capacity == old(self).capacity,
                old(self)@.wf(),
                forall|j: int|
                    0 <= j < i ==> (#[trigger] self.inboxes@[j])@ == old(self).inboxes@[j]@.offer(
                        msg@,
                        capacity as nat,
                    ),
                forall|j: int| i <= j < n ==> (#[trigger] self.inboxes@[j])@ == old(self).inboxes@[j]@,
                forall|j: int| 0 <= j < n ==> (#[trigger] self.inboxes@[j])@.wf(capacity as nat),
            decreases n - i,
        {
            self.inboxes[i].offer(msg.clone(), capacity);
            i += 1;
        }
        proof {
            assert(final(self)@.inboxes =~= old(self)@.publish(msg@).inboxes);
        }
    }

    /// Takes everything out of the inbox of `id`, oldest first. Nothing where
    /// no such subscription was made.
    pub fn drain(&mut self, id: usize) -> (out: Vec<ChatMessage>)
        requires
            old(self)@.wf(),
        ensures
            views(out@) == old(self)@.waiting(id as int),
            final(self)@ == old(self)@.drain(id as int),
            final(self)@.wf(),
    {
        if id < self.inboxes.len() {
            let out = self.inboxes[id].drain();
            proof {
                assert(final(self)@.inboxes =~= old(self)@.drain(id as int).inboxes);
            }
            out
        } else {
            let out: Vec<ChatMessage> = Vec::new();
            proof {
                assert(views(out@) =~= Seq::<MessageView>::empty());
            }
            out
        }
    }

    /// Takes the oldest message out of the inbox of `id`. `None` where
    /// nothing waits, or no such subscription stands.
    pub fn recv(&mut self, id: usize) -> (msg: Option<ChatMessage>)
        requires
            old(self)@.wf(),
        ensures
            received(msg) == old(self)@.front(id as int),
            final(self)@ == old(self)@.advance(id as int),
            final(self)@.wf(),
    {
        if id < self.inboxes.len() {
            let msg = self.inboxes[id].take();
            proof {
                assert(final(self)@.inboxes =~= old(self)@.advance(id as int).inboxes);
            }
            msg
        } else {
            None
        }
    }
}

/// A published message is queued for every open subscriber, the publisher
/// included, as the newest of its inbox. Where the inbox had room, nothing
/// that waited there is lost; where it was full, only its oldest message is.
pub proof fn fan_out_reaches_every_subscriber(hub: HubView, msg: MessageView, id: int)
    requires
        hub.wf(),
        hub.is_open(id),
    ensures
        hub.publish(msg).wf(),
        hub.publish(msg).is_open(id),
        hub.publish(msg).inboxes.len() == hub.inboxes.len(),
        hub.publish(msg).pending(id).len() > 0,
        hub.publish(msg).pending(id).last() == msg,
        hub.pending(id).len() < hub.capacity ==> hub.publish(msg).pending(id) == hub.pending(
            id,
        ).push(msg),
        hub.pending(id).len() == hub.capacity ==> hub.publish(msg).pending(id) == hub.pending(
            id,
        ).subrange(1, hub.capacity as int).push(msg),
{
    assert(hub.inboxes[id].wf(hub.capacity));
    assert forall|other: int| 0 <= other < hub.publish(msg).inboxes.len() implies (
    #[trigger] hub.publish(msg).inboxes[other]).wf(hub.capacity) by {
        assert(hub.inboxes[other].wf(hub.capacity));
    }
}

/// What one subscriber gets does not depend on the others: two hubs with one
/// bound that agree on one inbox still agree on it after the same message is
/// published, however full the other inboxes are and whether or not anyone
/// reads them.
pub proof fn subscribers_are_isolated(a: HubView, b: HubView, msg: MessageView, id: int)
    requires
        a.capacity == b.capacity,
        0 <= id < a.inboxes.len(),
        id < b.inboxes.len(),
        a.inboxes[id] == b.inboxes[id],
    ensures
        a.publish(msg).inboxes[id] == b.publish(msg).inboxes[id],
{
}

/// Giving up one subscription, reading from one inbox, or adding a
/// subscriber leaves every other inbox as it was.
pub proof fn other_inboxes_are_untouched(hub: HubView, id: int, other: int)
    requires
        0 <= other < hub.inboxes.len(),
        other != id,
    ensures
        hub.unsubscribe(id).inboxes[other] == hub.inboxes[other],
        hub.advance(id).inboxes[other] == hub.inboxes[other],
        hub.drain(id).inboxes[other] == hub.inboxes[other],
        hub.wf() && hub.inboxes[other].open ==> hub.subscribe().inboxes[other] == hub.inboxes[other],
{
    if hub.wf() {
        subscribing_opens_a_fresh_inbox(hub);
    }
}

/// The next subscriber's id is that of the first closed inbox, or a new one
/// where none is closed. Subscribing makes that inbox open and empty and
/// leaves every other inbox as it was.
pub proof fn subscribing_opens_a_fresh_inbox(hub: HubView)
    requires
        hub.wf(),
    ensures
        0 <= hub.free_slot() <= hub.inboxes.len(),
        !hub.is_open(hub.free_slot()),
        forall|id: int| 0 <= id < hub.free_slot() ==> (#[trigger] hub.inboxes[id]).open,
        hub.subscribe().wf(),
        hub.subscribe().is_open(hub.free_slot()),
        hub.subscribe().inboxes[hub.free_slot()] == InboxView::fresh(),
        hub.subscribe().inboxes.len() == (if hub.free_slot() < hub.inboxes.len() {
            hub.inboxes.len()
        } else {
            hub.inboxes.len() + 1
        }),
        forall|id: int|
            0 <= id < hub.inboxes.len() && id != hub.free_slot() ==> (
            #[trigger] hub.subscribe().inboxes[id]) == hub.inboxes[id],
{
    first_closed_is_first(hub.inboxes, 0);
    assert forall|id: int| 0 <= id < hub.subscribe().inboxes.len() implies (
    #[trigger] hub.subscribe().inboxes[id]).wf(hub.capacity) by {
        if id < hub.inboxes.len() && id != hub.free_slot() {
            assert(hub.inboxes[id].wf(hub.capacity));
        }
    }
}

proof fn first_closed_is_first(inboxes: Seq<InboxView>, from: int)
    requires
        0 <= from <= inboxes.len(),
    ensures
        from <= first_closed(inboxes, from) <= inboxes.len(),
        first_closed(inboxes, from) < inboxes.len() ==> !inboxes[first_closed(inboxes, from)].open,
        forall|id: int| from <= id < first_closed(inboxes, from) ==> (#[trigger] inboxes[id]).open,
    decreases inboxes.len() - from,
{
    if from < inboxes.len() && inboxes[from].open {
        first_closed_is_first(inboxes, from + 1);
    }
}

} // verus!

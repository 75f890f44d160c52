//! The history store: the log of every message posted to the room, in the
//! order of posting. It only grows.

use vstd::prelude::*;
use crate::message::{views, ChatMessage, MessageView};

verus! {

/// The append-only log of the room's messages.
pub struct History {
    log: Vec<ChatMessage>,
}

impl View for History {
    type V = Seq<MessageView>;

    closed spec fn view(&self) -> Seq<MessageView> {
        views(self.log@)
    }
}

impl History {
    /// An empty log.
    pub fn new() -> (h: History)
        ensures
            h@ == Seq::<MessageView>::empty(),
    {
        let h = History { log: Vec::new() };
        proof {
            assert(h@ =~= Seq::<MessageView>::empty());
        }
        h
    }

    /// The number of messages in the log.
    pub fn len(&self) -> (n: usize)
        ensures
            n == self@.len(),
    {
        self.log.len()
    }

    /// Adds a message at the end of the log.
    pub fn append(&mut self, msg: ChatMessage)
        ensures
            final(self)@ == old(self)@.push(msg@),
    {
        self.log.push(msg);
        proof {
            assert(final(self)@ =~= old(self)@.push(msg@));
        }
    }

    /// A copy of the log as it stands: every message, in the order of posting.
    pub fn snapshot(&self) -> (copy: Vec<ChatMessage>)
        ensures
            views(copy@) == self@,
    {
        let mut copy: Vec<ChatMessage> = Vec::new();
        let mut i: usize = 0;
        while i < self.log.len()
            invariant
                i <= self.log.len(),
                copy@.len() == i,
                forall|j: int| 0 <= j < i ==> (#[trigger] copy@[j])@ == self.log@[j]@,
            decreases self.log.len() - i,
        {
            copy.push(self.log[i].clone());
            i += 1;
        }
        proof {
            assert(views(copy@) =~= views(self.log@));
        }
        copy
    }
}

/// Any two snapshots of one log agree: whatever was appended between them,
/// the earlier snapshot is a prefix of the later one, so no entry changes
/// its place or goes missing.
pub proof fn snapshots_are_prefix_consistent(earlier: Seq<MessageView>, appended: Seq<MessageView>)
    ensures
        earlier.is_prefix_of(appended_all(earlier, appended)),
        appended_all(earlier, appended) == earlier + appended,
        forall|i: int| 0 <= i < earlier.len() ==> appended_all(earlier, appended)[i] == earlier[i],
    decreases appended.len(),
{
    if appended.len() > 0 {
        snapshots_are_prefix_consistent(earlier, appended.drop_last());
    }
    assert(appended_all(earlier, appended) =~= earlier + appended);
}

/// The log after the messages of `appended` were appended to `log`, one call
/// of `append` for each, in their order.
pub open spec fn appended_all(log: Seq<MessageView>, appended: Seq<MessageView>) -> Seq<MessageView>
    decreases appended.len(),
{
    if appended.len() == 0 {
        log
    } else {
        appended_all(log, appended.drop_last()).push(appended.last())
    }
}

} // verus!

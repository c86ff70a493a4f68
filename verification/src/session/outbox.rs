//! The control messages that a side of a session has still to send.

use vstd::prelude::*;
use crate::message::control::{Message, MessageView};
use crate::watch::queue::{Queue, Wait};

verus! {

/// What the messages of a queue say, the oldest first.
pub open spec fn said(messages: Seq<Message>) -> Seq<MessageView> {
    Seq::new(messages.len(), |i: int| messages[i]@)
}

/// The publishing side of a session: the queue of the control messages that
/// it has to send.
pub struct Publisher {
    outgoing: Queue<Message>,
}

/// The subscribing side of a session: the queue of the control messages that
/// it has to send, and the number of its next subscription or fetch.
pub struct Subscriber {
    outgoing: Queue<Message>,
    next_id: u64,
}

impl Publisher {
    /// What the messages that wait to be sent say, the oldest first.
    pub closed spec fn sent(&self) -> Seq<MessageView> {
        said(self.outgoing@)
    }

    /// Whether the session has ended, so that nothing is sent any more.
    pub closed spec fn closed(&self) -> bool {
        self.outgoing.closed()
    }

    /// A publisher with nothing to send.
    pub fn new() -> (r: Self)
        ensures
            r.sent() == Seq::<MessageView>::empty(),
            !r.closed(),
    {
        let r = Publisher { outgoing: Queue::new() };
        r
    }

    /// Queues a message to be sent. Once the session has ended the message
    /// is dropped.
    pub fn send_message(&mut self, message: Message)
        ensures
            final(self).closed() == old(self).closed(),
            final(self).sent() == if old(self).closed() {
                old(self).sent()
            } else {
                old(self).sent().push(message@)
            },
    {
        match self.outgoing.push(message) {
            Ok(()) => {
            },
            Err(_) => {},
        }
    }

    /// Takes the oldest message to send it.
    pub fn next_message(&mut self) -> (r: Wait<Option<Message>>)
        ensures
            final(self).closed() == old(self).closed(),
            match r {
                Wait::Ready(Some(message)) => old(self).sent().len() > 0
                    && message@ == old(self).sent()[0]
                    && final(self).sent() == old(self).sent().skip(1),
                Wait::Ready(None) => old(self).sent().len() == 0 && old(self).closed()
                    && final(self).sent() == old(self).sent(),
                Wait::Pending => old(self).sent().len() == 0 && !old(self).closed()
                    && final(self).sent() == old(self).sent(),
            },
    {
        let taken = self.outgoing.pop();
        taken
    }

    /// Ends the session for this side: what still waited is handed over and
    /// nothing is sent any more.
    pub fn close(&mut self) -> (r: Vec<Message>)
        ensures
            final(self).closed(),
            final(self).sent() == Seq::<MessageView>::empty(),
            said(r@) == old(self).sent(),
    {
        let rest = self.outgoing.close();
        rest
    }
}

impl Subscriber {
    /// What the messages that wait to be sent say, the oldest first.
    pub closed spec fn sent(&self) -> Seq<MessageView> {
        said(self.outgoing@)
    }

    /// Whether the session has ended, so that nothing is sent any more.
    pub closed spec fn closed(&self) -> bool {
        self.outgoing.closed()
    }

    /// The number that the next subscription or fetch gets.
    pub closed spec fn next_id(&self) -> u64 {
        self.next_id
    }

    /// A subscriber with nothing to send, whose numbers begin at zero.
    pub fn new() -> (r: Self)
        ensures
            r.sent() == Seq::<MessageView>::empty(),
            !r.closed(),
            r.next_id() == 0,
    {
        let r = Subscriber { outgoing: Queue::new(), next_id: 0 };
        r
    }

    /// Takes the number for a new subscription or fetch. Numbers are handed
    /// out in rising order, each once, until none is left.
    pub fn allocate(&mut self) -> (r: Option<u64>)
        ensures
            final(self).sent() == old(self).sent(),
            final(self).closed() == old(self).closed(),
            match r {
                Some(id) => id == old(self).next_id() && final(self).next_id() == id + 1,
                None => old(self).next_id() == u64::MAX && final(self).next_id() == u64::MAX,
            },
    {
        if self.next_id == u64::MAX {
            None
        } else {
            let id = self.next_id;
            self.next_id = id + 1;
            Some(id)
        }
    }

    /// Queues a message to be sent. Once the session has ended the message
    /// is dropped.
    pub fn send_message(&mut self, message: Message)
        ensures
            final(self).closed() == old(self).closed(),
            final(self).next_id() == old(self).next_id(),
            final(self).sent() == if old(self).closed() {
                old(self).sent()
            } else {
                old(self).sent().push(message@)
            },
    {
        match self.outgoing.push(message) {
            Ok(()) => {
            },
            Err(_) => {},
        }
    }

    /// Takes the oldest message to send it.
    pub fn next_message(&mut self) -> (r: Wait<Option<Message>>)
        ensures
            final(self).closed() == old(self).closed(),
            final(self).next_id() == old(self).next_id(),
            match r {
                Wait::Ready(Some(message)) => old(self).sent().len() > 0
                    && message@ == old(self).sent()[0]
                    && final(self).sent() == old(self).sent().skip(1),
                Wait::Ready(None) => old(self).sent().len() == 0 && old(self).closed()
                    && final(self).sent() == old(self).sent(),
                Wait::Pending => old(self).sent().len() == 0 && !old(self).closed()
                    && final(self).sent() == old(self).sent(),
            },
    {
        let taken = self.outgoing.pop();
        taken
    }

    /// Ends the session for this side: what still waited is handed over and
    /// nothing is sent any more.
    pub fn close(&mut self) -> (r: Vec<Message>)
        ensures
            final(self).closed(),
            final(self).next_id() == old(self).next_id(),
            final(self).sent() == Seq::<MessageView>::empty(),
            said(r@) == old(self).sent(),
    {
        let rest = self.outgoing.close();
        rest
    }
}

} // verus!

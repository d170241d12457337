//! The outbound queue of a connection: messages wait here, in the order they
//! were sent, until the writer takes them to the socket.

use vstd::prelude::*;
use std::collections::VecDeque;
use crate::error::ChatError;
use crate::protocol::{Message, MessageView};

verus! {

/// What an outbound queue holds, as plain values.
pub struct QueueView {
    /// The waiting messages, oldest first.
    pub messages: Seq<MessageView>,
    /// Whether the receiving end is gone.
    pub closed: bool,
}

/// The views of a sequence of messages.
pub open spec fn views_of(messages: Seq<Message>) -> Seq<MessageView> {
    messages.map_values(|m: Message| m@)
}

/// First-in, first-out queue of outbound messages. Once closed it takes no
/// more messages; what it holds can still be taken out.
pub struct OutboundQueue {
    messages: VecDeque<Message>,
    closed: bool,
}

impl View for OutboundQueue {
    type V = QueueView;

    closed spec fn view(&self) -> QueueView {
        QueueView { messages: views_of(self.messages@), closed: self.closed }
    }
}

impl OutboundQueue {
    /// An open queue with nothing in it.
    pub fn new() -> (q: OutboundQueue)
        ensures
            q@.messages.len() == 0,
            !q@.closed,
    {
        OutboundQueue { messages: VecDeque::new(), closed: false }
    }

    /// Appends a message. Fails with `PeerDisconnected`, and changes
    /// nothing, exactly where the queue is closed.
    pub fn send(&mut self, message: Message) -> (r: Result<(), ChatError>)
        ensures
            if old(self)@.closed {
                r == Err::<(), ChatError>(ChatError::PeerDisconnected) && final(self)@ == old(
                    self,
                )@
            } else {
                r is Ok && final(self)@ == (QueueView {
                    messages: old(self)@.messages.push(message@),
                    closed: false,
                })
            },
    {
        if self.closed {
            return Err(ChatError::PeerDisconnected);
        }
        self.messages.push_back(message);
        assert(views_of(self.messages@) =~= views_of(old(self).messages@).push(message@));
        Ok(())
    }

    /// Takes out the oldest message, if there is one.
    pub fn recv(&mut self) -> (r: Option<Message>)
        ensures
            final(self)@.closed == old(self)@.closed,
            match r {
                Some(message) => old(self)@.messages.len() > 0 && message@ == old(
                    self,
                )@.messages[0] && final(self)@.messages == old(self)@.messages.drop_first(),
                None => old(self)@.messages.len() == 0 && final(self)@ == old(self)@,
            },
    {
        let message = self.messages.pop_front();
        assert(views_of(self.messages@) =~= if old(self).messages@.len() > 0 {
            views_of(old(self).messages@).drop_first()
        } else {
            views_of(old(self).messages@)
        });
        message
    }

    /// Closes the queue: from now on `send` fails.
    pub fn close(&mut self)
        ensures
            final(self)@ == (QueueView { closed: true, ..old(self)@ }),
    {
        self.closed = true;
    }

    /// Whether the queue is closed.
    pub fn is_closed(&self) -> (closed: bool)
        ensures
            closed == self@.closed,
    {
        self.closed
    }

    /// Number of waiting messages.
    pub fn len(&self) -> (n: usize)
        ensures
            n == self@.messages.len(),
    {
        self.messages.len()
    }

    /// Whether no message is waiting.
    pub fn is_empty(&self) -> (empty: bool)
        ensures
            empty == (self@.messages.len() == 0),
    {
        self.messages.len() == 0
    }
}

} // verus!

//! The messages shown to the user, newest last, never more than a bound.

use vstd::prelude::*;
use vstd::string::*;
use std::collections::VecDeque;
use crate::protocol::Timestamp;

verus! {

/// How many messages a log keeps at most, unless told otherwise.
pub const DEFAULT_LOG_CAPACITY: usize = 1000;

/// One line of the conversation as it is shown to the user.
#[derive(Debug, PartialEq)]
pub struct ChatMessage {
    /// The text of the line.
    pub text: String,
    /// Who wrote it.
    pub sender: String,
    /// When it was written or received.
    pub timestamp: Timestamp,
    /// Whether it travelled encrypted.
    pub is_encrypted: bool,
    /// Whether it stands for a file.
    pub is_file: bool,
}

/// Mathematical view of a [`ChatMessage`].
pub struct ChatMessageView {
    pub text: Seq<char>,
    pub sender: Seq<char>,
    pub timestamp: Timestamp,
    pub is_encrypted: bool,
    pub is_file: bool,
}

impl View for ChatMessage {
    type V = ChatMessageView;

    open spec fn view(&self) -> ChatMessageView {
        ChatMessageView {
            text: self.text@,
            sender: self.sender@,
            timestamp: self.timestamp,
            is_encrypted: self.is_encrypted,
            is_file: self.is_file,
        }
    }
}

impl Clone for ChatMessage {
    fn clone(&self) -> (r: Self)
        ensures
            r@ == self@,
    {
        ChatMessage {
            text: self.text.clone(),
            sender: self.sender.clone(),
            timestamp: self.timestamp,
            is_encrypted: self.is_encrypted,
            is_file: self.is_file,
        }
    }
}

impl Default for ChatMessage {
    /// An empty line from nobody, written now.
    fn default() -> (message: ChatMessage)
        ensures
            message.text@.len() == 0,
            message.sender@.len() == 0,
            message.timestamp.is_valid(),
            !message.is_encrypted,
            !message.is_file,
    {
        ChatMessage {
            text: String::new(),
            sender: String::new(),
            timestamp: Timestamp::now(),
            is_encrypted: false,
            is_file: false,
        }
    }
}

/// The views of a sequence of lines.
pub open spec fn line_views(lines: Seq<ChatMessage>) -> Seq<ChatMessageView> {
    lines.map_values(|m: ChatMessage| m@)
}

/// The last `capacity` elements of `lines`, or all of them if there are
/// fewer.
pub open spec fn most_recent<T>(lines: Seq<T>, capacity: nat) -> Seq<T> {
    if lines.len() <= capacity {
        lines
    } else {
        lines.skip(lines.len() - capacity)
    }
}

/// The conversation as shown to the user: the most recent lines, oldest
/// first, never more than the capacity.
pub struct ChatLog {
    messages: VecDeque<ChatMessage>,
    capacity: usize,
}

/// What a log holds, as plain values.
pub struct ChatLogView {
    /// The lines, oldest first.
    pub lines: Seq<ChatMessageView>,
    /// The most lines the log keeps.
    pub capacity: nat,
}

impl View for ChatLog {
    type V = ChatLogView;

    closed spec fn view(&self) -> ChatLogView {
        ChatLogView { lines: line_views(self.messages@), capacity: self.capacity as nat }
    }
}

impl ChatLog {
    /// The log never holds more lines than its capacity.
    pub closed spec fn wf(&self) -> bool {
        self.messages@.len() <= self.capacity
    }

    /// An empty log that keeps at most `capacity` lines.
    pub fn new(capacity: usize) -> (log: ChatLog)
        ensures
            log.wf(),
            log@.lines.len() == 0,
            log@.capacity == capacity,
    {
        ChatLog { messages: VecDeque::new(), capacity }
    }

    /// Adds a line at the end and drops the oldest line if the log is full.
    pub fn add_message(&mut self, message: ChatMessage)
        requires
            old(self).wf(),
        ensures
            final(self).wf(),
            final(self)@.capacity == old(self)@.capacity,
            final(self)@.lines == most_recent(
                old(self)@.lines.push(message@),
                old(self)@.capacity,
            ),
            final(self)@.lines.len() <= final(self)@.capacity,
    {
        self.messages.push_back(message);
        assert(line_views(self.messages@) =~= line_views(old(self).messages@).push(message@));
        if self.messages.len() > self.capacity {
            let ghost before = self.messages@;
            let _ = self.messages.pop_front();
            assert(line_views(self.messages@) =~= line_views(before).skip(1));
        }
    }

    /// Number of lines in the log.
    pub fn len(&self) -> (n: usize)
        ensures
            n == self@.lines.len(),
    {
        self.messages.len()
    }

    /// The most lines the log keeps.
    pub fn capacity(&self) -> (n: usize)
        ensures
            n == self@.capacity,
    {
        self.capacity
    }

    /// The line at position `index`, counted from the oldest.
    pub fn get(&self, index: usize) -> (r: Option<&ChatMessage>)
        ensures
            match r {
                Some(line) => index < self@.lines.len() && line@ == self@.lines[index as int],
                None => index >= self@.lines.len(),
            },
    {
        if index < self.messages.len() {
            Some(&self.messages[index])
        } else {
            None
        }
    }
}

} // verus!

//! The control channel: an unbounded first-in, first-out queue of messages.

use std::collections::VecDeque;
use vstd::prelude::*;
use crate::message::Message;

verus! {

/// The queue between the pool and its workers. Messages leave it in the
/// order in which they were sent, each exactly once.
pub struct ControlChannel<J> {
    queue: VecDeque<Message<J>>,
}

impl<J> View for ControlChannel<J> {
    type V = Seq<Message<J>>;

    /// The messages that wait, oldest first.
    closed spec fn view(&self) -> Seq<Message<J>> {
        self.queue@
    }
}

impl<J> ControlChannel<J> {
    /// An empty channel.
    pub fn new() -> (channel: Self)
        ensures
            channel@ == Seq::<Message<J>>::empty(),
    {
        ControlChannel { queue: VecDeque::new() }
    }

    /// Appends `message` behind everything sent before it.
    pub fn send(&mut self, message: Message<J>)
        ensures
            final(self)@ == old(self)@.push(message),
    {
        self.queue.push_back(message);
    }

    /// Takes the oldest message, if any waits. `None` means that a worker
    /// would have to wait; the channel is then unchanged.
    pub fn receive(&mut self) -> (message: Option<Message<J>>)
        ensures
            old(self)@.len() == 0 ==> message is None && final(self)@ == old(self)@,
            old(self)@.len() > 0 ==> message == Some(old(self)@[0])
                && final(self)@ == old(self)@.drop_first(),
    {
        self.queue.pop_front()
    }

    /// The number of messages that wait.
    pub fn len(&self) -> (n: usize)
        ensures
            n == self@.len(),
    {
        self.queue.len()
    }

    /// Whether no message waits.
    pub fn is_empty(&self) -> (b: bool)
        ensures
            b == (self@.len() == 0),
    {
        self.queue.len() == 0
    }
}

} // verus!

//! What travels on the control channel.

use vstd::prelude::*;

verus! {

/// One message from the pool to its workers: a job to run, or the signal
/// that tells exactly one worker to leave its loop.
pub enum Message<J> {
    NewJob(J),
    Terminate,
}

impl<J> Message<J> {
    /// Whether this message is the stop signal.
    pub fn is_terminate(&self) -> (b: bool)
        ensures
            b == (*self is Terminate),
    {
        match self {
            Message::NewJob(_) => false,
            Message::Terminate => true,
        }
    }
}

} // verus!

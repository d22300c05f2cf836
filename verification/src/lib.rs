//! The dispatch core of a fixed-size worker pool, with the request routing
//! and response framing of the small web server that it serves.
//!
//! The pool is a sequential state machine: a caller submits jobs, each worker
//! asks for its next action, and shutdown queues one stop signal per worker.
//! Threads, locks and sockets belong to the program around this library; every
//! decision that the pool makes is made, and proved, here.

pub mod message;
pub mod channel;
pub mod worker;
pub mod model;
pub mod pool;
pub mod http;

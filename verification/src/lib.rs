//! Moves the threads of one channel into another: lists the archived threads
//! of a source channel, reads each thread's messages, marks every change of
//! speaker, redacts e-mail addresses and replays the result in the
//! destination, one thread after the other.
//!
//! Nothing in this crate talks to the network. Every component that needs the
//! platform is written as a function from the reply to the last request to the
//! next request, so that the caller performs the requests and the rules that
//! decide them are proved here.

pub mod attachments;
pub mod batching;
pub mod channel;
pub mod driver;
pub mod driver_runs;
pub mod enumerator;
pub mod identification;
pub mod listing_runs;
pub mod messages;
pub mod pairing;
pub mod redaction;
pub mod text;
pub mod thread_runs;
pub mod threads;

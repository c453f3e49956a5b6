//! Anonymous analytics events: what one carries, how they wait in a queue of
//! JSON lines, and when they are sent.

pub mod config;
pub mod event;
pub mod identity;
pub mod lines;
pub mod queue;
pub mod send;
pub mod worker;

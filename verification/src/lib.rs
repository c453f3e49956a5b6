//! Two small plugins for desktop and mobile apps, and the proofs that go with
//! them.
//!
//! `update_gate` reads one document and says whether the running copy is too
//! old to keep running; it fails open. `posthog` keeps anonymous analytics
//! events in a queue of JSON lines and decides when they are sent.
//!
//! Nothing here touches the network or a file: the program around the library
//! performs what a step asks for and reports back what came of it.

pub mod clock;
pub mod json;
pub mod posthog;
pub mod text;
pub mod update_gate;

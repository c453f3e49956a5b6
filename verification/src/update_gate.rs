//! Tells an app whether the installed copy is too old to run, from one JSON
//! document. A gate that cannot be read is open.

pub mod decide;
pub mod language;
pub mod source;
pub mod version;

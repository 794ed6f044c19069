//! Platform backends: the parts of them that compute rather than talk to the
//! operating system.
pub mod ios;
pub mod linux;

//! What the user and the protocol are set up with.
pub mod protocol;
pub mod user;

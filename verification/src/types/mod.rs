//! Remotes, and the transfers and messages exchanged with them.
pub mod message;
pub mod remote;
pub mod transfer;

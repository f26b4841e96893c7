//! Moving files.
pub mod transfer_sender;

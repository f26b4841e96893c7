//! Sending files and messages to the other machines on a local network.
pub mod config;
pub mod grpc;
pub mod lookup;
pub mod platform;
pub mod proto;
pub mod server;
pub mod text;
pub mod types;

pub use server::remote_manager;
pub use server::remote_worker::ConnectRemoteError;
pub use server::{WarpinatorBuildError, WarpinatorServeError, WarpinatorServer};

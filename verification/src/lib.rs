//! Worker side of a coordinator-driven proof-of-work pool.
//!
//! The crate holds the pure logic of the worker and proves it: the wire codec,
//! the credential binder, the nonce search with its reduction, and the session
//! state machine. Network, threads and terminal output live outside.

pub mod ambient;
pub mod codec;
pub mod credential;
pub mod endpoint;
pub mod hashing;
pub mod identity;
pub mod le;
pub mod search;
pub mod session;

pub use codec::ServerMessage;
pub use session::MineArgs;

//! The client implementation.

pub mod album_art;
pub mod controller;
pub mod error;
pub mod handshake;
pub mod idler;
pub mod runtime;
pub mod subsystem;

pub use self::controller::ClientController;
pub use self::error::{CommandError, ConnectWithPasswordError, ConnectionError};
pub use self::idler::ClientIdler;
pub use self::subsystem::{ConnectionEvent, Subsystem};

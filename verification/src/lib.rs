//! A client for the Music Player Daemon (MPD).
//!
//! Everything that the client decides is here: how a connection is set up, which command is sent
//! when, who gets which response, what a response means. None of it does any I/O.

pub mod buffer;
pub mod channel;
pub mod client;
pub mod commands;
pub mod protocol;
pub mod responses;
pub mod text;

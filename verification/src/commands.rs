//! Commands that know how to read the response to them.

use vstd::prelude::*;

use mpd_protocol::command::Command as RawCommand;
use mpd_protocol::command::CommandList as RawCommandList;
use mpd_protocol::response::Frame;

use crate::responses::TypedResponseError;

verus! {

/// A command with a typed response.
pub trait Command: Sized {
    /// The response to the command.
    type Response;

    /// The command as it is sent.
    fn command(&self) -> RawCommand;

    /// Reads the response to the command.
    fn response(self, frame: Frame) -> Result<Self::Response, TypedResponseError>;
}

/// Several commands that are sent together, with a typed response.
pub trait CommandList: Sized {
    /// The response to the commands.
    type Response;

    /// The commands as they are sent, or `None` if there are none.
    fn command_list(&self) -> Option<RawCommandList>;

    /// Reads the responses to the commands.
    fn responses(self, frames: Vec<Frame>) -> Result<Self::Response, TypedResponseError>;
}

} // verus!

//! The errors of the client.

use vstd::prelude::*;
use vstd::string::StringExecFns;

use mpd_protocol::response::Frame;
use mpd_protocol::MpdProtocolError;

use crate::protocol::{ErrorReply, ErrorReplyView};
use crate::responses::TypedResponseError;
use crate::text::{decimal, to_decimal};

verus! {

/// Errors which can occur when issuing a command.
#[derive(Debug)]
pub enum CommandError {
    /// The connection to MPD was closed cleanly
    ConnectionClosed,
    /// An underlying protocol error occurred, including IO errors
    Protocol(MpdProtocolError),
    /// Command returned an error
    ErrorResponse {
        /// The error
        error: ErrorReply,
        /// Possible successful frames in the same response, empty if not in a command list
        succesful_frames: Vec<Frame>,
    },
    /// A typed command failed to convert its response.
    InvalidTypedResponse(TypedResponseError),
}

/// The error that lies behind another one.
pub enum ErrorSource<'a> {
    Protocol(&'a MpdProtocolError),
    TypedResponse(&'a TypedResponseError),
}

impl CommandError {
    /// Whether this is the error response with the given error, after the given frames.
    pub open spec fn is_error_response(self, error: ErrorReplyView, frames: Seq<Frame>) -> bool {
        self matches CommandError::ErrorResponse { error: reply, succesful_frames } && reply@
            == error && succesful_frames@ == frames
    }

    /// The text that describes this error.
    pub open spec fn description(self) -> Seq<char> {
        match self {
            CommandError::ConnectionClosed => "the connection is closed"@,
            CommandError::Protocol(_) => "protocol error"@,
            CommandError::InvalidTypedResponse(_) => "response was invalid for typed command"@,
            CommandError::ErrorResponse { error, succesful_frames } => {
                let head = "command returned an error [code "@ + decimal(error.code as nat)
                    + "]: "@ + error.message@;
                if succesful_frames@.len() == 0 {
                    head
                } else {
                    head + " (after "@ + decimal(succesful_frames@.len()) + " succesful frames)"@
                }
            },
        }
    }

    /// Describes the error.
    pub fn message(&self) -> (text: String)
        ensures
            text@ == self.description(),
    {
        match self {
            CommandError::ConnectionClosed => "the connection is closed".to_owned(),
            CommandError::Protocol(_) => "protocol error".to_owned(),
            CommandError::InvalidTypedResponse(_) => {
                "response was invalid for typed command".to_owned()
            },
            CommandError::ErrorResponse { error, succesful_frames } => {
                let mut text = "command returned an error [code ".to_owned();
                text.append(to_decimal(error.code).as_str());
                text.append("]: ");
                text.append(error.message.as_str());
                if succesful_frames.len() > 0 {
                    text.append(" (after ");
                    text.append(to_decimal(succesful_frames.len() as u64).as_str());
                    text.append(" succesful frames)");
                }
                text
            },
        }
    }

    /// The error that caused this one.
    pub fn source(&self) -> (source: Option<ErrorSource<'_>>)
        ensures
            source == (match *self {
                CommandError::Protocol(e) => Some(ErrorSource::Protocol(&e)),
                CommandError::InvalidTypedResponse(e) => Some(ErrorSource::TypedResponse(&e)),
                _ => None,
            }),
    {
        match self {
            CommandError::Protocol(e) => Some(ErrorSource::Protocol(e)),
            CommandError::InvalidTypedResponse(e) => Some(ErrorSource::TypedResponse(e)),
            _ => None,
        }
    }
}

impl From<MpdProtocolError> for CommandError {
    fn from(e: MpdProtocolError) -> (error: Self) {
        CommandError::Protocol(e)
    }
}

impl vstd::std_specs::convert::FromSpecImpl<MpdProtocolError> for CommandError {
    open spec fn obeys_from_spec() -> bool {
        true
    }

    open spec fn from_spec(e: MpdProtocolError) -> Self {
        CommandError::Protocol(e)
    }
}

impl From<TypedResponseError> for CommandError {
    fn from(e: TypedResponseError) -> (error: Self) {
        CommandError::InvalidTypedResponse(e)
    }
}

impl vstd::std_specs::convert::FromSpecImpl<TypedResponseError> for CommandError {
    open spec fn obeys_from_spec() -> bool {
        true
    }

    open spec fn from_spec(e: TypedResponseError) -> Self {
        CommandError::InvalidTypedResponse(e)
    }
}

/// Error returned when connecting with a password fails.
#[derive(Debug)]
pub enum ConnectWithPasswordError {
    /// The provided password was not accepted by the server.
    IncorrectPassword,
    /// An unrelated protocol error occurred.
    ProtocolError(MpdProtocolError),
}

impl ConnectWithPasswordError {
    /// Describes the error.
    pub fn message(&self) -> (text: &'static str)
        ensures
            text@ == (match *self {
                ConnectWithPasswordError::IncorrectPassword => "incorrect password"@,
                ConnectWithPasswordError::ProtocolError(_) => "protocol error"@,
            }),
    {
        match self {
            ConnectWithPasswordError::IncorrectPassword => "incorrect password",
            ConnectWithPasswordError::ProtocolError(_) => "protocol error",
        }
    }

    /// The error that caused this one.
    pub fn source(&self) -> (source: Option<ErrorSource<'_>>)
        ensures
            source == (match *self {
                ConnectWithPasswordError::ProtocolError(e) => Some(ErrorSource::Protocol(&e)),
                ConnectWithPasswordError::IncorrectPassword => None,
            }),
    {
        match self {
            ConnectWithPasswordError::ProtocolError(e) => Some(ErrorSource::Protocol(e)),
            ConnectWithPasswordError::IncorrectPassword => None,
        }
    }
}

impl From<MpdProtocolError> for ConnectWithPasswordError {
    fn from(e: MpdProtocolError) -> (error: Self) {
        ConnectWithPasswordError::ProtocolError(e)
    }
}

impl vstd::std_specs::convert::FromSpecImpl<MpdProtocolError> for ConnectWithPasswordError {
    open spec fn obeys_from_spec() -> bool {
        true
    }

    open spec fn from_spec(e: MpdProtocolError) -> Self {
        ConnectWithPasswordError::ProtocolError(e)
    }
}

/// Errors which result in the connection being closed.
#[derive(Debug)]
pub enum ConnectionError {
    /// An underlying protocol error occurred, including IO errors.
    Protocol(MpdProtocolError),
    /// An invalid response was received (such as in response to the `idle` commands).
    InvalidResponse,
}

impl ConnectionError {
    /// Describes the error.
    pub fn message(&self) -> (text: &'static str)
        ensures
            text@ == (match *self {
                ConnectionError::Protocol(_) => "protocol error"@,
                ConnectionError::InvalidResponse => "invalid response"@,
            }),
    {
        match self {
            ConnectionError::Protocol(_) => "protocol error",
            ConnectionError::InvalidResponse => "invalid response",
        }
    }

    /// The error that caused this one.
    pub fn source(&self) -> (source: Option<ErrorSource<'_>>)
        ensures
            source == (match *self {
                ConnectionError::Protocol(e) => Some(ErrorSource::Protocol(&e)),
                ConnectionError::InvalidResponse => None,
            }),
    {
        match self {
            ConnectionError::Protocol(e) => Some(ErrorSource::Protocol(e)),
            ConnectionError::InvalidResponse => None,
        }
    }
}

impl From<MpdProtocolError> for ConnectionError {
    fn from(e: MpdProtocolError) -> (error: Self) {
        ConnectionError::Protocol(e)
    }
}

impl vstd::std_specs::convert::FromSpecImpl<MpdProtocolError> for ConnectionError {
    open spec fn obeys_from_spec() -> bool {
        true
    }

    open spec fn from_spec(e: MpdProtocolError) -> Self {
        ConnectionError::Protocol(e)
    }
}

/// An error response is described by its code, its message and the number of frames before it, if
/// there are any. The other errors each have a description of their own.
pub proof fn law_errors_are_described(error: CommandError, text: String)
    requires
        call_ensures(CommandError::message, (&error,), text),
    ensures
        error is ConnectionClosed ==> text@ == "the connection is closed"@,
        error is Protocol ==> text@ == "protocol error"@,
        error is InvalidTypedResponse ==> text@ == "response was invalid for typed command"@,
        error matches CommandError::ErrorResponse { error: reply, succesful_frames } ==> {
            let head = "command returned an error [code "@ + decimal(reply.code as nat) + "]: "@
                + reply.message@;
            &&& succesful_frames@.len() == 0 ==> text@ == head
            &&& succesful_frames@.len() > 0 ==> text@ == head + " (after "@ + decimal(
                succesful_frames@.len(),
            ) + " succesful frames)"@
        },
{
}

/// Each error tells the error that caused it, if there is one.
pub proof fn law_errors_tell_their_cause<'a>(
    command: &'a CommandError,
    connect: &'a ConnectWithPasswordError,
    connection: &'a ConnectionError,
    sources: (Option<ErrorSource<'a>>, Option<ErrorSource<'a>>, Option<ErrorSource<'a>>),
)
    requires
        call_ensures(CommandError::source, (command,), sources.0),
        call_ensures(ConnectWithPasswordError::source, (connect,), sources.1),
        call_ensures(ConnectionError::source, (connection,), sources.2),
    ensures
        match *command {
            CommandError::Protocol(e) => sources.0 matches Some(ErrorSource::Protocol(cause))
                && *cause == e,
            CommandError::InvalidTypedResponse(e) => sources.0 matches Some(
                ErrorSource::TypedResponse(cause),
            ) && *cause == e,
            _ => sources.0 is None,
        },
        match *connect {
            ConnectWithPasswordError::ProtocolError(e) => sources.1 matches Some(
                ErrorSource::Protocol(cause),
            ) && *cause == e,
            ConnectWithPasswordError::IncorrectPassword => sources.1 is None,
        },
        match *connection {
            ConnectionError::Protocol(e) => sources.2 matches Some(ErrorSource::Protocol(cause))
                && *cause == e,
            ConnectionError::InvalidResponse => sources.2 is None,
        },
{
}

/// The errors of connecting and of a connection each have a description of their own.
pub proof fn law_connection_errors_are_described(
    connect: ConnectWithPasswordError,
    connection: ConnectionError,
    texts: (&'static str, &'static str),
)
    requires
        call_ensures(ConnectWithPasswordError::message, (&connect,), texts.0),
        call_ensures(ConnectionError::message, (&connection,), texts.1),
    ensures
        connect is IncorrectPassword ==> texts.0@ == "incorrect password"@,
        connect is ProtocolError ==> texts.0@ == "protocol error"@,
        connection is Protocol ==> texts.1@ == "protocol error"@,
        connection is InvalidResponse ==> texts.1@ == "invalid response"@,
{
}

/// An error keeps the error that it is made from.
pub proof fn law_errors_keep_what_they_are_made_from(
    e: MpdProtocolError,
    t: TypedResponseError,
    made: (CommandError, ConnectWithPasswordError, ConnectionError),
    typed: CommandError,
)
    requires
        call_ensures(<CommandError as From<MpdProtocolError>>::from, (e,), made.0),
        call_ensures(<ConnectWithPasswordError as From<MpdProtocolError>>::from, (e,), made.1),
        call_ensures(<ConnectionError as From<MpdProtocolError>>::from, (e,), made.2),
        call_ensures(<CommandError as From<TypedResponseError>>::from, (t,), typed),
    ensures
        made.0 == CommandError::Protocol(e),
        made.1 == ConnectWithPasswordError::ProtocolError(e),
        made.2 == ConnectionError::Protocol(e),
        typed == CommandError::InvalidTypedResponse(t),
{
}

} // verus!

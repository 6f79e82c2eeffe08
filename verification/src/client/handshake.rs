//! How a connection is set up: the greeting of the server, then the password if there is one.
//!
//! The handshake does no I/O. Each step says what to do next, and takes the outcome of it.

use vstd::pervasive::unreached;
use vstd::prelude::*;

use mpd_protocol::command::Command as RawCommand;
use mpd_protocol::response::Response;
use mpd_protocol::MpdProtocolError;

use crate::client::error::ConnectWithPasswordError;
use crate::protocol::{
    command_line, first_error, io_error, is_error, law_an_error_is_found,
    law_arguments_are_sent_unambiguously, new_command, new_io_error, rendered_argument,
    response_items, with_argument, IoErrorKind,
};

verus! {

/// How far a connection has been set up.
pub enum Handshake {
    /// The connection is being opened, which ends with the greeting of the server.
    Connecting {
        /// The password to send after the greeting.
        password: Option<String>,
    },
    /// The password is being sent.
    SendingPassword {
        /// The protocol version that the server greeted with.
        protocol_version: String,
    },
    /// The password was sent, and the reply to it is due.
    AwaitingReply {
        /// The protocol version that the server greeted with.
        protocol_version: String,
    },
}

/// The contents of a [`Handshake`].
#[verifier::ext_equal]
pub enum HandshakeView {
    Connecting { password: Option<Seq<char>> },
    SendingPassword { protocol_version: Seq<char> },
    AwaitingReply { protocol_version: Seq<char> },
}

/// The outcome of what the handshake was waiting for.
pub enum HandshakeEvent {
    /// The connection was opened and the server sent its protocol version, or this failed.
    Connected(Result<String, MpdProtocolError>),
    /// The password command was sent, or this failed.
    Sent(Result<(), MpdProtocolError>),
    /// A response was received, the connection was closed cleanly, or receiving failed.
    Received(Result<Option<Response>, MpdProtocolError>),
}

/// What to do next.
pub enum HandshakeStep {
    /// Send a command, and go on with the outcome.
    Send {
        /// The handshake, waiting for the command to be sent.
        next: Handshake,
        /// The command.
        command: RawCommand,
    },
    /// Receive a response, and go on with it.
    Receive {
        /// The handshake, waiting for the response.
        next: Handshake,
    },
    /// The handshake is over: the connection is ready, with this protocol version, or failed.
    Done(Result<String, ConnectWithPasswordError>),
}

/// The contents of a [`HandshakeStep`].
#[verifier::ext_equal]
pub enum HandshakeStepView {
    Send { next: HandshakeView, command: Seq<char> },
    Receive { next: HandshakeView },
    Done(Result<Seq<char>, ConnectWithPasswordError>),
}

impl View for Handshake {
    type V = HandshakeView;

    open spec fn view(&self) -> HandshakeView {
        match self {
            Handshake::Connecting { password } => HandshakeView::Connecting {
                password: match password {
                    Some(password) => Some(password@),
                    None => None,
                },
            },
            Handshake::SendingPassword { protocol_version } => HandshakeView::SendingPassword {
                protocol_version: protocol_version@,
            },
            Handshake::AwaitingReply { protocol_version } => HandshakeView::AwaitingReply {
                protocol_version: protocol_version@,
            },
        }
    }
}

impl View for HandshakeStep {
    type V = HandshakeStepView;

    open spec fn view(&self) -> HandshakeStepView {
        match self {
            HandshakeStep::Send { next, command } => HandshakeStepView::Send {
                next: next@,
                command: command_line(*command),
            },
            HandshakeStep::Receive { next } => HandshakeStepView::Receive { next: next@ },
            HandshakeStep::Done(Ok(protocol_version)) => HandshakeStepView::Done(
                Ok(protocol_version@),
            ),
            HandshakeStep::Done(Err(e)) => HandshakeStepView::Done(Err(*e)),
        }
    }
}

/// The command that sends a password.
pub open spec fn password_line(password: Seq<char>) -> Seq<char> {
    "password"@.push(' ') + rendered_argument(password)
}

/// The error for a connection that is closed before the password was answered.
pub open spec fn closed_early() -> ConnectWithPasswordError {
    ConnectWithPasswordError::ProtocolError(
        io_error(
            IoErrorKind::UnexpectedEof,
            "connection closed while waiting for reply to password"@,
        ),
    )
}

impl HandshakeView {
    /// Whether the handshake waits for an event of this kind, and can take this one: a password
    /// that is to be sent must not contain a newline.
    pub open spec fn expects(self, event: HandshakeEvent) -> bool {
        match (self, event) {
            (
                HandshakeView::Connecting { password: Some(password) },
                HandshakeEvent::Connected(Ok(_)),
            ) => !password.contains('\n'),
            (HandshakeView::Connecting { .. }, HandshakeEvent::Connected(_)) => true,
            (HandshakeView::SendingPassword { .. }, HandshakeEvent::Sent(_)) => true,
            (HandshakeView::AwaitingReply { .. }, HandshakeEvent::Received(_)) => true,
            _ => false,
        }
    }

    /// What to do after an event.
    pub open spec fn next(self, event: HandshakeEvent) -> HandshakeStepView {
        match (self, event) {
            (_, HandshakeEvent::Connected(Err(e))) => HandshakeStepView::Done(
                Err(ConnectWithPasswordError::ProtocolError(e)),
            ),
            (
                HandshakeView::Connecting { password: None },
                HandshakeEvent::Connected(Ok(version)),
            ) => HandshakeStepView::Done(Ok(version@)),
            (
                HandshakeView::Connecting { password: Some(password) },
                HandshakeEvent::Connected(Ok(version)),
            ) => HandshakeStepView::Send {
                next: HandshakeView::SendingPassword { protocol_version: version@ },
                command: password_line(password),
            },
            (_, HandshakeEvent::Sent(Err(e))) => HandshakeStepView::Done(
                Err(ConnectWithPasswordError::ProtocolError(e)),
            ),
            (
                HandshakeView::SendingPassword { protocol_version },
                HandshakeEvent::Sent(Ok(())),
            ) => HandshakeStepView::Receive {
                next: HandshakeView::AwaitingReply { protocol_version },
            },
            (_, HandshakeEvent::Received(Err(e))) => HandshakeStepView::Done(
                Err(ConnectWithPasswordError::ProtocolError(e)),
            ),
            (_, HandshakeEvent::Received(Ok(None))) => HandshakeStepView::Done(
                Err(closed_early()),
            ),
            (
                HandshakeView::AwaitingReply { protocol_version },
                HandshakeEvent::Received(Ok(Some(response))),
            ) => if first_error(response_items(response)) is Some {
                HandshakeStepView::Done(Err(ConnectWithPasswordError::IncorrectPassword))
            } else {
                HandshakeStepView::Done(Ok(protocol_version))
            },
            _ => arbitrary(),
        }
    }
}

impl Handshake {
    /// Starts a handshake: the connection is to be opened.
    pub fn start(password: Option<&str>) -> (handshake: Handshake)
        ensures
            handshake@ == (HandshakeView::Connecting {
                password: match password {
                    Some(password) => Some(password@),
                    None => None,
                },
            }),
    {
        Handshake::Connecting {
            password: match password {
                Some(password) => Some(password.to_owned()),
                None => None,
            },
        }
    }

    /// Takes the outcome of what the handshake was waiting for.
    pub fn step(self, event: HandshakeEvent) -> (step: HandshakeStep)
        requires
            self@.expects(event),
        ensures
            step@ == self@.next(event),
    {
        match (self, event) {
            (_, HandshakeEvent::Connected(Err(e))) => HandshakeStep::Done(
                Err(ConnectWithPasswordError::from(e)),
            ),
            (
                Handshake::Connecting { password: None },
                HandshakeEvent::Connected(Ok(protocol_version)),
            ) => HandshakeStep::Done(Ok(protocol_version)),
            (
                Handshake::Connecting { password: Some(password) },
                HandshakeEvent::Connected(Ok(protocol_version)),
            ) => HandshakeStep::Send {
                next: Handshake::SendingPassword { protocol_version },
                command: password_command(password),
            },
            (_, HandshakeEvent::Sent(Err(e))) => HandshakeStep::Done(
                Err(ConnectWithPasswordError::from(e)),
            ),
            (
                Handshake::SendingPassword { protocol_version },
                HandshakeEvent::Sent(Ok(())),
            ) => HandshakeStep::Receive { next: Handshake::AwaitingReply { protocol_version } },
            (_, HandshakeEvent::Received(Err(e))) => HandshakeStep::Done(
                Err(ConnectWithPasswordError::from(e)),
            ),
            (_, HandshakeEvent::Received(Ok(None))) => HandshakeStep::Done(
                Err(
                    ConnectWithPasswordError::from(
                        new_io_error(
                            IoErrorKind::UnexpectedEof,
                            "connection closed while waiting for reply to password",
                        ),
                    ),
                ),
            ),
            (
                Handshake::AwaitingReply { protocol_version },
                HandshakeEvent::Received(Ok(Some(response))),
            ) => {
                if is_error(&response) {
                    HandshakeStep::Done(Err(ConnectWithPasswordError::IncorrectPassword))
                } else {
                    HandshakeStep::Done(Ok(protocol_version))
                }
            },
            _ => unreached(),
        }
    }
}

/// The result of a handshake without a password. It can fail only with a protocol error.
pub fn without_password<T>(connected: Result<T, ConnectWithPasswordError>) -> (result: Result<
    T,
    MpdProtocolError,
>)
    requires
        connected != Err::<T, ConnectWithPasswordError>(
            ConnectWithPasswordError::IncorrectPassword,
        ),
    ensures
        connected == (match result {
            Ok(value) => Ok(value),
            Err(e) => Err(ConnectWithPasswordError::ProtocolError(e)),
        }),
{
    match connected {
        Ok(value) => Ok(value),
        Err(ConnectWithPasswordError::ProtocolError(e)) => Err(e),
        Err(ConnectWithPasswordError::IncorrectPassword) => unreached(),
    }
}

/// The command that sends a password.
fn password_command(password: String) -> (command: RawCommand)
    requires
        !password@.contains('\n'),
    ensures
        command_line(command) == password_line(password@),
{
    proof {
        reveal_strlit("password");
        reveal_strlit("command_list");
        assert("password"@.len() == 8);
        assert("command_list"@.len() == 12);
    }
    with_argument(new_command("password"), password)
}

/// Whether the events are ones that the handshake waits for, up to the one that ends it.
pub open spec fn is_run(state: HandshakeView, events: Seq<HandshakeEvent>) -> bool
    decreases events.len(),
{
    events.len() > 0 ==> state.expects(events[0]) && match state.next(events[0]) {
        HandshakeStepView::Send { next, .. } => is_run(next, events.drop_first()),
        HandshakeStepView::Receive { next } => is_run(next, events.drop_first()),
        HandshakeStepView::Done(_) => true,
    }
}

/// What the handshake ends with, if the events end it.
pub open spec fn outcome(state: HandshakeView, events: Seq<HandshakeEvent>) -> Option<
    Result<Seq<char>, ConnectWithPasswordError>,
>
    decreases events.len(),
{
    if events.len() == 0 {
        None
    } else {
        match state.next(events[0]) {
            HandshakeStepView::Send { next, .. } => outcome(next, events.drop_first()),
            HandshakeStepView::Receive { next } => outcome(next, events.drop_first()),
            HandshakeStepView::Done(result) => Some(result),
        }
    }
}

/// The commands that the handshake sends.
pub open spec fn sent_lines(state: HandshakeView, events: Seq<HandshakeEvent>) -> Seq<Seq<char>>
    decreases events.len(),
{
    if events.len() == 0 {
        seq![]
    } else {
        match state.next(events[0]) {
            HandshakeStepView::Send { next, command } => seq![command] + sent_lines(
                next,
                events.drop_first(),
            ),
            HandshakeStepView::Receive { next } => sent_lines(next, events.drop_first()),
            HandshakeStepView::Done(_) => seq![],
        }
    }
}

/// Whether the server greeted, the password could be sent, and a response came to it.
pub open spec fn is_answered(events: Seq<HandshakeEvent>) -> bool {
    &&& events.len() >= 3
    &&& events[0] matches HandshakeEvent::Connected(Ok(_))
    &&& events[1] matches HandshakeEvent::Sent(Ok(_))
    &&& events[2] matches HandshakeEvent::Received(Ok(Some(_)))
}

/// Without a password nothing is sent, the greeting alone decides, and the password is never
/// reported as incorrect.
pub proof fn law_connect_without_password(events: Seq<HandshakeEvent>)
    requires
        is_run(HandshakeView::Connecting { password: None }, events),
        events.len() > 0,
    ensures
        sent_lines(HandshakeView::Connecting { password: None }, events).len() == 0,
        outcome(HandshakeView::Connecting { password: None }, events) == Some(
            match events[0]->Connected_0 {
                Ok(version) => Ok(version@),
                Err(e) => Err(ConnectWithPasswordError::ProtocolError(e)),
            },
        ),
        outcome(HandshakeView::Connecting { password: None }, events) != Some(
            Err::<Seq<char>, ConnectWithPasswordError>(ConnectWithPasswordError::IncorrectPassword),
        ),
{
}

/// With a password, the connection is ready exactly when the server greeted, the password could be
/// sent and the reply to it has no error. The password is reported as incorrect exactly when the
/// reply has one.
pub proof fn law_connect_with_password(password: Seq<char>, events: Seq<HandshakeEvent>)
    requires
        is_run(HandshakeView::Connecting { password: Some(password) }, events),
    ensures
        ({
            let result = outcome(HandshakeView::Connecting { password: Some(password) }, events);
            let answered = is_answered(events);
            let failed = first_error(response_items(events[2]->Received_0->Ok_0->Some_0)) is Some;
            &&& result == Some(
                Err::<Seq<char>, ConnectWithPasswordError>(
                    ConnectWithPasswordError::IncorrectPassword,
                ),
            ) <==> answered && failed
            &&& (result matches Some(Ok(_))) <==> answered && !failed
            &&& result matches Some(Ok(version)) ==> version == events[0]->Connected_0->Ok_0@
        }),
{
    reveal_with_fuel(outcome, 4);
    reveal_with_fuel(is_run, 4);
    if events.len() > 1 {
        assert(events.drop_first()[0] == events[1]);
    }
    if events.len() > 2 {
        assert(events.drop_first().drop_first()[0] == events[2]);
    }
}

/// With a password, the one command that is sent is the password command, and only after the
/// server has greeted.
pub proof fn law_password_is_sent_once(password: Seq<char>, events: Seq<HandshakeEvent>)
    requires
        is_run(HandshakeView::Connecting { password: Some(password) }, events),
    ensures
        sent_lines(HandshakeView::Connecting { password: Some(password) }, events) == (if events.len()
            > 0 && (events[0] matches HandshakeEvent::Connected(Ok(_))) {
            seq![password_line(password)]
        } else {
            seq![]
        }),
{
    reveal_with_fuel(sent_lines, 4);
    reveal_with_fuel(is_run, 4);
    if events.len() > 1 {
        assert(events.drop_first()[0] == events[1]);
    }
    if events.len() > 2 {
        assert(events.drop_first().drop_first()[0] == events[2]);
    }
}

/// After the greeting the whole password is sent, just as it was given.
pub proof fn law_the_whole_password_is_sent(
    password: &str,
    handshake: Handshake,
    version: String,
    greeted: HandshakeStep,
)
    requires
        call_ensures(Handshake::start, (Some(password),), handshake),
        call_ensures(
            Handshake::step,
            (handshake, HandshakeEvent::Connected(Ok(version))),
            greeted,
        ),
    ensures
        greeted matches HandshakeStep::Send { command, .. } && command_line(command)
            == "password"@ + seq![' '] + rendered_argument(password@),
{
    assert(handshake@ == (HandshakeView::Connecting { password: Some(password@) }));
    assert("password"@.push(' ') == "password"@ + seq![' ']);
}

/// Two different passwords are never sent as the same line.
pub proof fn law_passwords_are_told_apart(
    left: &str,
    right: &str,
    handshakes: (Handshake, Handshake),
    versions: (String, String),
    commands: (RawCommand, RawCommand),
    nexts: (Handshake, Handshake),
)
    requires
        call_ensures(Handshake::start, (Some(left),), handshakes.0),
        call_ensures(Handshake::start, (Some(right),), handshakes.1),
        call_ensures(
            Handshake::step,
            (handshakes.0, HandshakeEvent::Connected(Ok(versions.0))),
            (HandshakeStep::Send { next: nexts.0, command: commands.0 }),
        ),
        call_ensures(
            Handshake::step,
            (handshakes.1, HandshakeEvent::Connected(Ok(versions.1))),
            (HandshakeStep::Send { next: nexts.1, command: commands.1 }),
        ),
        command_line(commands.0) == command_line(commands.1),
    ensures
        left@ == right@,
{
    let first = HandshakeStep::Send { next: nexts.0, command: commands.0 };
    let second = HandshakeStep::Send { next: nexts.1, command: commands.1 };
    law_the_whole_password_is_sent(left, handshakes.0, versions.0, first);
    law_the_whole_password_is_sent(right, handshakes.1, versions.1, second);
    let head = "password"@ + seq![' '];
    let n = head.len() as int;
    assert((head + rendered_argument(left@)).skip(n) == rendered_argument(left@));
    assert((head + rendered_argument(right@)).skip(n) == rendered_argument(right@));
    law_arguments_are_sent_unambiguously(left@, right@);
}

/// After the password was sent, the reply to it decides: the password is incorrect if an error is in
/// the reply, and else the connection is ready, with the protocol version of the greeting.
pub proof fn law_the_reply_to_the_password_decides(
    password: &str,
    handshake: Handshake,
    version: String,
    greeted: HandshakeStep,
    sent: HandshakeStep,
    response: Response,
    replied: HandshakeStep,
)
    requires
        call_ensures(Handshake::start, (Some(password),), handshake),
        call_ensures(
            Handshake::step,
            (handshake, HandshakeEvent::Connected(Ok(version))),
            greeted,
        ),
        call_ensures(
            Handshake::step,
            (greeted->Send_next, HandshakeEvent::Sent(Ok(()))),
            sent,
        ),
        call_ensures(
            Handshake::step,
            (sent->Receive_next, HandshakeEvent::Received(Ok(Some(response)))),
            replied,
        ),
    ensures
        greeted is Send,
        sent is Receive,
        (exists|i: int|
            0 <= i < response_items(response).len() && response_items(response)[i] is Err)
            ==> replied == HandshakeStep::Done(Err(ConnectWithPasswordError::IncorrectPassword)),
        (forall|i: int|
            0 <= i < response_items(response).len() ==> response_items(response)[i] is Ok) ==> (
        replied matches HandshakeStep::Done(Ok(kept)) && kept@ == version@),
{
    law_an_error_is_found(response_items(response));
    assert(handshake@ == (HandshakeView::Connecting { password: Some(password@) }));
    assert(greeted->Send_next@ == (HandshakeView::SendingPassword { protocol_version: version@ }));
    assert(sent->Receive_next@ == (HandshakeView::AwaitingReply { protocol_version: version@ }));
    assert(replied@ is Done);
}

/// Every failure on the way ends the handshake with that failure as a protocol error: of the
/// greeting, of sending the password and of receiving the reply. A connection that is closed before
/// the reply is an I/O error.
pub proof fn law_failures_end_the_handshake(
    password: Option<&str>,
    handshake: Handshake,
    version: String,
    greeted: HandshakeStep,
    sent: HandshakeStep,
    e: MpdProtocolError,
    results: (HandshakeStep, HandshakeStep, HandshakeStep, HandshakeStep),
)
    requires
        password is Some,
        call_ensures(Handshake::start, (password,), handshake),
        call_ensures(
            Handshake::step,
            (handshake, HandshakeEvent::Connected(Ok(version))),
            greeted,
        ),
        call_ensures(
            Handshake::step,
            (greeted->Send_next, HandshakeEvent::Sent(Ok(()))),
            sent,
        ),
        call_ensures(Handshake::step, (handshake, HandshakeEvent::Connected(Err(e))), results.0),
        call_ensures(
            Handshake::step,
            (greeted->Send_next, HandshakeEvent::Sent(Err(e))),
            results.1,
        ),
        call_ensures(
            Handshake::step,
            (sent->Receive_next, HandshakeEvent::Received(Err(e))),
            results.2,
        ),
        call_ensures(
            Handshake::step,
            (sent->Receive_next, HandshakeEvent::Received(Ok(None))),
            results.3,
        ),
    ensures
        results.0 == HandshakeStep::Done(Err(ConnectWithPasswordError::ProtocolError(e))),
        results.1 == HandshakeStep::Done(Err(ConnectWithPasswordError::ProtocolError(e))),
        results.2 == HandshakeStep::Done(Err(ConnectWithPasswordError::ProtocolError(e))),
        results.3 == HandshakeStep::Done(
            Err(
                ConnectWithPasswordError::ProtocolError(
                    io_error(
                        IoErrorKind::UnexpectedEof,
                        "connection closed while waiting for reply to password"@,
                    ),
                ),
            ),
        ),
{
    assert(results.0@ is Done);
    assert(results.1@ is Done);
    assert(results.2@ is Done);
    assert(results.3@ is Done);
}

/// Without a password the greeting ends the handshake: the connection is ready with the protocol
/// version of the greeting, or failed with the error in its place.
pub proof fn law_the_greeting_decides_without_a_password(
    handshake: Handshake,
    greeting: Result<String, MpdProtocolError>,
    greeted: HandshakeStep,
)
    requires
        call_ensures(Handshake::start, (None::<&str>,), handshake),
        call_ensures(Handshake::step, (handshake, HandshakeEvent::Connected(greeting)), greeted),
    ensures
        match greeting {
            Ok(version) => greeted matches HandshakeStep::Done(Ok(kept)) && kept@ == version@,
            Err(e) => greeted == HandshakeStep::Done(
                Err(ConnectWithPasswordError::ProtocolError(e)),
            ),
        },
{
    assert(handshake@ == (HandshakeView::Connecting { password: None }));
    assert(greeted@ is Done);
}

/// Without a password the result of connecting stays what it is: the connection, or the protocol
/// error.
pub proof fn law_results_without_a_password<T>(
    connected: Result<T, ConnectWithPasswordError>,
    result: Result<T, MpdProtocolError>,
)
    requires
        call_ensures(without_password::<T>, (connected,), result),
    ensures
        connected matches Ok(value) ==> result == Ok::<T, MpdProtocolError>(value),
        connected matches Err(ConnectWithPasswordError::ProtocolError(e)) ==> result == Err::<
            T,
            MpdProtocolError,
        >(e),
{
}

/// Every password without a newline can be used, and every outcome of what the handshake waits for
/// can be taken.
pub proof fn law_every_password_can_be_used(
    password: Option<&str>,
    handshake: Handshake,
    version: String,
    greeted: HandshakeStep,
    sent: HandshakeStep,
)
    requires
        call_ensures(Handshake::start, (password,), handshake),
        password matches Some(text) ==> forall|i: int| 0 <= i < text@.len() ==> text@[i] != '\n',
    ensures
        forall|greeting: Result<String, MpdProtocolError>|
            call_requires(Handshake::step, (handshake, HandshakeEvent::Connected(greeting))),
        password is Some && call_ensures(
            Handshake::step,
            (handshake, HandshakeEvent::Connected(Ok(version))),
            greeted,
        ) ==> forall|outcome: Result<(), MpdProtocolError>|
            call_requires(Handshake::step, (greeted->Send_next, HandshakeEvent::Sent(outcome))),
        password is Some && call_ensures(
            Handshake::step,
            (handshake, HandshakeEvent::Connected(Ok(version))),
            greeted,
        ) && call_ensures(
            Handshake::step,
            (greeted->Send_next, HandshakeEvent::Sent(Ok(()))),
            sent,
        ) ==> forall|outcome: Result<Option<Response>, MpdProtocolError>|
            call_requires(Handshake::step, (sent->Receive_next, HandshakeEvent::Received(outcome))),
{
}

} // verus!

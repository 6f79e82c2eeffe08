use std::collections::hash_map::DefaultHasher;
use std::hash::{Hash, Hasher};
use std::io::{self, Read, Write};

use mpd_client::client::handshake::{
    without_password, Handshake, HandshakeEvent, HandshakeStep,
};
use mpd_client::client::runtime::{
    cancel_idle, handle_command, handle_idle_response, handle_idle_sent, idle, start_idle_loop,
    ControlEvent, ControlLoopState, ControlStep, IdleAction, IdleEvent, IdleState, IdleStep,
};
use mpd_client::client::{
    CommandError, ConnectWithPasswordError, ConnectionError, ConnectionEvent, Subsystem,
};
use mpd_protocol::command::{Command as RawCommand, CommandList as RawCommandList};
use mpd_protocol::response::{Frame, Response};
use mpd_protocol::{Connection, MpdProtocolError};

/// Hands out a greeting, then the text of a response, and keeps what it is sent.
struct Server {
    chunks: Vec<Vec<u8>>,
    written: Vec<u8>,
}

impl Server {
    fn new(response: &str) -> Server {
        Server {
            chunks: vec![b"OK MPD 0.23.5\n".to_vec(), response.as_bytes().to_vec()],
            written: Vec::new(),
        }
    }
}

impl Read for Server {
    fn read(&mut self, buf: &mut [u8]) -> io::Result<usize> {
        if self.chunks.is_empty() {
            return Ok(0);
        }
        let chunk = self.chunks.remove(0);
        buf[..chunk.len()].copy_from_slice(&chunk);
        Ok(chunk.len())
    }
}

impl Write for Server {
    fn write(&mut self, buf: &[u8]) -> io::Result<usize> {
        self.written.extend_from_slice(buf);
        Ok(buf.len())
    }

    fn flush(&mut self) -> io::Result<()> {
        Ok(())
    }
}

fn response(text: &str) -> Response {
    Connection::connect(Server::new(text)).unwrap().receive().unwrap().unwrap()
}

fn frame(text: &str) -> Frame {
    response(text).into_single_frame().unwrap()
}

/// The line that a command is sent as.
fn line(command: RawCommand) -> String {
    let mut connection = Connection::connect(Server::new("")).unwrap();
    connection.send(command).unwrap();
    String::from_utf8(connection.into_inner().written).unwrap()
}

fn failure() -> MpdProtocolError {
    MpdProtocolError::InvalidMessage
}

// ---------------------------------------------------------------------------------------------
// Subsystems
// ---------------------------------------------------------------------------------------------

#[test]
fn every_subsystem_has_its_name() {
    let known = [
        (Subsystem::Database, "database"),
        (Subsystem::Message, "message"),
        (Subsystem::Mixer, "mixer"),
        (Subsystem::Options, "options"),
        (Subsystem::Output, "output"),
        (Subsystem::Partition, "partition"),
        (Subsystem::Player, "player"),
        (Subsystem::Queue, "playlist"),
        (Subsystem::Sticker, "sticker"),
        (Subsystem::StoredPlaylist, "stored_playlist"),
        (Subsystem::Subscription, "subscription"),
        (Subsystem::Update, "update"),
        (Subsystem::Neighbor, "neighbor"),
        (Subsystem::Mount, "mount"),
    ];
    for (subsystem, name) in known {
        assert_eq!(subsystem.as_str(), name);
        let read = Subsystem::from_name(name.to_string());
        assert_eq!(read, subsystem);
        assert_eq!(format!("{:?}", read), format!("{:?}", subsystem));
    }
}

#[test]
fn an_unknown_subsystem_keeps_its_name() {
    let read = Subsystem::from_name("Player".to_string());
    assert!(matches!(&read, Subsystem::Other(name) if &**name == "Player"));
    assert_eq!(read.as_str(), "Player");
    assert_ne!(read, Subsystem::Player);
}

#[test]
fn subsystems_are_compared_and_hashed_by_name() {
    let digest = |subsystem: &Subsystem| {
        let mut hasher = DefaultHasher::new();
        subsystem.hash(&mut hasher);
        hasher.finish()
    };
    let by_name = Subsystem::Other("playlist".into());
    assert_eq!(by_name, Subsystem::Queue);
    assert_eq!(digest(&by_name), digest(&Subsystem::Queue));
    let mut hasher = DefaultHasher::new();
    "playlist".hash(&mut hasher);
    assert_eq!(digest(&Subsystem::Queue), hasher.finish());
    assert_ne!(Subsystem::Queue, Subsystem::StoredPlaylist);
    assert_eq!(by_name.clone().as_str(), "playlist");
}

#[test]
fn a_frame_names_the_first_changed_subsystem() {
    assert_eq!(
        Subsystem::from_frame(frame("x: y\nchanged: mixer\nchanged: player\nOK\n")),
        Some(Subsystem::Mixer)
    );
    assert_eq!(Subsystem::from_frame(frame("Changed: mixer\nOK\n")), None);
    assert_eq!(Subsystem::from_frame(frame("OK\n")), None);
}

// ---------------------------------------------------------------------------------------------
// Handshake
// ---------------------------------------------------------------------------------------------

fn greeting(version: &str) -> HandshakeEvent {
    HandshakeEvent::Connected(Ok(version.to_string()))
}

/// Takes the handshake up to the point where the reply to the password is due.
fn password_sent(password: &str) -> (String, Handshake) {
    match Handshake::start(Some(password)).step(greeting("0.23.5")) {
        HandshakeStep::Send { next, command } => match next.step(HandshakeEvent::Sent(Ok(()))) {
            HandshakeStep::Receive { next } => (line(command), next),
            _ => panic!("the reply is not received"),
        },
        _ => panic!("the password is not sent"),
    }
}

#[test]
fn without_a_password_the_greeting_is_enough() {
    let step = Handshake::start(None).step(greeting("0.21.11"));
    assert!(matches!(step, HandshakeStep::Done(Ok(version)) if version == "0.21.11"));
}

#[test]
fn a_failed_greeting_ends_the_handshake() {
    for password in [None, Some("secret"), Some("with\nnewline")] {
        let step = Handshake::start(password).step(HandshakeEvent::Connected(Err(failure())));
        assert!(matches!(
            step,
            HandshakeStep::Done(Err(ConnectWithPasswordError::ProtocolError(
                MpdProtocolError::InvalidMessage
            )))
        ));
    }
}

#[test]
fn the_password_is_sent_escaped() {
    assert_eq!(password_sent("secret").0, "password secret\n");
    assert_eq!(password_sent("Joe's \"one\" \\ two").0, "password \"Joe\\'s \\\"one\\\" \\\\ two\"\n");
    assert_eq!(password_sent("a\tb").0, "password \"a\tb\"\n");
    assert_eq!(password_sent("").0, "password \n");
}

#[test]
fn an_accepted_password_opens_the_connection() {
    let (_, handshake) = password_sent("secret");
    let step = handshake.step(HandshakeEvent::Received(Ok(Some(response("OK\n")))));
    assert!(matches!(step, HandshakeStep::Done(Ok(version)) if version == "0.23.5"));
}

#[test]
fn a_refused_password_is_incorrect() {
    let (_, handshake) = password_sent("secret");
    let reply = response("ACK [3@0] {password} incorrect password\n");
    let step = handshake.step(HandshakeEvent::Received(Ok(Some(reply))));
    assert!(matches!(
        step,
        HandshakeStep::Done(Err(ConnectWithPasswordError::IncorrectPassword))
    ));
}

#[test]
fn a_connection_closed_before_the_reply_is_an_unexpected_end() {
    let (_, handshake) = password_sent("secret");
    match handshake.step(HandshakeEvent::Received(Ok(None))) {
        HandshakeStep::Done(Err(ConnectWithPasswordError::ProtocolError(
            MpdProtocolError::Io(e),
        ))) => {
            assert_eq!(e.kind(), io::ErrorKind::UnexpectedEof);
            assert_eq!(
                e.to_string(),
                "connection closed while waiting for reply to password"
            );
        }
        _ => panic!("not an I/O error"),
    }
}

#[test]
fn a_failure_around_the_password_is_a_protocol_error() {
    let sending = match Handshake::start(Some("secret")).step(greeting("0.23.5")) {
        HandshakeStep::Send { next, .. } => next,
        _ => panic!("the password is not sent"),
    };
    assert!(matches!(
        sending.step(HandshakeEvent::Sent(Err(failure()))),
        HandshakeStep::Done(Err(ConnectWithPasswordError::ProtocolError(_)))
    ));
    let (_, receiving) = password_sent("secret");
    assert!(matches!(
        receiving.step(HandshakeEvent::Received(Err(failure()))),
        HandshakeStep::Done(Err(ConnectWithPasswordError::ProtocolError(_)))
    ));
}

#[test]
fn errors_without_a_password_are_protocol_errors() {
    assert!(matches!(without_password::<u8>(Ok(3)), Ok(3)));
    let failed = without_password::<u8>(Err(ConnectWithPasswordError::from(failure())));
    assert!(matches!(failed, Err(MpdProtocolError::InvalidMessage)));
}

// ---------------------------------------------------------------------------------------------
// Control loop
// ---------------------------------------------------------------------------------------------

fn commands(name: &str) -> RawCommandList {
    RawCommandList::new(RawCommand::new(name))
}

#[test]
fn a_command_is_sent_and_its_response_handed_over() {
    let event = ControlEvent::Command(Some((commands("status"), 7u8)));
    let sending = match ControlLoopState::WaitingForCommand.step(event) {
        ControlStep::Send { next, commands: sent } => {
            assert_eq!(sent, commands("status"));
            next
        }
        _ => panic!("nothing is sent"),
    };
    assert_eq!(sending.name(), "SendingCommand");
    let waiting = match sending.step(ControlEvent::Sent(Ok(()))) {
        ControlStep::Wait { next } => next,
        _ => panic!("the response is not awaited"),
    };
    assert_eq!(waiting.name(), "WaitingForCommandReply");
    let reply = response("state: play\nOK\n");
    match waiting.step(ControlEvent::Received(Ok(Some(reply.clone())))) {
        ControlStep::Answer { next, responder, answer } => {
            assert_eq!(next.unwrap().name(), "WaitingForCommand");
            assert_eq!(responder, 7);
            assert_eq!(answer.unwrap(), reply);
        }
        _ => panic!("no answer"),
    }
}

#[test]
fn a_command_that_cannot_be_sent_is_answered_with_the_error_and_ends_the_loop() {
    match ControlLoopState::SendingCommand(7u8).step(ControlEvent::Sent(Err(failure()))) {
        ControlStep::Answer { next, responder, answer } => {
            assert!(next.is_none());
            assert_eq!(responder, 7);
            assert!(matches!(
                answer,
                Err(CommandError::Protocol(MpdProtocolError::InvalidMessage))
            ));
        }
        _ => panic!("no answer"),
    }
}

#[test]
fn a_failure_to_receive_goes_to_the_responder() {
    let state = ControlLoopState::WaitingForCommandReply(8u8);
    match state.step(ControlEvent::Received(Err(failure()))) {
        ControlStep::Answer { next, responder, answer } => {
            assert!(matches!(next, Some(ControlLoopState::WaitingForCommand)));
            assert_eq!(responder, 8);
            assert!(matches!(answer, Err(CommandError::Protocol(_))));
        }
        _ => panic!("no answer"),
    }
}

#[test]
fn a_clean_close_ends_the_control_loop() {
    let state = ControlLoopState::WaitingForCommandReply(8u8);
    assert!(matches!(state.step(ControlEvent::Received(Ok(None))), ControlStep::Stop));
}

#[test]
fn a_closed_queue_leaves_the_control_loop_waiting() {
    let step = ControlLoopState::<u8>::WaitingForCommand.step(ControlEvent::Command(None));
    assert!(matches!(step, ControlStep::Wait { next: ControlLoopState::WaitingForCommand }));
    assert!(handle_command::<u8>(None).is_err());
}

/// Runs the control loop over events. Gives what it sent and whom it answered, with what success.
fn run_control_loop(events: Vec<ControlEvent<u8>>) -> (bool, Vec<RawCommandList>, Vec<(u8, bool)>) {
    let mut state = Some(ControlLoopState::WaitingForCommand);
    let mut sent = Vec::new();
    let mut answers = Vec::new();
    for event in events {
        state = match state.unwrap().step(event) {
            ControlStep::Wait { next } => Some(next),
            ControlStep::Send { next, commands } => {
                sent.push(commands);
                Some(next)
            }
            ControlStep::Answer { next, responder, answer } => {
                answers.push((responder, answer.is_ok()));
                next
            }
            ControlStep::Stop => None,
        };
    }
    (state.is_none(), sent, answers)
}

#[test]
fn commands_are_answered_in_order() {
    let (ended, sent, answers) = run_control_loop(vec![
        ControlEvent::Command(Some((commands("status"), 1))),
        ControlEvent::Sent(Ok(())),
        ControlEvent::Received(Ok(Some(response("state: play\nOK\n")))),
        ControlEvent::Command(None),
        ControlEvent::Command(Some((commands("stats"), 2))),
        ControlEvent::Sent(Ok(())),
        ControlEvent::Received(Err(failure())),
        ControlEvent::Command(Some((commands("outputs"), 3))),
        ControlEvent::Sent(Ok(())),
        ControlEvent::Received(Ok(None)),
    ]);
    assert!(ended);
    assert_eq!(sent, vec![commands("status"), commands("stats"), commands("outputs")]);
    assert_eq!(answers, vec![(1, true), (2, false)]);
}

#[test]
fn a_failed_send_is_the_last_answer() {
    let (ended, sent, answers) = run_control_loop(vec![
        ControlEvent::Command(Some((commands("status"), 1))),
        ControlEvent::Sent(Ok(())),
        ControlEvent::Received(Ok(Some(response("state: play\nOK\n")))),
        ControlEvent::Command(Some((commands("ping"), 2))),
        ControlEvent::Sent(Err(failure())),
    ]);
    assert!(ended);
    assert_eq!(sent, vec![commands("status"), commands("ping")]);
    assert_eq!(answers, vec![(1, true), (2, false)]);
}

// ---------------------------------------------------------------------------------------------
// Idle loop
// ---------------------------------------------------------------------------------------------

fn sends_idle(action: IdleAction) -> bool {
    match action {
        IdleAction::Send(command) => line(command) == "idle\n",
        _ => false,
    }
}

#[test]
fn idle_commands() {
    assert_eq!(line(idle()), "idle\n");
    assert_eq!(line(cancel_idle()), "noidle\n");
}

#[test]
fn the_idle_loop_starts_with_idle() {
    let step = start_idle_loop();
    assert!(matches!(step.next(), Some(IdleState::Sending)));
    assert!(step.report.is_none());
    assert!(sends_idle(step.action));
}

#[test]
fn a_change_is_reported_and_idle_renewed() {
    let reply = response("changed: playlist\nOK\n");
    let step = IdleState::Listening.step(IdleEvent::Received(Ok(Some(reply))));
    assert!(matches!(step.next(), Some(IdleState::Sending)));
    let IdleStep { report, action } = step;
    assert!(matches!(report, Some(ConnectionEvent::SubsystemChange(Subsystem::Queue))));
    assert!(sends_idle(action));
}

#[test]
fn a_response_without_a_change_only_renews_idle() {
    let step = handle_idle_response(Ok(Some(response("OK\n"))));
    assert!(step.report.is_none());
    assert!(sends_idle(step.action));
}

#[test]
fn an_error_response_to_idle_closes_the_connection() {
    let step = handle_idle_response(Ok(Some(response("ACK [4@0] {idle} no permission\n"))));
    assert!(matches!(
        step.report,
        Some(ConnectionEvent::ConnectionClosed(ConnectionError::InvalidResponse))
    ));
    assert!(matches!(step.action, IdleAction::Stop));
}

#[test]
fn a_clean_close_ends_the_idle_loop_without_a_report() {
    let step = handle_idle_response(Ok(None));
    assert!(step.next().is_none());
    assert!(step.report.is_none());
}

#[test]
fn a_protocol_error_is_reported_by_the_idle_loop() {
    for step in [
        handle_idle_response(Err(failure())),
        handle_idle_sent(Err(failure())),
        IdleState::Sending.step(IdleEvent::Sent(Err(failure()))),
    ] {
        assert!(step.next().is_none());
        assert!(matches!(
            step.report,
            Some(ConnectionEvent::ConnectionClosed(ConnectionError::Protocol(
                MpdProtocolError::InvalidMessage
            )))
        ));
    }
}

#[test]
fn after_idle_was_sent_its_response_is_due() {
    let step = handle_idle_sent(Ok(()));
    assert!(step.report.is_none());
    assert!(matches!(step.next(), Some(IdleState::Listening)));
    assert!(matches!(step.action, IdleAction::Receive));
}

#[test]
fn changes_are_reported_in_order_and_an_error_last() {
    let events = vec![
        IdleEvent::Sent(Ok(())),
        IdleEvent::Received(Ok(Some(response("changed: mixer\nOK\n")))),
        IdleEvent::Sent(Ok(())),
        IdleEvent::Received(Ok(Some(response("OK\n")))),
        IdleEvent::Sent(Ok(())),
        IdleEvent::Received(Ok(Some(response("changed: fancy\nOK\n")))),
        IdleEvent::Sent(Err(failure())),
    ];
    let mut step = start_idle_loop();
    let mut reports = Vec::new();
    let mut idles = 0;
    for event in events {
        let state = step.next().unwrap();
        if sends_idle(step.action) {
            idles += 1;
        }
        step = state.step(event);
        reports.extend(step.report.take());
    }
    assert!(step.next().is_none());
    assert_eq!(idles, 4);
    assert_eq!(reports.len(), 3);
    assert!(matches!(&reports[0], ConnectionEvent::SubsystemChange(Subsystem::Mixer)));
    assert!(matches!(&reports[1], ConnectionEvent::SubsystemChange(s) if s.as_str() == "fancy"));
    assert!(matches!(
        &reports[2],
        ConnectionEvent::ConnectionClosed(ConnectionError::Protocol(_))
    ));
}

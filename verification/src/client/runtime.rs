//! The two loops that drive a connection.
//!
//! The control loop takes commands from a queue, sends them one at a time and hands each response
//! to whoever is waiting for it. The idle loop asks the server for changes, over and over, and
//! reports them. Neither does any I/O. Each step says what to do next, and takes the outcome of it.

use vstd::pervasive::unreached;
use vstd::prelude::*;

use mpd_protocol::command::Command as RawCommand;
use mpd_protocol::command::CommandList as RawCommandList;
use mpd_protocol::response::{Error as RawError, Frame, Response};
use mpd_protocol::MpdProtocolError;

use crate::client::error::{CommandError, ConnectionError};
use crate::client::subsystem::{ConnectionEvent, Subsystem};
use crate::protocol::{
    command_line, first_item, first_value, frame_fields, into_single_frame, law_first_value,
    new_command, response_items,
};
use crate::responses::{is_absent, is_first};

verus! {

// ---------------------------------------------------------------------------------------------
// The control loop
// ---------------------------------------------------------------------------------------------

/// What the control loop is waiting for. `R` is what a response is handed to.
pub enum ControlLoopState<R> {
    /// The next command of the queue.
    WaitingForCommand,
    /// The command being sent.
    SendingCommand(R),
    /// The response to the command that was sent.
    WaitingForCommandReply(R),
}

/// The outcome of what the control loop was waiting for.
pub enum ControlEvent<R> {
    /// The next command of the queue, or `None` if the queue is closed.
    Command(Option<(RawCommandList, R)>),
    /// The command was sent, or this failed.
    Sent(Result<(), MpdProtocolError>),
    /// A response was received, the connection was closed cleanly, or receiving failed.
    Received(Result<Option<Response>, MpdProtocolError>),
}

/// What the control loop does next.
pub enum ControlStep<R> {
    /// Go on waiting.
    Wait { next: ControlLoopState<R> },
    /// Send commands, and go on with the outcome.
    Send { next: ControlLoopState<R>, commands: RawCommandList },
    /// Hand the answer to a command to its responder, then go on waiting, or end if there is nothing
    /// more to wait for.
    Answer {
        next: Option<ControlLoopState<R>>,
        responder: R,
        answer: Result<Response, CommandError>,
    },
    /// The connection is closed. A responder that is still waiting gets no answer.
    Stop,
}

impl<R> ControlLoopState<R> {
    /// Whether the loop waits for an event of this kind.
    pub open spec fn expects(self, event: ControlEvent<R>) -> bool {
        match self {
            ControlLoopState::WaitingForCommand => event is Command,
            ControlLoopState::SendingCommand(_) => event is Sent,
            ControlLoopState::WaitingForCommandReply(_) => event is Received,
        }
    }

    /// What the loop does after an event.
    pub open spec fn next(self, event: ControlEvent<R>) -> ControlStep<R> {
        match (self, event) {
            (_, ControlEvent::Command(Some((commands, responder)))) => ControlStep::Send {
                next: ControlLoopState::SendingCommand(responder),
                commands,
            },
            (_, ControlEvent::Command(None)) => ControlStep::Wait {
                next: ControlLoopState::WaitingForCommand,
            },
            (
                ControlLoopState::SendingCommand(responder),
                ControlEvent::Sent(Ok(())),
            ) => ControlStep::Wait { next: ControlLoopState::WaitingForCommandReply(responder) },
            (
                ControlLoopState::SendingCommand(responder),
                ControlEvent::Sent(Err(e)),
            ) => ControlStep::Answer {
                next: None,
                responder,
                answer: Err(CommandError::Protocol(e)),
            },
            (
                ControlLoopState::WaitingForCommandReply(responder),
                ControlEvent::Received(Ok(Some(response))),
            ) => ControlStep::Answer {
                next: Some(ControlLoopState::WaitingForCommand),
                responder,
                answer: Ok(response),
            },
            (
                ControlLoopState::WaitingForCommandReply(responder),
                ControlEvent::Received(Err(e)),
            ) => ControlStep::Answer {
                next: Some(ControlLoopState::WaitingForCommand),
                responder,
                answer: Err(CommandError::Protocol(e)),
            },
            (_, ControlEvent::Received(Ok(None))) => ControlStep::Stop,
            _ => arbitrary(),
        }
    }

    /// What is waiting for the answer to the current command, if there is one.
    pub open spec fn responder(self) -> Option<R> {
        match self {
            ControlLoopState::WaitingForCommand => None,
            ControlLoopState::SendingCommand(responder) => Some(responder),
            ControlLoopState::WaitingForCommandReply(responder) => Some(responder),
        }
    }

    /// The name of the state.
    pub fn name(&self) -> (name: &'static str)
        ensures
            name@ == (match *self {
                ControlLoopState::WaitingForCommand => "WaitingForCommand"@,
                ControlLoopState::SendingCommand(_) => "SendingCommand"@,
                ControlLoopState::WaitingForCommandReply(_) => "WaitingForCommandReply"@,
            }),
    {
        match self {
            ControlLoopState::WaitingForCommand => "WaitingForCommand",
            ControlLoopState::SendingCommand(_) => "SendingCommand",
            ControlLoopState::WaitingForCommandReply(_) => "WaitingForCommandReply",
        }
    }

    /// Takes the outcome of what the loop was waiting for.
    pub fn step(self, event: ControlEvent<R>) -> (step: ControlStep<R>)
        requires
            self.expects(event),
        ensures
            step == self.next(event),
    {
        match (self, event) {
            (_, ControlEvent::Command(command)) => match handle_command(command) {
                Ok((next, commands)) => ControlStep::Send { next, commands },
                // A closed queue does not end the loop
                Err(()) => ControlStep::Wait { next: ControlLoopState::WaitingForCommand },
            },
            (
                ControlLoopState::SendingCommand(responder),
                ControlEvent::Sent(sent),
            ) => handle_sent(responder, sent),
            (
                ControlLoopState::WaitingForCommandReply(responder),
                ControlEvent::Received(response),
            ) => handle_response(responder, response),
            _ => unreached(),
        }
    }
}

/// Takes a command from the queue: it is to be sent, and its responder waits for that.
///
/// Fails if the queue is closed.
pub fn handle_command<R>(command: Option<(RawCommandList, R)>) -> (accepted: Result<
    (ControlLoopState<R>, RawCommandList),
    (),
>)
    ensures
        accepted == (match command {
            Some((commands, responder)) => Ok((ControlLoopState::SendingCommand(responder), commands)),
            None => Err(()),
        }),
{
    match command {
        Some((commands, responder)) => Ok((ControlLoopState::SendingCommand(responder), commands)),
        None => Err(()),
    }
}

/// After a command was sent its response is due. If it could not be sent, its responder is told and
/// the loop ends: the connection is closed because of the error.
pub fn handle_sent<R>(responder: R, sent: Result<(), MpdProtocolError>) -> (step: ControlStep<R>)
    ensures
        step == ControlLoopState::SendingCommand(responder).next(ControlEvent::Sent(sent)),
{
    match sent {
        Ok(()) => ControlStep::Wait { next: ControlLoopState::WaitingForCommandReply(responder) },
        Err(e) => ControlStep::Answer {
            next: None,
            responder,
            answer: Err(CommandError::from(e)),
        },
    }
}

/// The response to a command, or the failure to receive it, goes to the responder. If the
/// connection was closed there is nothing to hand over, and the loop ends.
pub fn handle_response<R>(
    responder: R,
    response: Result<Option<Response>, MpdProtocolError>,
) -> (step: ControlStep<R>)
    ensures
        step == ControlLoopState::WaitingForCommandReply(responder).next(
            ControlEvent::Received(response),
        ),
{
    let answer = match response {
        Ok(None) => return ControlStep::Stop,
        Ok(Some(response)) => Ok(response),
        Err(e) => Err(CommandError::from(e)),
    };
    ControlStep::Answer { next: Some(ControlLoopState::WaitingForCommand), responder, answer }
}

/// What the control loop has done: where it is, what it sent and what it answered.
#[verifier::ext_equal]
pub struct ControlRun<R> {
    /// What the loop is waiting for, or `None` once it has ended.
    pub state: Option<ControlLoopState<R>>,
    /// The commands that were sent or tried to be sent.
    pub sent: Seq<RawCommandList>,
    /// The answers, each with the responder that it went to.
    pub answers: Seq<(R, Result<Response, CommandError>)>,
}

/// What the control loop has done after the given events.
pub open spec fn control_run<R>(events: Seq<ControlEvent<R>>) -> ControlRun<R>
    decreases events.len(),
{
    if events.len() == 0 {
        ControlRun {
            state: Some(ControlLoopState::WaitingForCommand),
            sent: seq![],
            answers: seq![],
        }
    } else {
        let run = control_run(events.drop_last());
        match run.state {
            Some(state) => match state.next(events.last()) {
                ControlStep::Wait { next } => ControlRun { state: Some(next), ..run },
                ControlStep::Send { next, commands } => ControlRun {
                    state: Some(next),
                    sent: run.sent.push(commands),
                    ..run
                },
                ControlStep::Answer { next, responder, answer } => ControlRun {
                    state: next,
                    answers: run.answers.push((responder, answer)),
                    ..run
                },
                ControlStep::Stop => ControlRun { state: None, ..run },
            },
            None => run,
        }
    }
}

/// Whether each event is one that the control loop was waiting for.
pub open spec fn is_control_run<R>(events: Seq<ControlEvent<R>>) -> bool
    decreases events.len(),
{
    events.len() > 0 ==> {
        &&& is_control_run(events.drop_last())
        &&& control_run(events.drop_last()).state matches Some(state) && state.expects(
            events.last(),
        )
    }
}

/// The commands that were taken from the queue, each with its responder.
pub open spec fn accepted<R>(events: Seq<ControlEvent<R>>) -> Seq<(RawCommandList, R)>
    decreases events.len(),
{
    if events.len() == 0 {
        seq![]
    } else {
        match events.last() {
            ControlEvent::Command(Some(command)) => accepted(events.drop_last()).push(command),
            _ => accepted(events.drop_last()),
        }
    }
}

/// Whether the server has closed the connection cleanly.
pub open spec fn is_clean_close<R>(event: ControlEvent<R>) -> bool {
    event == ControlEvent::<R>::Received(Ok(None))
}

/// Whether a command could not be sent.
pub open spec fn is_failed_send<R>(event: ControlEvent<R>) -> bool {
    event matches ControlEvent::Sent(Err(_))
}

/// The commands of the queue are sent in order. Each gets one answer, in the same order, and only
/// the last one can be without an answer: while it is under way, or when the connection was closed
/// before the answer came.
pub proof fn law_commands_are_answered_in_order<R>(events: Seq<ControlEvent<R>>)
    requires
        is_control_run(events),
    ensures
        ({
            let run = control_run(events);
            let commands = accepted(events);
            &&& run.sent == commands.map_values(|command: (RawCommandList, R)| command.0)
            &&& forall|i: int|
                0 <= i < run.answers.len() ==> (#[trigger] run.answers[i]).0 == commands[i].1
            &&& match run.state {
                Some(ControlLoopState::WaitingForCommand) => run.answers.len() == commands.len(),
                Some(ControlLoopState::SendingCommand(responder)) => {
                    &&& run.answers.len() + 1 == commands.len()
                    &&& responder == commands.last().1
                },
                Some(ControlLoopState::WaitingForCommandReply(responder)) => {
                    &&& run.answers.len() + 1 == commands.len()
                    &&& responder == commands.last().1
                },
                None => if is_clean_close(events.last()) {
                    run.answers.len() + 1 == commands.len()
                } else {
                    run.answers.len() == commands.len()
                },
            }
        }),
    decreases events.len(),
{
    let commands = accepted(events);
    if events.len() > 0 {
        law_commands_are_answered_in_order(events.drop_last());
        let before = accepted(events.drop_last());
        if events.last() is Command && events.last()->Command_0 is Some {
            assert(commands.map_values(|command: (RawCommandList, R)| command.0)
                == before.map_values(|command: (RawCommandList, R)| command.0).push(
                commands.last().0,
            ));
        }
    }
}

/// What the events of a connection have to say to those who wait for an answer: the responses that
/// were received, and the failures to send a command or to receive its response.
pub open spec fn outcomes<R>(events: Seq<ControlEvent<R>>) -> Seq<Result<Response, CommandError>>
    decreases events.len(),
{
    if events.len() == 0 {
        seq![]
    } else {
        let before = outcomes(events.drop_last());
        match events.last() {
            ControlEvent::Received(Ok(Some(response))) => before.push(Ok(response)),
            ControlEvent::Received(Err(e)) => before.push(Err(CommandError::Protocol(e))),
            ControlEvent::Sent(Err(e)) => before.push(Err(CommandError::Protocol(e))),
            _ => before,
        }
    }
}

/// Every response and every failure goes to a responder, unchanged and in order: none is lost, made
/// up or handed out twice.
pub proof fn law_answers_are_what_came_back<R>(events: Seq<ControlEvent<R>>)
    requires
        is_control_run(events),
    ensures
        control_run(events).answers.map_values(
            |answer: (R, Result<Response, CommandError>)| answer.1,
        ) == outcomes(events),
    decreases events.len(),
{
    let value = |answer: (R, Result<Response, CommandError>)| answer.1;
    let answers = control_run(events).answers;
    if events.len() > 0 {
        law_answers_are_what_came_back(events.drop_last());
        let before = control_run(events.drop_last()).answers;
        if answers.len() > before.len() {
            assert(answers.map_values(value) == before.map_values(value).push(answers.last().1));
        }
    } else {
        assert(answers.map_values(value) == outcomes(events));
    }
}

/// No answer says that the connection is closed: that is what the lack of an answer says.
pub proof fn law_no_answer_says_that_the_connection_is_closed<R>(events: Seq<ControlEvent<R>>)
    requires
        is_control_run(events),
    ensures
        forall|i: int|
            0 <= i < control_run(events).answers.len() ==> (#[trigger] control_run(
                events,
            ).answers[i]).1 != Err::<Response, _>(CommandError::ConnectionClosed),
    decreases events.len(),
{
    if events.len() > 0 {
        law_no_answer_says_that_the_connection_is_closed(events.drop_last());
    }
}

/// Whether the responder of the `n`th command is still kept to be answered: by the state of the loop
/// if the command was taken from the queue, and by the queue, which the loop keeps, if it was not.
pub open spec fn is_kept<R>(events: Seq<ControlEvent<R>>, n: nat) -> bool {
    control_run(events).state matches Some(state) && (n < accepted(events).len()
        ==> state.responder() == Some(accepted(events)[n as int].1))
}

/// The responder of a command without an answer is kept as long as the control loop goes on. So one
/// that is given up without an answer shows that the loop has ended.
pub proof fn law_responders_are_kept_until_the_control_loop_ends<R>(
    events: Seq<ControlEvent<R>>,
    n: nat,
)
    requires
        is_control_run(events),
        control_run(events).answers.len() <= n,
    ensures
        is_kept(events, n) <==> control_run(events).state is Some,
{
    law_commands_are_answered_in_order(events);
}

/// The control loop ends exactly when the server has closed the connection cleanly or a command
/// could not be sent.
pub proof fn law_control_loop_ends_when_the_connection_is_closed<R>(events: Seq<ControlEvent<R>>)
    requires
        is_control_run(events),
    ensures
        control_run(events).state is None <==> events.len() > 0 && (is_clean_close(events.last())
            || is_failed_send(events.last())),
{
}

/// Once the control loop has ended it stays ended: whatever happens, nothing more is sent and nobody
/// gets an answer any more.
pub proof fn law_ended_control_loop_stays_ended<R>(
    events: Seq<ControlEvent<R>>,
    more: Seq<ControlEvent<R>>,
)
    requires
        control_run(events).state is None,
    ensures
        control_run(events + more) == control_run(events),
    decreases more.len(),
{
    if more.len() == 0 {
        assert(events + more == events);
    } else {
        law_ended_control_loop_stays_ended(events, more.drop_last());
        assert((events + more).drop_last() == events + more.drop_last());
    }
}

// ---------------------------------------------------------------------------------------------
// The idle loop
// ---------------------------------------------------------------------------------------------

/// What the idle loop is waiting for.
pub enum IdleState {
    /// The `idle` command being sent.
    Sending,
    /// The response to the `idle` command.
    Listening,
}

/// The outcome of what the idle loop was waiting for.
pub enum IdleEvent {
    /// The `idle` command was sent, or this failed.
    Sent(Result<(), MpdProtocolError>),
    /// A response was received, the connection was closed cleanly, or receiving failed.
    Received(Result<Option<Response>, MpdProtocolError>),
}

/// What the idle loop does after reporting.
pub enum IdleAction {
    /// Send a command, and go on with the outcome.
    Send(RawCommand),
    /// Receive a response, and go on with it.
    Receive,
    /// The connection is closed.
    Stop,
}

/// What the idle loop does next: report an event, if there is one, then act.
pub struct IdleStep {
    pub report: Option<ConnectionEvent>,
    pub action: IdleAction,
}

/// The contents of a [`ConnectionEvent`].
#[verifier::ext_equal]
pub enum ConnectionEventView {
    /// The subsystem with this protocol name has changed.
    SubsystemChange(Seq<char>),
    /// The connection was closed because of an error.
    ConnectionClosed(ConnectionError),
}

/// The contents of an [`IdleAction`]. The command that is sent is always `idle`.
pub enum IdleActionView {
    SendIdle,
    Receive,
    Stop,
}

/// The contents of an [`IdleStep`].
#[verifier::ext_equal]
pub struct IdleStepView {
    pub report: Option<ConnectionEventView>,
    pub action: IdleActionView,
}

impl ConnectionEvent {
    /// Whether this is the event with the given contents.
    pub open spec fn is_event(self, contents: ConnectionEventView) -> bool {
        match (self, contents) {
            (
                ConnectionEvent::SubsystemChange(subsystem),
                ConnectionEventView::SubsystemChange(name),
            ) => subsystem.stands_for(name),
            (
                ConnectionEvent::ConnectionClosed(error),
                ConnectionEventView::ConnectionClosed(contents),
            ) => error == contents,
            _ => false,
        }
    }
}

impl IdleStep {
    /// Whether this is the step with the given contents.
    pub open spec fn is_step(self, contents: IdleStepView) -> bool {
        &&& match contents.report {
            Some(event) => self.report matches Some(report) && report.is_event(event),
            None => self.report is None,
        }
        &&& match contents.action {
            IdleActionView::SendIdle => self.action matches IdleAction::Send(command)
                && command_line(command) == "idle"@,
            IdleActionView::Receive => self.action is Receive,
            IdleActionView::Stop => self.action is Stop,
        }
    }

    /// What the loop waits for after this step, or `None` if it ends.
    pub fn next(&self) -> (next: Option<IdleState>)
        ensures
            next == (match self.action {
                IdleAction::Send(_) => Some(IdleState::Sending),
                IdleAction::Receive => Some(IdleState::Listening),
                IdleAction::Stop => None,
            }),
    {
        match self.action {
            IdleAction::Send(_) => Some(IdleState::Sending),
            IdleAction::Receive => Some(IdleState::Listening),
            IdleAction::Stop => None,
        }
    }
}

/// The step that reports an error and ends the loop.
pub open spec fn closed_by(error: ConnectionError) -> IdleStepView {
    IdleStepView {
        report: Some(ConnectionEventView::ConnectionClosed(error)),
        action: IdleActionView::Stop,
    }
}

/// The change that a frame reports.
pub open spec fn change(frame: Frame) -> Option<ConnectionEventView> {
    match first_value(frame_fields(frame), "changed"@) {
        Some(name) => Some(ConnectionEventView::SubsystemChange(name)),
        None => None,
    }
}

impl IdleState {
    /// Whether the loop waits for an event of this kind.
    pub open spec fn expects(self, event: IdleEvent) -> bool {
        match self {
            IdleState::Sending => event is Sent,
            IdleState::Listening => event is Received,
        }
    }

    /// Takes the outcome of what the loop was waiting for.
    pub fn step(self, event: IdleEvent) -> (step: IdleStep)
        requires
            self.expects(event),
        ensures
            step.is_step(idle_next(event)),
    {
        match event {
            IdleEvent::Sent(sent) => handle_idle_sent(sent),
            IdleEvent::Received(response) => handle_idle_response(response),
        }
    }
}

/// What the idle loop does after an event.
pub open spec fn idle_next(event: IdleEvent) -> IdleStepView {
    match event {
        IdleEvent::Sent(Ok(())) => IdleStepView { report: None, action: IdleActionView::Receive },
        IdleEvent::Sent(Err(e)) => closed_by(ConnectionError::Protocol(e)),
        IdleEvent::Received(Ok(Some(response))) => match first_item(response_items(response)) {
            Some(Ok(frame)) => IdleStepView {
                report: change(frame),
                action: IdleActionView::SendIdle,
            },
            _ => closed_by(ConnectionError::InvalidResponse),
        },
        IdleEvent::Received(Ok(None)) => IdleStepView { report: None, action: IdleActionView::Stop },
        IdleEvent::Received(Err(e)) => closed_by(ConnectionError::Protocol(e)),
    }
}

/// The command that asks the server to report the next change.
pub fn idle() -> (command: RawCommand)
    ensures
        command_line(command) == "idle"@,
{
    proof {
        reveal_strlit("idle");
        reveal_strlit("command_list");
        assert("idle"@.len() == 4);
        assert("command_list"@.len() == 12);
    }
    new_command("idle")
}

/// The command that ends an `idle` command early.
pub fn cancel_idle() -> (command: RawCommand)
    ensures
        command_line(command) == "noidle"@,
{
    proof {
        reveal_strlit("noidle");
        reveal_strlit("command_list");
        assert("noidle"@.len() == 6);
        assert("command_list"@.len() == 12);
    }
    new_command("noidle")
}

/// The first step of the idle loop: it asks for changes.
pub fn start_idle_loop() -> (step: IdleStep)
    ensures
        step.is_step(IdleStepView { report: None, action: IdleActionView::SendIdle }),
{
    IdleStep { report: None, action: IdleAction::Send(idle()) }
}

/// After the `idle` command was sent its response is due. If it could not be sent, the connection
/// is closed.
pub fn handle_idle_sent(sent: Result<(), MpdProtocolError>) -> (step: IdleStep)
    ensures
        step.is_step(idle_next(IdleEvent::Sent(sent))),
{
    match sent {
        Ok(()) => IdleStep { report: None, action: IdleAction::Receive },
        Err(e) => IdleStep {
            report: Some(ConnectionEvent::ConnectionClosed(ConnectionError::from(e))),
            action: IdleAction::Stop,
        },
    }
}

/// A change is reported, and the next one asked for. An error closes the connection.
pub fn handle_idle_response(response: Result<Option<Response>, MpdProtocolError>) -> (step:
    IdleStep)
    ensures
        step.is_step(idle_next(IdleEvent::Received(response))),
{
    match response {
        Ok(Some(res)) => match into_single_frame(res) {
            Ok(f) => {
                let report = match Subsystem::from_frame(f) {
                    Some(subsystem) => Some(ConnectionEvent::SubsystemChange(subsystem)),
                    None => None,
                };
                IdleStep { report, action: IdleAction::Send(idle()) }
            },
            Err(_) => IdleStep {
                report: Some(ConnectionEvent::ConnectionClosed(ConnectionError::InvalidResponse)),
                action: IdleAction::Stop,
            },
        },
        // The connection was closed
        Ok(None) => IdleStep { report: None, action: IdleAction::Stop },
        Err(e) => IdleStep {
            report: Some(ConnectionEvent::ConnectionClosed(ConnectionError::from(e))),
            action: IdleAction::Stop,
        },
    }
}

/// What the idle loop has done: where it is, what it reported and how often it sent `idle`.
#[verifier::ext_equal]
pub struct IdleRun {
    /// What the loop is waiting for, or `None` once it has ended.
    pub state: Option<IdleState>,
    /// The events that were reported.
    pub reports: Seq<ConnectionEventView>,
    /// The number of `idle` commands that were sent or tried to be sent.
    pub idles: nat,
}

impl IdleRun {
    /// The run after one more step.
    pub open spec fn after(self, step: IdleStepView) -> IdleRun {
        IdleRun {
            state: match step.action {
                IdleActionView::SendIdle => Some(IdleState::Sending),
                IdleActionView::Receive => Some(IdleState::Listening),
                IdleActionView::Stop => None,
            },
            reports: match step.report {
                Some(event) => self.reports.push(event),
                None => self.reports,
            },
            idles: if step.action is SendIdle {
                self.idles + 1
            } else {
                self.idles
            },
        }
    }
}

/// What the idle loop has done after the given events.
pub open spec fn idle_run(events: Seq<IdleEvent>) -> IdleRun
    decreases events.len(),
{
    if events.len() == 0 {
        IdleRun { state: Some(IdleState::Sending), reports: seq![], idles: 1 }
    } else if idle_run(events.drop_last()).state is None {
        idle_run(events.drop_last())
    } else {
        idle_run(events.drop_last()).after(idle_next(events.last()))
    }
}

/// Whether each event is one that the idle loop was waiting for.
pub open spec fn is_idle_run(events: Seq<IdleEvent>) -> bool
    decreases events.len(),
{
    events.len() > 0 ==> {
        &&& is_idle_run(events.drop_last())
        &&& idle_run(events.drop_last()).state matches Some(state) && state.expects(events.last())
    }
}

/// The frame of a response without an error.
pub open spec fn received_frame(event: IdleEvent) -> Option<Frame> {
    match event {
        IdleEvent::Received(Ok(Some(response))) => match first_item(response_items(response)) {
            Some(Ok(frame)) => Some(frame),
            _ => None,
        },
        _ => None,
    }
}

/// The changes that the server has told, in order.
pub open spec fn told_changes(events: Seq<IdleEvent>) -> Seq<ConnectionEventView>
    decreases events.len(),
{
    if events.len() == 0 {
        seq![]
    } else {
        let before = told_changes(events.drop_last());
        match received_frame(events.last()) {
            Some(frame) => match change(frame) {
                Some(told) => before.push(told),
                None => before,
            },
            None => before,
        }
    }
}

/// The error that an event closes the connection with.
pub open spec fn closing_error(event: IdleEvent) -> Option<ConnectionError> {
    match event {
        IdleEvent::Sent(Err(e)) => Some(ConnectionError::Protocol(e)),
        IdleEvent::Received(Err(e)) => Some(ConnectionError::Protocol(e)),
        IdleEvent::Received(Ok(Some(_))) if received_frame(event) is None => Some(
            ConnectionError::InvalidResponse,
        ),
        _ => None,
    }
}

/// The idle loop reports the changes that the server told, in order. It ends when the connection is
/// closed: without a further report if it was closed cleanly, and with the error as the last report
/// if there was one.
pub proof fn law_changes_then_at_most_one_error(events: Seq<IdleEvent>)
    requires
        is_idle_run(events),
    ensures
        ({
            let run = idle_run(events);
            let clean = events.len() > 0 && events.last() == IdleEvent::Received(Ok(None));
            let failed = events.len() > 0 && closing_error(events.last()) is Some;
            &&& run.state is None <==> clean || failed
            &&& !failed ==> run.reports == told_changes(events)
            &&& failed ==> run.reports == told_changes(events).push(
                ConnectionEventView::ConnectionClosed(closing_error(events.last())->0),
            )
        }),
    decreases events.len(),
{
    if events.len() > 0 {
        law_changes_then_at_most_one_error(events.drop_last());
    }
}

/// Once the idle loop has ended it stays ended: whatever happens, nothing more is sent or reported.
pub proof fn law_ended_idle_loop_stays_ended(events: Seq<IdleEvent>, more: Seq<IdleEvent>)
    requires
        idle_run(events).state is None,
    ensures
        idle_run(events + more) == idle_run(events),
    decreases more.len(),
{
    if more.len() == 0 {
        assert(events + more == events);
    } else {
        law_ended_idle_loop_stays_ended(events, more.drop_last());
        assert((events + more).drop_last() == events + more.drop_last());
    }
}

/// The number of responses that were received without an error.
pub open spec fn frames_received(events: Seq<IdleEvent>) -> nat
    decreases events.len(),
{
    if events.len() == 0 {
        0
    } else if received_frame(events.last()) is Some {
        frames_received(events.drop_last()) + 1
    } else {
        frames_received(events.drop_last())
    }
}

/// The idle loop sends `idle` once at the start and once after each response without an error.
pub proof fn law_idle_is_renewed_after_each_response(events: Seq<IdleEvent>)
    requires
        is_idle_run(events),
    ensures
        idle_run(events).idles == frames_received(events) + 1,
    decreases events.len(),
{
    if events.len() > 0 {
        law_idle_is_renewed_after_each_response(events.drop_last());
    }
}

/// Whether the idle loop answers a response, or what came in its place, with `step`.
pub open spec fn is_idle_answer(
    response: Result<Option<Response>, MpdProtocolError>,
    step: IdleStep,
) -> bool {
    ||| call_ensures(handle_idle_response, (response,), step)
    ||| call_ensures(IdleState::step, (IdleState::Listening, IdleEvent::Received(response)), step)
}

/// Every change that the server tells is reported: the subsystem that the first `changed` field of
/// the first frame names, whatever it is. A frame without such a field reports nothing. Either way
/// `idle` is sent again.
pub proof fn law_every_told_change_is_reported(response: Response, step: IdleStep, frame: Frame)
    requires
        is_idle_answer(Ok(Some(response)), step),
        response_items(response).len() > 0,
        response_items(response)[0] == Ok::<Frame, RawError>(frame),
    ensures
        step.action matches IdleAction::Send(command) && command_line(command) == "idle"@,
        forall|i: int|
            #[trigger] is_first(frame_fields(frame), i) && frame_fields(frame)[i].0 == "changed"@
                ==> (step.report matches Some(ConnectionEvent::SubsystemChange(subsystem))
                && subsystem.stands_for(frame_fields(frame)[i].1)),
        is_absent(frame_fields(frame), "changed"@) ==> step.report is None,
{
    law_first_value(frame_fields(frame), "changed"@);
}

/// Every failure around `idle` is reported as what it is and ends the loop: an error of the server
/// as an invalid response, and a protocol error as itself. A clean close ends it without a report.
pub proof fn law_every_failure_of_idle_is_reported(
    response: Result<Option<Response>, MpdProtocolError>,
    step: IdleStep,
)
    requires
        is_idle_answer(response, step),
        response matches Ok(Some(r)) ==> response_items(r).len() > 0 && response_items(r)[0] is Err,
    ensures
        step.action is Stop,
        match response {
            Ok(Some(_)) => step.report == Some(
                ConnectionEvent::ConnectionClosed(ConnectionError::InvalidResponse),
            ),
            Ok(None) => step.report is None,
            Err(e) => step.report == Some(
                ConnectionEvent::ConnectionClosed(ConnectionError::Protocol(e)),
            ),
        },
{
}

/// After `idle` was sent its response is received, and nothing is reported. If it could not be sent,
/// that error is reported and ends the loop.
pub proof fn law_idle_is_sent_or_the_loop_ends(
    sent: Result<(), MpdProtocolError>,
    step: IdleStep,
)
    requires
        call_ensures(handle_idle_sent, (sent,), step) || call_ensures(
            IdleState::step,
            (IdleState::Sending, IdleEvent::Sent(sent)),
            step,
        ),
    ensures
        match sent {
            Ok(()) => step.report is None && step.action is Receive,
            Err(e) => step.report == Some(
                ConnectionEvent::ConnectionClosed(ConnectionError::Protocol(e)),
            ) && step.action is Stop,
        },
{
}

/// The idle loop starts by sending `idle`, without a report. It goes on with the outcome of what it
/// does, and ends when it stops.
pub proof fn law_the_idle_loop_starts_and_goes_on(
    start: IdleStep,
    command: RawCommand,
    cancel: RawCommand,
    step: IdleStep,
    next: Option<IdleState>,
)
    requires
        call_ensures(start_idle_loop, (), start),
        call_ensures(idle, (), command),
        call_ensures(cancel_idle, (), cancel),
        call_ensures(IdleStep::next, (&step,), next),
    ensures
        start.report is None,
        start.action matches IdleAction::Send(first) && command_line(first) == "idle"@,
        command_line(command) == "idle"@,
        command_line(cancel) == "noidle"@,
        step.action is Send <==> next == Some(IdleState::Sending),
        step.action is Receive <==> next == Some(IdleState::Listening),
        step.action is Stop <==> next is None,
{
}

/// A command of the queue is sent as it is, and its responder waits. A closed queue changes nothing.
pub proof fn law_a_queued_command_is_sent<R>(
    command: Option<(RawCommandList, R)>,
    step: ControlStep<R>,
    taken: Result<(ControlLoopState<R>, RawCommandList), ()>,
)
    requires
        call_ensures(
            ControlLoopState::<R>::step,
            (ControlLoopState::WaitingForCommand, ControlEvent::Command(command)),
            step,
        ),
        call_ensures(handle_command::<R>, (command,), taken),
    ensures
        command matches Some((commands, responder)) ==> {
            &&& step matches ControlStep::Send { next, commands: sent } && sent == commands && next
                == ControlLoopState::SendingCommand(responder)
            &&& taken matches Ok((next, sent)) && sent == commands && next
                == ControlLoopState::SendingCommand(responder)
        },
        command is None ==> {
            &&& step matches ControlStep::Wait { next } && next is WaitingForCommand
            &&& taken is Err
        },
{
}

/// After a command was sent, its own responder waits for the response. If it could not be sent, its
/// own responder is told the error, and the loop ends.
pub proof fn law_the_sender_of_a_command_waits<R>(
    responder: R,
    sent: Result<(), MpdProtocolError>,
    step: ControlStep<R>,
)
    requires
        call_ensures(handle_sent::<R>, (responder, sent), step) || call_ensures(
            ControlLoopState::<R>::step,
            (ControlLoopState::SendingCommand(responder), ControlEvent::Sent(sent)),
            step,
        ),
    ensures
        match sent {
            Ok(()) => step matches ControlStep::Wait { next } && next
                == ControlLoopState::WaitingForCommandReply(responder),
            Err(e) => step matches ControlStep::Answer { next, responder: told, answer } && next
                is None && told == responder && answer == Err::<Response, CommandError>(
                CommandError::Protocol(e),
            ),
        },
{
}

/// A response goes to the responder of the command, unchanged, and so does a failure to receive it.
/// Then the next command is due. If the connection was closed, nobody is answered and the loop ends.
pub proof fn law_the_sender_of_a_command_gets_the_response<R>(
    responder: R,
    response: Result<Option<Response>, MpdProtocolError>,
    step: ControlStep<R>,
)
    requires
        call_ensures(handle_response::<R>, (responder, response), step) || call_ensures(
            ControlLoopState::<R>::step,
            (ControlLoopState::WaitingForCommandReply(responder), ControlEvent::Received(response)),
            step,
        ),
    ensures
        match response {
            Ok(None) => step is Stop,
            Ok(Some(received)) => step matches ControlStep::Answer {
                next,
                responder: told,
                answer,
            } && next == Some(ControlLoopState::<R>::WaitingForCommand) && told == responder
                && answer == Ok::<Response, CommandError>(received),
            Err(e) => step matches ControlStep::Answer { next, responder: told, answer } && next
                == Some(ControlLoopState::<R>::WaitingForCommand) && told == responder && answer
                == Err::<Response, CommandError>(CommandError::Protocol(e)),
        },
{
}

/// Each state of the control loop has its own name.
pub proof fn law_states_are_named<R>(state: ControlLoopState<R>, name: &'static str)
    requires
        call_ensures(ControlLoopState::<R>::name, (&state,), name),
    ensures
        state is WaitingForCommand ==> name@ == "WaitingForCommand"@,
        state is SendingCommand ==> name@ == "SendingCommand"@,
        state is WaitingForCommandReply ==> name@ == "WaitingForCommandReply"@,
{
}

/// Every outcome of what a loop waits for can be taken.
pub proof fn law_every_outcome_can_be_taken<R>(
    responder: R,
    command: Option<(RawCommandList, R)>,
    sent: Result<(), MpdProtocolError>,
    response: Result<Option<Response>, MpdProtocolError>,
)
    ensures
        call_requires(
            ControlLoopState::<R>::step,
            (ControlLoopState::WaitingForCommand, ControlEvent::Command(command)),
        ),
        call_requires(
            ControlLoopState::<R>::step,
            (ControlLoopState::SendingCommand(responder), ControlEvent::Sent(sent)),
        ),
        call_requires(
            ControlLoopState::<R>::step,
            (ControlLoopState::WaitingForCommandReply(responder), ControlEvent::Received(response)),
        ),
        call_requires(IdleState::step, (IdleState::Sending, IdleEvent::Sent(sent))),
        call_requires(IdleState::step, (IdleState::Listening, IdleEvent::Received(response))),
{
}

} // verus!

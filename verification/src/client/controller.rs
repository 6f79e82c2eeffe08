//! The client that sends commands.

use std::sync::Arc;

use vstd::prelude::*;
use vstd::string::StringExecFns;

use mpd_protocol::command::Command as RawCommand;
use mpd_protocol::command::CommandList as RawCommandList;
use mpd_protocol::response::{Error as RawError, Frame, Response};
use tokio::sync::mpsc::UnboundedSender;
use tokio::sync::oneshot;

use crate::channel::{clone_sender, is_sender_closed, send};
use crate::client::error::CommandError;
use crate::client::runtime::{
    accepted, control_run, is_clean_close, is_control_run, is_failed_send, is_kept,
    law_commands_are_answered_in_order, law_control_loop_ends_when_the_connection_is_closed,
    law_ended_control_loop_stays_ended, law_no_answer_says_that_the_connection_is_closed,
    law_responders_are_kept_until_the_control_loop_ends, ControlEvent,
};
use crate::commands::{Command, CommandList};
use crate::protocol::{
    error_contents, error_reply, first_error, first_item, into_items, into_single_frame,
    law_frames_are_the_items_up_to_an_error, leading_frames, list_commands, new_command_list,
    response_items, ErrorReply,
};
use crate::responses::TypedResponseError;
use crate::text::{quote, quoted, share, share_again};

verus! {

/// What the answer to a command is handed to.
pub type CommandResponder = oneshot::Sender<Result<Response, CommandError>>;

/// A handle to a connection that commands are sent over.
///
/// The default one belongs to no connection, and serves to open one.
pub struct ClientController {
    commands_sender: Option<UnboundedSender<(RawCommandList, CommandResponder)>>,
    protocol_version: Arc<str>,
}

/// Whether `result` is what reading a response gives: the value that was read, or the failure to
/// read it as an error of the command.
pub open spec fn is_read<T>(
    read: Result<T, TypedResponseError>,
    result: Result<T, CommandError>,
) -> bool {
    result == (match read {
        Ok(value) => Ok(value),
        Err(e) => Err(CommandError::InvalidTypedResponse(e)),
    })
}

impl Clone for ClientController {
    fn clone(&self) -> (client: ClientController)
        ensures
            client == *self,
    {
        ClientController {
            commands_sender: match &self.commands_sender {
                Some(commands_sender) => Some(clone_sender(commands_sender)),
                None => None,
            },
            protocol_version: share_again(&self.protocol_version),
        }
    }
}

impl Default for ClientController {
    fn default() -> (client: ClientController)
        ensures
            !client.is_open(),
            client.version().len() == 0,
    {
        proof {
            reveal_strlit("");
        }
        ClientController { commands_sender: None, protocol_version: share("") }
    }
}

impl ClientController {
    /// Whether the handle belongs to a connection.
    pub closed spec fn is_open(self) -> bool {
        self.commands_sender is Some
    }

    /// The protocol version that the connection uses.
    pub closed spec fn version(self) -> Seq<char> {
        (*self.protocol_version)@
    }

    /// The queue that the connection takes its commands from.
    pub closed spec fn queue(self) -> UnboundedSender<(RawCommandList, CommandResponder)>
        recommends
            self.is_open(),
    {
        self.commands_sender->0
    }

    /// Whether `closed` is what the queue of this connection may report when it is asked whether its
    /// other end is closed.
    pub closed spec fn queue_reports_closed(self, closed: bool) -> bool {
        call_ensures(
            is_sender_closed::<(RawCommandList, CommandResponder)>,
            (&self.queue(),),
            closed,
        )
    }

    /// Whether `accepted` is what may come of putting these commands, with this responder, into the
    /// queue of this connection.
    pub closed spec fn queue_takes(
        self,
        commands: RawCommandList,
        responder: CommandResponder,
        accepted: bool,
    ) -> bool {
        call_ensures(
            send::<(RawCommandList, CommandResponder)>,
            (&self.queue(), (commands, responder)),
            accepted,
        )
    }

    /// The handle to a connection that takes its commands from the other end of `commands_sender`.
    pub fn new(
        commands_sender: UnboundedSender<(RawCommandList, CommandResponder)>,
        protocol_version: &str,
    ) -> (client: ClientController)
        ensures
            client.is_open(),
            client.queue() == commands_sender,
            client.version() == protocol_version@,
    {
        ClientController {
            commands_sender: Some(commands_sender),
            protocol_version: share(protocol_version),
        }
    }

    /// Tells whether the handle belongs to a connection.
    pub fn has_connection(&self) -> (open: bool)
        ensures
            open == self.is_open(),
    {
        self.commands_sender.is_some()
    }

    /// Get the protocol version the underlying connection is using.
    pub fn protocol_version(&self) -> (version: &str)
        ensures
            version@ == self.version(),
    {
        &self.protocol_version
    }

    /// Returns `true` if the connection to the server has been closed (by the server or due to an
    /// error).
    ///
    /// This is what the queue reports at the moment: the loop that drives the connection decides it,
    /// as `queue_is_closed_after` says. That the queue reports it so is up to the channel.
    pub fn is_connection_closed(&self) -> (closed: bool)
        requires
            self.is_open(),
        ensures
            self.queue_reports_closed(closed),
    {
        is_sender_closed(self.commands_sender.as_ref().unwrap())
    }

    /// A text that describes the handle.
    pub fn describe(&self) -> (text: String)
        ensures
            text@ == "Client { protocol_version: "@ + quoted(self.version()) + ", .. }"@,
    {
        let mut text = "Client { protocol_version: ".to_owned();
        text.append(quote(&self.protocol_version).as_str());
        text.append(", .. }");
        text
    }

    /// Puts commands into the queue, to be answered through `responder`.
    ///
    /// The loop that drives the connection decides whether they are accepted, as
    /// `queue_is_closed_after` says. If it has ended, the connection is closed. That the queue refuses
    /// commands just then is up to the channel.
    pub fn enqueue(&self, commands: RawCommandList, responder: CommandResponder) -> (queued: Result<
        (),
        CommandError,
    >)
        requires
            self.is_open(),
        ensures
            self.queue_takes(commands, responder, queued is Ok),
            queued matches Err(e) ==> e == CommandError::ConnectionClosed,
    {
        let accepted = send(self.commands_sender.as_ref().unwrap(), (commands, responder));
        ClientController::queue_reply(accepted)
    }

    /// What comes of putting commands into the queue: the connection is closed if it refuses them.
    pub open spec fn queue_result(accepted: bool) -> Result<(), CommandError> {
        if accepted {
            Ok(())
        } else {
            Err(CommandError::ConnectionClosed)
        }
    }

    /// What comes of waiting for the response to queued commands: the connection is closed if there
    /// is no answer.
    pub open spec fn send_result(answer: Option<Result<Response, CommandError>>) -> Result<
        Response,
        CommandError,
    > {
        match answer {
            Some(answer) => answer,
            None => Err(CommandError::ConnectionClosed),
        }
    }

    /// What came of putting commands into the queue.
    pub fn queue_reply(accepted: bool) -> (queued: Result<(), CommandError>)
        ensures
            queued == ClientController::queue_result(accepted),
    {
        if accepted {
            Ok(())
        } else {
            Err(CommandError::ConnectionClosed)
        }
    }

    /// The response to commands that were put into the queue. There is no answer when the loop that
    /// drives the connection has ended.
    pub fn send_reply(answer: Option<Result<Response, CommandError>>) -> (reply: Result<
        Response,
        CommandError,
    >)
        ensures
            reply == ClientController::send_result(answer),
    {
        match answer {
            Some(answer) => answer,
            None => Err(CommandError::ConnectionClosed),
        }
    }

    /// The list that a single command is sent as.
    pub fn raw_command_request(command: RawCommand) -> (commands: RawCommandList)
        ensures
            list_commands(commands) == seq![command],
    {
        new_command_list(command)
    }

    /// The frame that a single command is answered with.
    pub fn raw_command_reply(reply: Result<Response, CommandError>) -> (frame: Result<
        Frame,
        CommandError,
    >)
        ensures
            match reply {
                Ok(response) => match first_item(response_items(response)) {
                    Some(Ok(f)) => frame == Ok::<Frame, CommandError>(f),
                    Some(Err(e)) => frame matches Err(error) && error.is_error_response(
                        error_contents(e),
                        seq![],
                    ),
                    None => false,
                },
                Err(e) => frame == Err::<Frame, CommandError>(e),
            },
    {
        match reply {
            Ok(response) => match into_single_frame(response) {
                Ok(f) => Ok(f),
                Err(e) => Err(
                    CommandError::ErrorResponse {
                        error: error_reply(e),
                        succesful_frames: Vec::new(),
                    },
                ),
            },
            Err(e) => Err(e),
        }
    }

    /// The frames that a list of commands is answered with.
    pub fn raw_command_list_reply(reply: Result<Response, CommandError>) -> (frames: Result<
        Vec<Frame>,
        CommandError,
    >)
        ensures
            match reply {
                Ok(response) => ClientController::are_frames(response_items(response), frames),
                Err(e) => frames == Err::<Vec<Frame>, CommandError>(e),
            },
    {
        match reply {
            Ok(response) => ClientController::collect_frames(into_items(response)),
            Err(e) => Err(e),
        }
    }

    /// Whether `frames` is what the items of a response amount to: all frames, or the error with
    /// the frames before it.
    pub open spec fn are_frames(
        items: Seq<Result<Frame, RawError>>,
        frames: Result<Vec<Frame>, CommandError>,
    ) -> bool {
        match first_error(items) {
            None => frames matches Ok(out) && out@ == leading_frames(items),
            Some(e) => frames matches Err(error) && error.is_error_response(
                error_contents(e),
                leading_frames(items),
            ),
        }
    }

    /// Collects the frames of a response, up to the error if there is one.
    pub fn collect_frames(items: Vec<Result<Frame, RawError>>) -> (frames: Result<
        Vec<Frame>,
        CommandError,
    >)
        ensures
            ClientController::are_frames(items@, frames),
    {
        let ghost all = items@;
        let mut frames: Vec<Frame> = Vec::with_capacity(items.len());
        assert(all.skip(0) == all);
        for item in it: items
            invariant
                it.seq() == all,
                leading_frames(all) == frames@ + leading_frames(all.skip(it.index() as int)),
                first_error(all) == first_error(all.skip(it.index() as int)),
        {
            let ghost rest = all.skip(it.index() as int);
            assert(rest[0] == item);
            assert(rest.drop_first() == all.skip(it.index() + 1));
            match item {
                Ok(f) => {
                    frames.push(f);
                },
                Err(e) => {
                    return Err(
                        CommandError::ErrorResponse {
                            error: error_reply(e),
                            succesful_frames: frames,
                        },
                    );
                },
            }
        }
        Ok(frames)
    }

    /// The response to a typed command, read from the frame that it was answered with.
    pub fn command_reply<C: Command>(cmd: C, frame: Result<Frame, CommandError>) -> (response:
        Result<C::Response, CommandError>)
        ensures
            match frame {
                Ok(f) => exists|read: Result<C::Response, TypedResponseError>|
                    #[trigger] call_ensures(C::response, (cmd, f), read) && is_read(read, response),
                Err(e) => response == Err::<C::Response, CommandError>(e),
            },
    {
        match frame {
            Ok(f) => match cmd.response(f) {
                Ok(response) => Ok(response),
                Err(e) => Err(CommandError::from(e)),
            },
            Err(e) => Err(e),
        }
    }

    /// The response to a list of typed commands, read from the frames that they were answered with.
    /// There are none when there was nothing to send.
    pub fn command_list_reply<L: CommandList>(
        list: L,
        frames: Option<Result<Vec<Frame>, CommandError>>,
    ) -> (response: Result<L::Response, CommandError>)
        ensures
            match frames {
                Some(Ok(frames)) => exists|read: Result<L::Response, TypedResponseError>|
                    #[trigger] call_ensures(L::responses, (list, frames), read) && is_read(
                        read,
                        response,
                    ),
                Some(Err(e)) => response == Err::<L::Response, CommandError>(e),
                None => exists|none: Vec<Frame>, read: Result<L::Response, TypedResponseError>|
                    #[trigger] call_ensures(L::responses, (list, none), read) && none@.len() == 0
                        && is_read(read, response),
            },
    {
        let frames = match frames {
            Some(Ok(frames)) => frames,
            Some(Err(e)) => return Err(e),
            None => Vec::new(),
        };
        match list.responses(frames) {
            Ok(response) => Ok(response),
            Err(e) => Err(CommandError::from(e)),
        }
    }
}

impl ClientController {
    /// Whether the queue of a connection is closed after the given events: the control loop keeps
    /// its other end until it has ended.
    pub open spec fn queue_is_closed_after<R>(events: Seq<ControlEvent<R>>) -> bool {
        control_run(events).state is None
    }

    /// The outcome of the `n`th command of a connection, which is sent after the events `before`, as
    /// it stands when `more` has happened. There is none as long as its responder is kept.
    pub open spec fn outcome<R>(
        before: Seq<ControlEvent<R>>,
        more: Seq<ControlEvent<R>>,
        n: nat,
    ) -> Option<Result<Response, CommandError>> {
        let events = before + more;
        let answers = control_run(events).answers;
        match ClientController::queue_result(!ClientController::queue_is_closed_after(before)) {
            Err(e) => Some(Err(e)),
            Ok(()) => if n < answers.len() {
                Some(ClientController::send_result(Some(answers[n as int].1)))
            } else if is_kept(events, n) {
                None
            } else {
                Some(ClientController::send_result(None))
            },
        }
    }
}

/// The queue of a connection is closed exactly when the control loop has ended: the server closed
/// the connection cleanly, or a command could not be sent. It stays closed.
pub proof fn law_queue_is_closed_once_the_control_loop_has_ended<R>(
    events: Seq<ControlEvent<R>>,
    more: Seq<ControlEvent<R>>,
)
    requires
        is_control_run(events),
    ensures
        ClientController::queue_is_closed_after(events) <==> events.len() > 0 && (is_clean_close(
            events.last(),
        ) || is_failed_send(events.last())),
        ClientController::queue_is_closed_after(events) ==> ClientController::queue_is_closed_after(
            events + more,
        ),
{
    law_control_loop_ends_when_the_connection_is_closed(events);
    if control_run(events).state is None {
        law_ended_control_loop_stays_ended(events, more);
    }
}

/// Once the control loop has ended, every command fails because the connection is closed, and
/// nothing is sent.
pub proof fn law_commands_fail_once_the_control_loop_has_ended<R>(
    before: Seq<ControlEvent<R>>,
    more: Seq<ControlEvent<R>>,
    n: nat,
)
    requires
        control_run(before).state is None,
    ensures
        ClientController::outcome(before, more, n) == Some(
            Err::<Response, _>(CommandError::ConnectionClosed),
        ),
        control_run(before + more).sent == control_run(before).sent,
{
    law_ended_control_loop_stays_ended(before, more);
}

/// A command fails because the connection is closed exactly when the control loop has ended and the
/// command got no answer.
pub proof fn law_a_closed_connection_is_an_ended_control_loop<R>(
    before: Seq<ControlEvent<R>>,
    more: Seq<ControlEvent<R>>,
    n: nat,
)
    requires
        is_control_run(before + more),
        accepted(before).len() <= n,
    ensures
        ClientController::outcome(before, more, n) == Some(
            Err::<Response, _>(CommandError::ConnectionClosed),
        ) <==> control_run(before + more).state is None && control_run(
            before + more,
        ).answers.len() <= n,
{
    let events = before + more;
    law_no_answer_says_that_the_connection_is_closed(events);
    if control_run(events).answers.len() <= n {
        law_responders_are_kept_until_the_control_loop_ends(events, n);
    }
    if control_run(before).state is None {
        law_ended_control_loop_stays_ended(before, more);
        lemma_beginning_is_a_control_run(before, more);
        law_commands_are_answered_in_order(before);
    }
}

/// Once a command has failed because the connection is closed, every later command of any handle to
/// the connection fails for the same reason, and nothing more is sent.
pub proof fn law_a_closed_connection_stays_closed<R>(
    before: Seq<ControlEvent<R>>,
    more: Seq<ControlEvent<R>>,
    n: nat,
    between: Seq<ControlEvent<R>>,
    later: Seq<ControlEvent<R>>,
    m: nat,
)
    requires
        is_control_run(before + more),
        accepted(before).len() <= n,
        ClientController::outcome(before, more, n) == Some(
            Err::<Response, _>(CommandError::ConnectionClosed),
        ),
    ensures
        ClientController::queue_is_closed_after(before + more + between),
        ClientController::outcome(before + more + between, later, m) == Some(
            Err::<Response, _>(CommandError::ConnectionClosed),
        ),
        control_run(before + more + between + later).sent == control_run(before + more).sent,
{
    law_a_closed_connection_is_an_ended_control_loop(before, more, n);
    law_ended_control_loop_stays_ended(before + more, between);
    law_commands_fail_once_the_control_loop_has_ended(before + more + between, later, m);
}

/// The beginning of a run is a run.
proof fn lemma_beginning_is_a_control_run<R>(
    before: Seq<ControlEvent<R>>,
    more: Seq<ControlEvent<R>>,
)
    requires
        is_control_run(before + more),
    ensures
        is_control_run(before),
    decreases more.len(),
{
    if more.len() == 0 {
        assert(before + more == before);
    } else {
        assert((before + more).drop_last() == before + more.drop_last());
        lemma_beginning_is_a_control_run(before, more.drop_last());
    }
}

/// The response to a list of commands without an error gives all of its frames, one for each item,
/// in order.
pub proof fn law_a_list_without_an_error_gives_every_frame(
    response: Response,
    frames: Result<Vec<Frame>, CommandError>,
)
    requires
        call_ensures(ClientController::raw_command_list_reply, (Ok(response),), frames),
        forall|i: int|
            0 <= i < response_items(response).len() ==> #[trigger] response_items(
                response,
            )[i] is Ok,
    ensures
        frames matches Ok(out) && out@.len() == response_items(response).len() && forall|i: int|
            0 <= i < out@.len() ==> response_items(response)[i] == Ok::<Frame, RawError>(
                #[trigger] out@[i],
            ),
{
    law_frames_are_the_items_up_to_an_error(
        response_items(response),
        response_items(response).len() as int,
    );
}

/// The response to a list of commands with an error gives the error, with all frames before it, one
/// for each item and in order.
pub proof fn law_a_list_with_an_error_keeps_the_frames_before(
    response: Response,
    frames: Result<Vec<Frame>, CommandError>,
    n: int,
)
    requires
        call_ensures(ClientController::raw_command_list_reply, (Ok(response),), frames),
        0 <= n < response_items(response).len(),
        forall|i: int| 0 <= i < n ==> #[trigger] response_items(response)[i] is Ok,
        response_items(response)[n] is Err,
    ensures
        frames matches Err(CommandError::ErrorResponse { error, succesful_frames }) && {
            &&& is_copy(error, response_items(response)[n]->Err_0)
            &&& succesful_frames@.len() == n
            &&& forall|i: int|
                0 <= i < n ==> response_items(response)[i] == Ok::<Frame, RawError>(
                    #[trigger] succesful_frames@[i],
                )
        },
{
    law_frames_are_the_items_up_to_an_error(response_items(response), n);
}

/// Whether a reply holds what an error consists of.
pub open spec fn is_copy(reply: ErrorReply, error: RawError) -> bool {
    &&& reply.code == error_contents(error).code
    &&& reply.command_index == error_contents(error).command_index
    &&& match error_contents(error).current_command {
        Some(name) => reply.current_command matches Some(command) && command@ == name,
        None => reply.current_command is None,
    }
    &&& reply.message@ == error_contents(error).message
}

/// Collecting the items of a response gives every frame up to the first error, and the error if there
/// is one.
pub proof fn law_collected_frames_are_the_items(
    items: Vec<Result<Frame, RawError>>,
    frames: Result<Vec<Frame>, CommandError>,
    n: int,
)
    requires
        call_ensures(ClientController::collect_frames, (items,), frames),
        0 <= n <= items@.len(),
        forall|i: int| 0 <= i < n ==> #[trigger] items@[i] is Ok,
        n < items@.len() ==> items@[n] is Err,
    ensures
        n == items@.len() ==> (frames matches Ok(out) && out@.len() == n && forall|i: int|
            0 <= i < n ==> items@[i] == Ok::<Frame, RawError>(#[trigger] out@[i])),
        n < items@.len() ==> (frames matches Err(
            CommandError::ErrorResponse { error, succesful_frames },
        ) && is_copy(error, items@[n]->Err_0) && succesful_frames@.len() == n && forall|i: int|
            0 <= i < n ==> items@[i] == Ok::<Frame, RawError>(#[trigger] succesful_frames@[i])),
{
    law_frames_are_the_items_up_to_an_error(items@, n);
}

/// A single command gives the first frame of its response, or the error that stands there, without
/// any frames. An error on the way to the response is passed on, for lists of commands too.
pub proof fn law_a_command_gives_its_frame_or_its_error(
    reply: Result<Response, CommandError>,
    frame: Result<Frame, CommandError>,
    frames: Result<Vec<Frame>, CommandError>,
)
    requires
        call_ensures(ClientController::raw_command_reply, (reply,), frame),
        call_ensures(ClientController::raw_command_list_reply, (reply,), frames),
    ensures
        reply matches Ok(response) ==> {
            &&& response_items(response).len() > 0
            &&& match response_items(response)[0] {
                Ok(first) => frame == Ok::<Frame, CommandError>(first),
                Err(e) => frame matches Err(
                    CommandError::ErrorResponse { error, succesful_frames },
                ) && is_copy(error, e) && succesful_frames@.len() == 0,
            }
        },
        reply matches Err(e) ==> frame == Err::<Frame, CommandError>(e) && frames == Err::<
            Vec<Frame>,
            CommandError,
        >(e),
{
}

/// A single command is sent as a list of that command.
pub proof fn law_a_command_is_sent_as_it_is(command: RawCommand, commands: RawCommandList)
    requires
        call_ensures(ClientController::raw_command_request, (command,), commands),
    ensures
        list_commands(commands).len() == 1,
        list_commands(commands)[0] == command,
{
}

/// A typed command gives what it reads from its frame, and nothing else. A failure to read the frame
/// or to get it is its error.
pub proof fn law_a_typed_command_gives_what_it_reads<C: Command>(
    cmd: C,
    frame: Result<Frame, CommandError>,
    response: Result<C::Response, CommandError>,
)
    requires
        call_ensures(ClientController::command_reply::<C>, (cmd, frame), response),
    ensures
        match (frame, response) {
            (Ok(f), Ok(value)) => call_ensures(
                C::response,
                (cmd, f),
                Ok::<C::Response, TypedResponseError>(value),
            ),
            (Ok(f), Err(e)) => e matches CommandError::InvalidTypedResponse(error) && call_ensures(
                C::response,
                (cmd, f),
                Err::<C::Response, TypedResponseError>(error),
            ),
            (Err(e), _) => response == Err::<C::Response, CommandError>(e),
        },
{
}

/// A list of typed commands gives what it reads from its frames, and nothing else. Without commands
/// there are no frames. A failure to read the frames or to get them is its error.
pub proof fn law_a_typed_list_gives_what_it_reads<L: CommandList>(
    list: L,
    frames: Option<Result<Vec<Frame>, CommandError>>,
    response: Result<L::Response, CommandError>,
)
    requires
        call_ensures(ClientController::command_list_reply::<L>, (list, frames), response),
    ensures
        match (frames, response) {
            (Some(Ok(given)), Ok(value)) => call_ensures(
                L::responses,
                (list, given),
                Ok::<L::Response, TypedResponseError>(value),
            ),
            (Some(Ok(given)), Err(e)) => e matches CommandError::InvalidTypedResponse(error)
                && call_ensures(
                L::responses,
                (list, given),
                Err::<L::Response, TypedResponseError>(error),
            ),
            (Some(Err(e)), _) => response == Err::<L::Response, CommandError>(e),
            (None, _) => exists|none: Vec<Frame>, read: Result<L::Response, TypedResponseError>|
                #[trigger] call_ensures(L::responses, (list, none), read) && none@.len() == 0
                    && match read {
                    Ok(value) => response == Ok::<L::Response, CommandError>(value),
                    Err(e) => response == Err::<L::Response, CommandError>(
                        CommandError::InvalidTypedResponse(e),
                    ),
                },
        },
{
}

/// What came of queueing commands and of waiting for their answer is handed on as it is. A refusal
/// and a missing answer mean that the connection is closed, and nothing else does.
pub proof fn law_answers_are_handed_on(
    accepted: bool,
    queued: Result<(), CommandError>,
    answer: Option<Result<Response, CommandError>>,
    reply: Result<Response, CommandError>,
)
    requires
        call_ensures(ClientController::queue_reply, (accepted,), queued),
        call_ensures(ClientController::send_reply, (answer,), reply),
    ensures
        accepted <==> queued is Ok,
        !accepted <==> queued == Err::<(), CommandError>(CommandError::ConnectionClosed),
        answer matches Some(given) ==> reply == given,
        answer is None ==> reply == Err::<Response, CommandError>(CommandError::ConnectionClosed),
{
}

/// A handle tells the protocol version that it was made with, and so does every clone of it. A default
/// handle has no connection and tells no version.
pub proof fn law_a_handle_tells_its_protocol_version(
    sender: UnboundedSender<(RawCommandList, CommandResponder)>,
    protocol_version: &str,
    client: ClientController,
    clone: ClientController,
    none: ClientController,
    versions: (&str, &str, &str),
    open: (bool, bool, bool),
    text: String,
)
    requires
        call_ensures(ClientController::new, (sender, protocol_version), client),
        call_ensures(<ClientController as Clone>::clone, (&client,), clone),
        call_ensures(<ClientController as Default>::default, (), none),
        call_ensures(ClientController::protocol_version, (&client,), versions.0),
        call_ensures(ClientController::protocol_version, (&clone,), versions.1),
        call_ensures(ClientController::protocol_version, (&none,), versions.2),
        call_ensures(ClientController::has_connection, (&client,), open.0),
        call_ensures(ClientController::has_connection, (&clone,), open.1),
        call_ensures(ClientController::has_connection, (&none,), open.2),
        call_ensures(ClientController::describe, (&clone,), text),
    ensures
        versions.0@ == protocol_version@,
        versions.1@ == protocol_version@,
        versions.2@.len() == 0,
        open == (true, true, false),
        text@ == "Client { protocol_version: "@ + quoted(protocol_version@) + ", .. }"@,
{
}

/// Commands go into the queue that the handle was made with, just as they are and with their own
/// responder. What the queue says of it is the result. It is the same queue that tells whether the
/// connection is closed, and clones have it too.
pub(crate) proof fn law_a_handle_uses_its_queue(
    sender: UnboundedSender<(RawCommandList, CommandResponder)>,
    protocol_version: &str,
    client: ClientController,
    clone: ClientController,
    commands: RawCommandList,
    responder: CommandResponder,
    queued: Result<(), CommandError>,
    closed: bool,
)
    requires
        call_ensures(ClientController::new, (sender, protocol_version), client),
        clone == client || call_ensures(<ClientController as Clone>::clone, (&client,), clone),
        call_ensures(ClientController::enqueue, (&clone, commands, responder), queued),
        call_ensures(ClientController::is_connection_closed, (&clone,), closed),
    ensures
        call_ensures(
            send::<(RawCommandList, CommandResponder)>,
            (&sender, (commands, responder)),
            queued is Ok,
        ),
        queued matches Err(e) ==> e == CommandError::ConnectionClosed,
        call_ensures(
            is_sender_closed::<(RawCommandList, CommandResponder)>,
            (&sender,),
            closed,
        ),
{
}

/// Every handle to a connection takes commands and tells whether the connection is closed.
pub proof fn law_every_handle_to_a_connection_can_be_used(
    sender: UnboundedSender<(RawCommandList, CommandResponder)>,
    protocol_version: &str,
    client: ClientController,
    clone: ClientController,
    commands: RawCommandList,
    responder: CommandResponder,
)
    requires
        call_ensures(ClientController::new, (sender, protocol_version), client),
        call_ensures(<ClientController as Clone>::clone, (&client,), clone),
    ensures
        call_requires(ClientController::enqueue, (&client, commands, responder)),
        call_requires(ClientController::enqueue, (&clone, commands, responder)),
        call_requires(ClientController::is_connection_closed, (&client,)),
        call_requires(ClientController::is_connection_closed, (&clone,)),
{
}

} // verus!

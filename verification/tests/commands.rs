use std::io::{self, Read};

use bytes::BytesMut;
use mpd_client::buffer::MAX_LEN;
use mpd_client::client::album_art::{read_reply, AlbumArtLoad, AlbumArtStep, ArtSource};
use mpd_client::client::controller::CommandResponder;
use mpd_client::client::error::ErrorSource;
use mpd_client::client::runtime::{
    start_idle_loop, ControlEvent, ControlLoopState, ControlStep, IdleEvent, IdleState,
};
use mpd_client::client::{
    ClientController, ClientIdler, CommandError, ConnectWithPasswordError, ConnectionError,
    ConnectionEvent, Subsystem,
};
use mpd_client::commands::{Command, CommandList};
use mpd_client::protocol::ErrorReply;
use mpd_client::responses::{AlbumArt, TypedResponseError};
use mpd_protocol::command::{Command as RawCommand, CommandList as RawCommandList};
use mpd_protocol::response::{Frame, Response};
use mpd_protocol::{Connection, MpdProtocolError};
use tokio::sync::mpsc::unbounded_channel;
use tokio::sync::oneshot;

/// Hands out a greeting, then the text of a response.
struct Server {
    chunks: Vec<Vec<u8>>,
}

impl Read for Server {
    fn read(&mut self, buf: &mut [u8]) -> io::Result<usize> {
        if self.chunks.is_empty() {
            return Ok(0);
        }
        let chunk = self.chunks.remove(0);
        buf[..chunk.len()].copy_from_slice(&chunk);
        Ok(chunk.len())
    }
}

fn response(text: &str) -> Response {
    let server = Server { chunks: vec![b"OK MPD 0.23.5\n".to_vec(), text.as_bytes().to_vec()] };
    Connection::connect(server).unwrap().receive().unwrap().unwrap()
}

fn frames(text: &str) -> Vec<Frame> {
    response(text).into_iter().map(|frame| frame.unwrap()).collect()
}

fn error_reply(code: u64, message: &str) -> ErrorReply {
    ErrorReply { code, command_index: 0, current_command: None, message: message.to_string() }
}

fn error_response(code: u64) -> CommandError {
    CommandError::ErrorResponse {
        error: error_reply(code, "refused"),
        succesful_frames: Vec::new(),
    }
}

// ---------------------------------------------------------------------------------------------
// Errors
// ---------------------------------------------------------------------------------------------

#[test]
fn command_errors_describe_themselves() {
    assert_eq!(CommandError::ConnectionClosed.message(), "the connection is closed");
    assert_eq!(
        CommandError::from(MpdProtocolError::InvalidMessage).message(),
        "protocol error"
    );
    assert_eq!(
        CommandError::from(TypedResponseError::unexpected_field("a", "b")).message(),
        "response was invalid for typed command"
    );
    let error = CommandError::ErrorResponse {
        error: error_reply(50, "No such song"),
        succesful_frames: Vec::new(),
    };
    assert_eq!(error.message(), "command returned an error [code 50]: No such song");
    let error = CommandError::ErrorResponse {
        error: error_reply(2, ""),
        succesful_frames: frames("list_OK\nlist_OK\nOK\n"),
    };
    assert_eq!(
        error.message(),
        "command returned an error [code 2]:  (after 2 succesful frames)"
    );
}

#[test]
fn command_errors_name_their_source() {
    assert!(CommandError::ConnectionClosed.source().is_none());
    assert!(error_response(5).source().is_none());
    assert!(matches!(
        CommandError::from(MpdProtocolError::InvalidMessage).source(),
        Some(ErrorSource::Protocol(MpdProtocolError::InvalidMessage))
    ));
    let error = TypedResponseError::unexpected_field("a", "b");
    assert!(matches!(
        CommandError::from(error.clone()).source(),
        Some(ErrorSource::TypedResponse(e)) if *e == error
    ));
}

#[test]
fn connect_errors_describe_themselves() {
    let incorrect = ConnectWithPasswordError::IncorrectPassword;
    assert_eq!(incorrect.message(), "incorrect password");
    assert!(incorrect.source().is_none());
    let failed = ConnectWithPasswordError::from(MpdProtocolError::InvalidMessage);
    assert_eq!(failed.message(), "protocol error");
    assert!(matches!(failed.source(), Some(ErrorSource::Protocol(_))));
}

#[test]
fn connection_errors_describe_themselves() {
    assert_eq!(ConnectionError::InvalidResponse.message(), "invalid response");
    assert!(ConnectionError::InvalidResponse.source().is_none());
    let failed = ConnectionError::from(MpdProtocolError::InvalidMessage);
    assert_eq!(failed.message(), "protocol error");
    assert!(matches!(failed.source(), Some(ErrorSource::Protocol(_))));
}

// ---------------------------------------------------------------------------------------------
// Responses to raw commands
// ---------------------------------------------------------------------------------------------

#[test]
fn a_single_command_is_a_list_of_one() {
    let commands = ClientController::raw_command_request(RawCommand::new("status"));
    assert_eq!(commands, RawCommandList::new(RawCommand::new("status")));
    assert_eq!(commands.len(), 1);
}

#[test]
fn a_single_command_gets_the_first_frame() {
    let text = "volume: 50\nlist_OK\nvolume: 60\nlist_OK\nOK\n";
    let frame = ClientController::raw_command_reply(Ok(response(text))).unwrap();
    assert_eq!(frame.find("volume"), Some("50"));
}

#[test]
fn a_refused_command_gets_the_error() {
    let reply = Ok(response("ACK [50@0] {play} No such song\n"));
    match ClientController::raw_command_reply(reply) {
        Err(CommandError::ErrorResponse { error, succesful_frames }) => {
            assert_eq!(
                error,
                ErrorReply {
                    code: 50,
                    command_index: 0,
                    current_command: Some("play".to_string()),
                    message: "No such song".to_string(),
                }
            );
            assert!(succesful_frames.is_empty());
        }
        _ => panic!("not an error response"),
    }
}

#[test]
fn an_error_on_the_way_is_passed_on() {
    assert!(matches!(
        ClientController::raw_command_reply(Err(CommandError::ConnectionClosed)),
        Err(CommandError::ConnectionClosed)
    ));
    assert!(matches!(
        ClientController::raw_command_list_reply(Err(CommandError::ConnectionClosed)),
        Err(CommandError::ConnectionClosed)
    ));
}

#[test]
fn a_command_list_gets_all_frames() {
    let text = "volume: 50\nlist_OK\nlist_OK\nOK\n";
    let collected = ClientController::raw_command_list_reply(Ok(response(text))).unwrap();
    assert_eq!(collected, frames(text));
    assert_eq!(collected.len(), 2);
}

#[test]
fn a_command_list_that_fails_keeps_the_frames_before() {
    let text = "volume: 50\nlist_OK\nACK [5@1] {} unknown command\n";
    match ClientController::raw_command_list_reply(Ok(response(text))) {
        Err(CommandError::ErrorResponse { error, succesful_frames }) => {
            assert_eq!(error.code, 5);
            assert_eq!(error.command_index, 1);
            assert_eq!(error.current_command, None);
            assert_eq!(error.message, "unknown command");
            assert_eq!(succesful_frames, frames("volume: 50\nOK\n"));
        }
        _ => panic!("not an error response"),
    }
}

// ---------------------------------------------------------------------------------------------
// Responses to typed commands
// ---------------------------------------------------------------------------------------------

/// Asks for the volume.
struct Volume;

impl Command for Volume {
    type Response = String;

    fn command(&self) -> RawCommand {
        RawCommand::new("status")
    }

    fn response(self, mut frame: Frame) -> Result<String, TypedResponseError> {
        frame.get("volume").ok_or_else(|| TypedResponseError::unexpected_field("volume", ""))
    }
}

/// Counts the frames of a response.
struct Count;

impl CommandList for Count {
    type Response = usize;

    fn command_list(&self) -> Option<RawCommandList> {
        None
    }

    fn responses(self, frames: Vec<Frame>) -> Result<usize, TypedResponseError> {
        if frames.len() < 3 {
            Ok(frames.len())
        } else {
            Err(TypedResponseError::unexpected_field("end", "frame"))
        }
    }
}

#[test]
fn a_typed_command_reads_its_frame() {
    let frame = || frames("volume: 50\nOK\n").remove(0);
    assert!(matches!(
        ClientController::command_reply(Volume, Ok(frame())),
        Ok(volume) if volume == "50"
    ));
    assert!(matches!(
        ClientController::command_reply(Volume, Ok(frames("OK\n").remove(0))),
        Err(CommandError::InvalidTypedResponse(e))
            if e == TypedResponseError::unexpected_field("volume", "")
    ));
    assert!(matches!(
        ClientController::command_reply(Volume, Err(error_response(4))),
        Err(CommandError::ErrorResponse { error, .. }) if error.code == 4
    ));
}

#[test]
fn a_typed_command_list_reads_its_frames() {
    let two = frames("list_OK\nlist_OK\nOK\n");
    assert!(matches!(ClientController::command_list_reply(Count, Some(Ok(two))), Ok(2)));
    assert!(matches!(ClientController::command_list_reply(Count, None), Ok(0)));
    let three = frames("list_OK\nlist_OK\nlist_OK\nOK\n");
    assert!(matches!(
        ClientController::command_list_reply(Count, Some(Ok(three))),
        Err(CommandError::InvalidTypedResponse(_))
    ));
    assert!(matches!(
        ClientController::command_list_reply(Count, Some(Err(CommandError::ConnectionClosed))),
        Err(CommandError::ConnectionClosed)
    ));
}

// ---------------------------------------------------------------------------------------------
// Handles
// ---------------------------------------------------------------------------------------------

#[test]
fn a_default_handle_has_no_connection() {
    let controller = ClientController::default();
    assert!(!controller.has_connection());
    assert_eq!(controller.protocol_version(), "");
    let idler = ClientIdler::default();
    assert!(!idler.has_connection());
    assert_eq!(idler.protocol_version(), "");
}

#[test]
fn handles_tell_the_protocol_version() {
    let (sender, _receiver) = unbounded_channel();
    let controller = ClientController::new(sender, "0.23.5");
    assert!(controller.has_connection());
    assert_eq!(controller.clone().protocol_version(), "0.23.5");
    assert_eq!(controller.describe(), "Client { protocol_version: \"0.23.5\", .. }");
    let (_sender, receiver) = unbounded_channel();
    let idler = ClientIdler::new(receiver, "\"\n");
    assert!(idler.has_connection());
    assert_eq!(idler.protocol_version(), "\"\n");
    assert_eq!(idler.describe(), "Client { protocol_version: \"\\\"\\n\", .. }");
}

#[test]
fn commands_go_through_the_queue() {
    let (sender, mut receiver) = unbounded_channel::<(RawCommandList, CommandResponder)>();
    let controller = ClientController::new(sender, "0.23.5");
    assert!(!controller.is_connection_closed());
    let (responder, mut answer) = oneshot::channel();
    let commands = RawCommandList::new(RawCommand::new("ping"));
    assert!(controller.enqueue(commands.clone(), responder).is_ok());
    let (queued, responder) = receiver.try_recv().unwrap();
    assert_eq!(queued, commands);
    assert!(responder.send(Ok(response("OK\n"))).is_ok());
    let reply = ClientController::send_reply(answer.try_recv().ok());
    assert_eq!(reply.unwrap(), response("OK\n"));
}

#[test]
fn a_queue_without_a_reader_is_a_closed_connection() {
    let (sender, receiver) = unbounded_channel::<(RawCommandList, CommandResponder)>();
    let controller = ClientController::new(sender, "0.23.5");
    drop(receiver);
    assert!(controller.is_connection_closed());
    let (responder, _answer) = oneshot::channel();
    let commands = RawCommandList::new(RawCommand::new("ping"));
    assert!(matches!(
        controller.enqueue(commands, responder),
        Err(CommandError::ConnectionClosed)
    ));
    assert!(matches!(
        ClientController::queue_reply(false),
        Err(CommandError::ConnectionClosed)
    ));
    assert!(ClientController::queue_reply(true).is_ok());
}

#[test]
fn clones_share_the_queue() {
    let (sender, mut receiver) = unbounded_channel::<(RawCommandList, CommandResponder)>();
    let controller = ClientController::new(sender, "0.23.5");
    let clone = controller.clone();
    assert!(clone.has_connection());
    let (responder, _answer) = oneshot::channel();
    let commands = RawCommandList::new(RawCommand::new("ping"));
    assert!(clone.enqueue(commands.clone(), responder).is_ok());
    assert_eq!(receiver.try_recv().unwrap().0, commands);
    drop(receiver);
    for _ in 0..2 {
        for handle in [&controller, &clone, &clone.clone()] {
            assert!(handle.is_connection_closed());
            let (responder, _answer) = oneshot::channel();
            assert!(matches!(
                handle.enqueue(commands.clone(), responder),
                Err(CommandError::ConnectionClosed)
            ));
            assert_eq!(handle.protocol_version(), "0.23.5");
        }
    }
    assert!(!ClientController::default().clone().has_connection());
}

#[test]
fn commands_left_in_the_queue_get_no_answer_once_the_loop_has_ended() {
    let (sender, mut receiver) = unbounded_channel::<(RawCommandList, CommandResponder)>();
    let controller = ClientController::new(sender, "0.23.5");
    let mut answers = Vec::new();
    for name in ["ping", "status"] {
        let (responder, answer) = oneshot::channel();
        let commands = RawCommandList::new(RawCommand::new(name));
        assert!(controller.enqueue(commands, responder).is_ok());
        answers.push(answer);
    }
    let state = ControlLoopState::WaitingForCommand;
    let next = match state.step(ControlEvent::Command(receiver.try_recv().ok())) {
        ControlStep::Send { next, .. } => next,
        _ => panic!("nothing is sent"),
    };
    match next.step(ControlEvent::Sent(Err(MpdProtocolError::InvalidMessage))) {
        ControlStep::Answer { next: None, responder, answer } => {
            assert!(responder.send(answer).is_ok());
        }
        _ => panic!("the loop goes on"),
    }
    drop(receiver);
    assert!(matches!(
        ClientController::send_reply(answers[0].try_recv().ok()),
        Err(CommandError::Protocol(MpdProtocolError::InvalidMessage))
    ));
    assert!(matches!(
        ClientController::send_reply(answers[1].try_recv().ok()),
        Err(CommandError::ConnectionClosed)
    ));
    assert!(controller.is_connection_closed());
}

#[test]
fn a_dropped_responder_is_a_closed_connection() {
    let (responder, mut answer) = oneshot::channel::<Result<Response, CommandError>>();
    drop(responder);
    assert!(matches!(
        ClientController::send_reply(answer.try_recv().ok()),
        Err(CommandError::ConnectionClosed)
    ));
}

#[test]
fn an_idler_is_closed_once_its_loop_has_ended() {
    let (sender, receiver) = unbounded_channel::<ConnectionEvent>();
    let idler = ClientIdler::new(receiver, "0.23.5");
    assert!(!idler.is_connection_closed());
    assert!(sender.send(ConnectionEvent::SubsystemChange(Subsystem::Player)).is_ok());
    drop(sender);
    assert!(idler.is_connection_closed());
}

#[test]
fn an_idler_is_open_as_long_as_its_loop_goes_on() {
    let endings: Vec<fn() -> Vec<IdleEvent>> = vec![
        || vec![IdleEvent::Sent(Err(MpdProtocolError::InvalidMessage))],
        || vec![IdleEvent::Sent(Ok(())), IdleEvent::Received(Ok(None))],
        || vec![
            IdleEvent::Sent(Ok(())),
            IdleEvent::Received(Err(MpdProtocolError::InvalidMessage)),
        ],
        || vec![
            IdleEvent::Sent(Ok(())),
            IdleEvent::Received(Ok(Some(response("changed: player\nOK\n")))),
            IdleEvent::Sent(Ok(())),
            IdleEvent::Received(Ok(Some(response("ACK [4@0] {idle} no permission\n")))),
        ],
    ];
    for events in endings {
        let (sender, receiver) = unbounded_channel::<ConnectionEvent>();
        let idler = ClientIdler::new(receiver, "0.23.5");
        let mut state: Option<IdleState> = start_idle_loop().next();
        for event in events() {
            assert!(!idler.is_connection_closed());
            state = state.unwrap().step(event).next();
        }
        assert!(state.is_none());
        drop(sender);
        assert!(idler.is_connection_closed());
        assert!(idler.is_connection_closed());
    }
}

// ---------------------------------------------------------------------------------------------
// Pictures
// ---------------------------------------------------------------------------------------------

fn piece(size: usize, mime: Option<&str>, data: &[u8]) -> Result<Option<AlbumArt>, CommandError> {
    Ok(Some(AlbumArt { size, mime: mime.map(String::from), data: BytesMut::from(data) }))
}

/// Plays the replies through, and gives the requests with what the last reply led to, if it ended
/// the load.
fn load(
    replies: Vec<Result<Option<AlbumArt>, CommandError>>,
) -> (
    Vec<(ArtSource, usize)>,
    Option<Result<Option<(BytesMut, Option<String>)>, CommandError>>,
) {
    let mut requests = Vec::new();
    let mut step = AlbumArtLoad::start();
    for reply in replies {
        match step {
            AlbumArtStep::Request { next, source, offset } => {
                requests.push((source, offset));
                assert!(next.has_room(&reply));
                step = next.step(reply);
            }
            AlbumArtStep::Done(_) => panic!("a reply without a request"),
        }
    }
    match step {
        AlbumArtStep::Request { source, offset, .. } => {
            requests.push((source, offset));
            (requests, None)
        }
        AlbumArtStep::Done(result) => (requests, Some(result)),
    }
}

#[test]
fn pieces_are_asked_for_by_command() {
    assert_eq!(
        ArtSource::Embedded.command("a b.ogg", 0),
        RawCommand::new("readpicture").argument("a b.ogg").argument(0usize)
    );
    assert_eq!(
        format!("{:?}", ArtSource::Separate.command("a b.ogg", 8192)),
        "Command(b\"albumart \\\"a b.ogg\\\" 8192\")"
    );
}

#[test]
fn replies_are_read_from_frames() {
    let frame = frames("size: 2\nbinary: 1\na\nOK\n").remove(0);
    let art = read_reply(Ok(frame)).unwrap().unwrap();
    assert_eq!((art.size, &art.data[..]), (2, &b"a"[..]));
    assert!(matches!(read_reply(Ok(frames("OK\n").remove(0))), Ok(None)));
    assert!(matches!(
        read_reply(Ok(frames("binary: 1\na\nOK\n").remove(0))),
        Err(CommandError::InvalidTypedResponse(TypedResponseError::Missing { .. }))
    ));
    assert!(matches!(
        read_reply(Err(error_response(5))),
        Err(CommandError::ErrorResponse { error, .. }) if error.code == 5
    ));
}

#[test]
fn an_embedded_picture_is_loaded_piece_by_piece() {
    let (requests, result) = load(vec![
        piece(6, Some("image/png"), b"abc"),
        piece(99, Some("image/jpeg"), b"de"),
        piece(6, None, b"f"),
    ]);
    assert_eq!(
        requests,
        vec![(ArtSource::Embedded, 0), (ArtSource::Embedded, 3), (ArtSource::Embedded, 5)]
    );
    let (data, mime) = result.unwrap().unwrap().unwrap();
    assert_eq!(&data[..], b"abcdef");
    assert_eq!(mime.as_deref(), Some("image/png"));
}

#[test]
fn a_separate_picture_is_loaded_when_none_is_embedded() {
    let (requests, result) = load(vec![
        Ok(None),
        piece(4, Some("image/png"), b"ab"),
        piece(4, None, b"cd"),
    ]);
    assert_eq!(
        requests,
        vec![(ArtSource::Embedded, 0), (ArtSource::Separate, 0), (ArtSource::Separate, 2)]
    );
    let (data, mime) = result.unwrap().unwrap().unwrap();
    assert_eq!(&data[..], b"abcd");
    assert_eq!(mime, None);
}

#[test]
fn a_separate_picture_is_loaded_when_the_command_is_unknown() {
    let (requests, result) = load(vec![Err(error_response(5)), piece(1, None, b"x")]);
    assert_eq!(requests, vec![(ArtSource::Embedded, 0), (ArtSource::Separate, 0)]);
    let (data, _) = result.unwrap().unwrap().unwrap();
    assert_eq!(&data[..], b"x");
}

#[test]
fn a_picture_in_one_piece_needs_one_request() {
    let (requests, result) = load(vec![piece(3, None, b"abcd")]);
    assert_eq!(requests, vec![(ArtSource::Embedded, 0)]);
    let (data, mime) = result.unwrap().unwrap().unwrap();
    assert_eq!(&data[..], b"abcd");
    assert_eq!(mime, None);
    let (_, result) = load(vec![piece(0, None, b"")]);
    let (data, _) = result.unwrap().unwrap().unwrap();
    assert!(data.is_empty());
}

#[test]
fn no_picture_at_all() {
    let (requests, result) = load(vec![Ok(None), Ok(None)]);
    assert_eq!(requests, vec![(ArtSource::Embedded, 0), (ArtSource::Separate, 0)]);
    assert!(matches!(result, Some(Ok(None))));
}

#[test]
fn an_incomplete_picture_is_dropped() {
    let (requests, result) = load(vec![piece(6, None, b"abc"), Ok(None)]);
    assert_eq!(requests, vec![(ArtSource::Embedded, 0), (ArtSource::Embedded, 3)]);
    assert!(matches!(result, Some(Ok(None))));
}

#[test]
fn errors_end_the_load() {
    let (_, result) = load(vec![Err(error_response(50))]);
    assert!(matches!(
        result,
        Some(Err(CommandError::ErrorResponse { error, .. })) if error.code == 50
    ));
    let (_, result) = load(vec![Ok(None), Err(error_response(5))]);
    assert!(matches!(
        result,
        Some(Err(CommandError::ErrorResponse { error, .. })) if error.code == 5
    ));
    let (_, result) = load(vec![piece(6, None, b"abc"), Err(CommandError::ConnectionClosed)]);
    assert!(matches!(result, Some(Err(CommandError::ConnectionClosed))));
}

#[test]
fn a_piece_without_data_is_asked_for_again() {
    let (requests, result) = load(vec![piece(2, None, b"a"), piece(2, None, b"")]);
    assert_eq!(
        requests,
        vec![(ArtSource::Embedded, 0), (ArtSource::Embedded, 1), (ArtSource::Embedded, 1)]
    );
    assert!(result.is_none());
}

#[test]
fn a_picture_beyond_the_address_space_has_no_room() {
    assert!(!AlbumArtLoad::TryingEmbedded.has_room(&piece(usize::MAX, None, b"a")));
    assert!(!AlbumArtLoad::TryingSeparate.has_room(&piece(MAX_LEN, None, b"a")));
    assert!(AlbumArtLoad::TryingSeparate.has_room(&piece(MAX_LEN - 1, None, b"a")));
    assert!(AlbumArtLoad::TryingEmbedded.has_room(&Ok(None)));
}

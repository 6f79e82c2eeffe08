//! Loading the picture that belongs to a song.
//!
//! A picture embedded in the song file is asked for first, then one in a separate file. The server
//! sends it in pieces, and each further piece is asked for by its offset. Loading does no I/O. Each
//! step says what to ask for next, and takes the reply to it.

use vstd::prelude::*;

use bytes::BytesMut;
use mpd_protocol::command::Command as RawCommand;
use mpd_protocol::response::Frame;

use crate::buffer::{append, contents, len, reserve, MAX_LEN};
use crate::client::controller::is_read;
use crate::client::error::CommandError;
use crate::protocol::{
    command_line, frame_binary, frame_fields, law_arguments_are_sent_unambiguously,
    law_first_value, new_command, rendered_argument, with_argument, with_number,
};
use crate::responses::{
    is_absent, is_first, is_piece_of, optional_text, AlbumArt, AlbumArtView, TypedResponseError,
};
use crate::text::{decimal, law_decimal_reads_back, number};

verus! {

/// Where a picture is kept.
#[derive(Clone, Copy, Debug, PartialEq, Eq, Structural)]
pub enum ArtSource {
    /// In the song file.
    Embedded,
    /// In a file of its own, next to the song file.
    Separate,
}

impl ArtSource {
    /// The name of the command that asks for a piece of a picture.
    pub open spec fn command_name(self) -> Seq<char> {
        match self {
            ArtSource::Embedded => "readpicture"@,
            ArtSource::Separate => "albumart"@,
        }
    }

    /// The command that asks for the piece at `offset` of the picture of the song at `uri`.
    pub fn command(self, uri: &str, offset: usize) -> (command: RawCommand)
        requires
            !uri@.contains('\n'),
        ensures
            command_line(command) == self.command_name().push(' ') + rendered_argument(uri@) + seq![
                ' ',
            ] + decimal(offset as nat),
    {
        proof {
            reveal_strlit("readpicture");
            reveal_strlit("albumart");
            reveal_strlit("command_list");
            assert("readpicture"@.len() == 11);
            assert("albumart"@.len() == 8);
            assert("command_list"@.len() == 12);
        }
        let name = match self {
            ArtSource::Embedded => "readpicture",
            ArtSource::Separate => "albumart",
        };
        with_number(with_argument(new_command(name), uri.to_owned()), offset)
    }
}

/// How far a picture has been loaded.
pub enum AlbumArtLoad {
    /// An embedded picture was asked for.
    TryingEmbedded,
    /// A separate picture was asked for.
    TryingSeparate,
    /// A picture was found, and its next piece was asked for.
    Loading {
        /// Where the picture is kept.
        source: ArtSource,
        /// Number of bytes of the whole picture.
        size: usize,
        /// Media type of the picture, if it is known.
        mime: Option<String>,
        /// The bytes received so far.
        data: BytesMut,
    },
}

/// What to do next.
pub enum AlbumArtStep {
    /// Ask for a piece of the picture, and go on with the reply.
    Request {
        /// The load, waiting for the reply.
        next: AlbumArtLoad,
        /// Where the picture is kept.
        source: ArtSource,
        /// Number of bytes of the picture that come before the piece.
        offset: usize,
    },
    /// Loading is over: the bytes of the picture with its media type, or `None` if there is no
    /// picture or the server did not send all of it, or an error.
    Done(Result<Option<(BytesMut, Option<String>)>, CommandError>),
}

/// The contents of a reply: a piece of a picture, `None` if there is no picture, or an error.
pub type ReplyView = Result<Option<AlbumArtView>, CommandError>;

/// The contents of a reply.
pub open spec fn reply_view(reply: Result<Option<AlbumArt>, CommandError>) -> ReplyView {
    match reply {
        Ok(Some(art)) => Ok(Some(art@)),
        Ok(None) => Ok(None),
        Err(e) => Err(e),
    }
}

/// The contents of an [`AlbumArtLoad`].
#[verifier::ext_equal]
pub enum AlbumArtLoadView {
    TryingEmbedded,
    TryingSeparate,
    Loading { source: ArtSource, size: nat, mime: Option<Seq<char>>, data: Seq<u8> },
}

impl View for AlbumArtLoad {
    type V = AlbumArtLoadView;

    open spec fn view(&self) -> AlbumArtLoadView {
        match self {
            AlbumArtLoad::TryingEmbedded => AlbumArtLoadView::TryingEmbedded,
            AlbumArtLoad::TryingSeparate => AlbumArtLoadView::TryingSeparate,
            AlbumArtLoad::Loading { source, size, mime, data } => AlbumArtLoadView::Loading {
                source: *source,
                size: *size as nat,
                mime: optional_text(*mime),
                data: contents(*data),
            },
        }
    }
}

/// The contents of an [`AlbumArtStep`].
#[verifier::ext_equal]
pub enum AlbumArtStepView {
    Request { next: AlbumArtLoadView, source: ArtSource, offset: nat },
    Done(Result<Option<(Seq<u8>, Option<Seq<char>>)>, CommandError>),
}

impl View for AlbumArtStep {
    type V = AlbumArtStepView;

    open spec fn view(&self) -> AlbumArtStepView {
        match self {
            AlbumArtStep::Request { next, source, offset } => AlbumArtStepView::Request {
                next: next@,
                source: *source,
                offset: *offset as nat,
            },
            AlbumArtStep::Done(Ok(Some((data, mime)))) => AlbumArtStepView::Done(
                Ok(Some((contents(*data), optional_text(*mime)))),
            ),
            AlbumArtStep::Done(Ok(None)) => AlbumArtStepView::Done(Ok(None)),
            AlbumArtStep::Done(Err(e)) => AlbumArtStepView::Done(Err(*e)),
        }
    }
}

/// Whether the server does not know the command it was sent.
pub open spec fn is_unknown_command(error: CommandError) -> bool {
    error matches CommandError::ErrorResponse { error: reply, .. } && reply.code == 5
}

/// The first request: the start of an embedded picture.
pub open spec fn first_request() -> AlbumArtStepView {
    AlbumArtStepView::Request {
        next: AlbumArtLoadView::TryingEmbedded,
        source: ArtSource::Embedded,
        offset: 0,
    }
}

/// The request for the start of a separate picture.
pub open spec fn separate_request() -> AlbumArtStepView {
    AlbumArtStepView::Request {
        next: AlbumArtLoadView::TryingSeparate,
        source: ArtSource::Separate,
        offset: 0,
    }
}

/// The request for the next piece of a picture, or its end if all of it was received.
pub open spec fn next_piece(
    source: ArtSource,
    size: nat,
    mime: Option<Seq<char>>,
    data: Seq<u8>,
) -> AlbumArtStepView {
    if data.len() < size {
        AlbumArtStepView::Request {
            next: AlbumArtLoadView::Loading { source, size, mime, data },
            source,
            offset: data.len(),
        }
    } else {
        AlbumArtStepView::Done(Ok(Some((data, mime))))
    }
}

impl AlbumArtLoadView {
    /// Whether there is room for the picture: for as many bytes again as its first piece announces,
    /// and for each further piece.
    pub open spec fn has_room(self, reply: ReplyView) -> bool {
        match (self, reply) {
            (AlbumArtLoadView::Loading { data, .. }, Ok(Some(art))) => data.len() + art.data.len()
                <= MAX_LEN,
            (_, Ok(Some(art))) => art.data.len() + art.size <= MAX_LEN,
            _ => true,
        }
    }

    /// What to do after a reply.
    pub open spec fn next(self, reply: ReplyView) -> AlbumArtStepView {
        match (self, reply) {
            (AlbumArtLoadView::TryingEmbedded, Ok(Some(art))) => next_piece(
                ArtSource::Embedded,
                art.size,
                art.mime,
                art.data,
            ),
            (AlbumArtLoadView::TryingEmbedded, Ok(None)) => separate_request(),
            (AlbumArtLoadView::TryingEmbedded, Err(e)) => if is_unknown_command(e) {
                separate_request()
            } else {
                AlbumArtStepView::Done(Err(e))
            },
            (AlbumArtLoadView::TryingSeparate, Ok(Some(art))) => next_piece(
                ArtSource::Separate,
                art.size,
                None,
                art.data,
            ),
            (
                AlbumArtLoadView::Loading { source, size, mime, data },
                Ok(Some(art)),
            ) => next_piece(source, size, mime, data + art.data),
            (_, Ok(None)) => AlbumArtStepView::Done(Ok(None)),
            (_, Err(e)) => AlbumArtStepView::Done(Err(e)),
        }
    }
}

impl AlbumArtLoad {
    /// Starts to load a picture.
    pub fn start() -> (step: AlbumArtStep)
        ensures
            step@ == first_request(),
    {
        AlbumArtStep::Request {
            next: AlbumArtLoad::TryingEmbedded,
            source: ArtSource::Embedded,
            offset: 0,
        }
    }

    /// Whether there is room for the picture that a reply announces or continues.
    pub fn has_room(&self, reply: &Result<Option<AlbumArt>, CommandError>) -> (room: bool)
        ensures
            room == self@.has_room(reply_view(*reply)),
    {
        match reply {
            Ok(Some(art)) => {
                let received = len(&art.data);
                match self {
                    AlbumArtLoad::Loading { data, .. } => {
                        received <= MAX_LEN && len(data) <= MAX_LEN - received
                    },
                    _ => received <= MAX_LEN && art.size <= MAX_LEN - received,
                }
            },
            _ => true,
        }
    }

    /// Takes the reply to the last request.
    pub fn step(self, reply: Result<Option<AlbumArt>, CommandError>) -> (step: AlbumArtStep)
        requires
            self@.has_room(reply_view(reply)),
        ensures
            step@ == self@.next(reply_view(reply)),
    {
        match self {
            AlbumArtLoad::TryingEmbedded => match reply {
                Ok(Some(resp)) => AlbumArtLoad::found(
                    ArtSource::Embedded,
                    resp.size,
                    resp.mime,
                    resp.data,
                ),
                // No embedded picture, falling back
                Ok(None) => AlbumArtLoad::fall_back(),
                Err(e) => match &e {
                    // The command is not supported, falling back
                    CommandError::ErrorResponse { error, .. } if error.code == 5 => {
                        AlbumArtLoad::fall_back()
                    },
                    _ => AlbumArtStep::Done(Err(e)),
                },
            },
            AlbumArtLoad::TryingSeparate => match reply {
                Ok(Some(resp)) => AlbumArtLoad::found(
                    ArtSource::Separate,
                    resp.size,
                    None,
                    resp.data,
                ),
                // Neither an embedded nor a separate picture
                Ok(None) => AlbumArtStep::Done(Ok(None)),
                Err(e) => AlbumArtStep::Done(Err(e)),
            },
            AlbumArtLoad::Loading { source, size, mime, data } => match reply {
                Ok(Some(resp)) => {
                    let mut data = data;
                    append(&mut data, &resp.data);
                    AlbumArtLoad::advance(source, size, mime, data)
                },
                // The server stopped before the end of the picture
                Ok(None) => AlbumArtStep::Done(Ok(None)),
                Err(e) => AlbumArtStep::Done(Err(e)),
            },
        }
    }

    /// Asks for the start of a separate picture.
    fn fall_back() -> (step: AlbumArtStep)
        ensures
            step@ == separate_request(),
    {
        AlbumArtStep::Request {
            next: AlbumArtLoad::TryingSeparate,
            source: ArtSource::Separate,
            offset: 0,
        }
    }

    /// Goes on after the first piece of a picture.
    fn found(source: ArtSource, size: usize, mime: Option<String>, data: BytesMut) -> (step:
        AlbumArtStep)
        requires
            contents(data).len() + size <= MAX_LEN,
        ensures
            step@ == next_piece(source, size as nat, optional_text(mime), contents(data)),
    {
        let mut data = data;
        reserve(&mut data, size);
        AlbumArtLoad::advance(source, size, mime, data)
    }

    /// Asks for the next piece of a picture, unless all of it was received.
    fn advance(source: ArtSource, size: usize, mime: Option<String>, data: BytesMut) -> (step:
        AlbumArtStep)
        ensures
            step@ == next_piece(source, size as nat, optional_text(mime), contents(data)),
    {
        let offset = len(&data);
        if offset < size {
            AlbumArtStep::Request {
                next: AlbumArtLoad::Loading { source, size, mime, data },
                source,
                offset,
            }
        } else {
            AlbumArtStep::Done(Ok(Some((data, mime))))
        }
    }
}

/// The reply to a request, read from the frame that its command was answered with.
pub fn read_reply(frame: Result<Frame, CommandError>) -> (reply: Result<
    Option<AlbumArt>,
    CommandError,
>)
    ensures
        match frame {
            Ok(f) => exists|read: Result<Option<AlbumArt>, TypedResponseError>|
                #[trigger] is_piece_of(f, read) && is_read(read, reply),
            Err(e) => reply == Err::<Option<AlbumArt>, CommandError>(e),
        },
{
    match frame {
        Ok(f) => match AlbumArt::from_frame(f) {
            Ok(art) => Ok(art),
            Err(e) => Err(CommandError::from(e)),
        },
        Err(e) => Err(e),
    }
}

/// What to do after the given replies.
pub open spec fn step_after(replies: Seq<ReplyView>) -> AlbumArtStepView
    decreases replies.len(),
{
    if replies.len() == 0 {
        first_request()
    } else {
        match step_after(replies.drop_last()) {
            AlbumArtStepView::Request { next, .. } => next.next(replies.last()),
            AlbumArtStepView::Done(result) => AlbumArtStepView::Done(result),
        }
    }
}

/// Whether each reply answers a request.
pub open spec fn is_load(replies: Seq<ReplyView>) -> bool
    decreases replies.len(),
{
    replies.len() > 0 ==> is_load(replies.drop_last()) && step_after(
        replies.drop_last(),
    ) is Request
}

/// The bytes of all pieces that were received, in order.
pub open spec fn received(replies: Seq<ReplyView>) -> Seq<u8>
    decreases replies.len(),
{
    if replies.len() == 0 {
        seq![]
    } else {
        match replies.last() {
            Ok(Some(art)) => received(replies.drop_last()) + art.data,
            _ => received(replies.drop_last()),
        }
    }
}

/// Whether a reply to the first request makes the load go on with a separate picture.
pub open spec fn falls_back(reply: ReplyView) -> bool {
    match reply {
        Ok(Some(_)) => false,
        Ok(None) => true,
        Err(e) => is_unknown_command(e),
    }
}

/// Whether the replies start with a picture from the given source: with its first piece if it is
/// embedded, and after a first reply that makes the load fall back if it is separate.
pub open spec fn finds(replies: Seq<ReplyView>, source: ArtSource, first: AlbumArtView) -> bool {
    match source {
        ArtSource::Embedded => replies.len() > 0 && replies[0] == Ok::<
            Option<AlbumArtView>,
            CommandError,
        >(Some(first)),
        ArtSource::Separate => replies.len() > 1 && falls_back(replies[0]) && replies[1] == Ok::<
            Option<AlbumArtView>,
            CommandError,
        >(Some(first)),
    }
}

/// The first piece of the picture that the replies start with.
pub open spec fn first_piece(replies: Seq<ReplyView>) -> AlbumArtView {
    match replies[0] {
        Ok(Some(art)) => art,
        _ => replies[1]->Ok_0->Some_0,
    }
}

/// The source of the picture that the replies start with.
pub open spec fn found_source(replies: Seq<ReplyView>) -> ArtSource {
    match replies[0] {
        Ok(Some(_)) => ArtSource::Embedded,
        _ => ArtSource::Separate,
    }
}

/// The media type that is known of a picture: only that of an embedded one is told.
pub open spec fn known_mime(replies: Seq<ReplyView>) -> Option<Seq<char>> {
    match found_source(replies) {
        ArtSource::Embedded => first_piece(replies).mime,
        ArtSource::Separate => None,
    }
}

/// Every state of a load: which requests were made, and what was received.
proof fn lemma_load(replies: Seq<ReplyView>)
    requires
        is_load(replies),
    ensures
        match step_after(replies) {
            AlbumArtStepView::Request {
                next: AlbumArtLoadView::TryingEmbedded,
                source,
                offset,
            } => replies.len() == 0 && source == ArtSource::Embedded && offset == 0,
            AlbumArtStepView::Request {
                next: AlbumArtLoadView::TryingSeparate,
                source,
                offset,
            } => {
                &&& replies.len() == 1
                &&& falls_back(replies[0])
                &&& source == ArtSource::Separate
                &&& offset == 0
            },
            AlbumArtStepView::Request {
                next: AlbumArtLoadView::Loading { source: kept, size, mime, data },
                source,
                offset,
            } => {
                &&& finds(replies, source, first_piece(replies))
                &&& source == found_source(replies)
                &&& kept == source
                &&& size == first_piece(replies).size
                &&& mime == known_mime(replies)
                &&& data == received(replies)
                &&& offset == data.len()
                &&& offset < size
            },
            AlbumArtStepView::Done(Ok(Some((data, mime)))) => {
                &&& finds(replies, found_source(replies), first_piece(replies))
                &&& mime == known_mime(replies)
                &&& data == received(replies)
                &&& data.len() >= first_piece(replies).size
            },
            AlbumArtStepView::Done(Ok(None)) => replies.len() > 1 && replies.last() matches Ok(
                None,
            ),
            AlbumArtStepView::Done(Err(e)) => {
                &&& replies.len() > 0
                &&& replies.last() == Err::<Option<AlbumArtView>, CommandError>(e)
                &&& replies.len() == 1 ==> !is_unknown_command(e)
            },
        },
    decreases replies.len(),
{
    reveal_with_fuel(received, 3);
    if replies.len() > 0 {
        lemma_load(replies.drop_last());
    }
}

/// A picture that was loaded consists of all pieces that were received, in order and complete: it
/// has at least as many bytes as the first piece announced. It comes with the media type of the
/// first piece if it is embedded, and with none otherwise.
pub proof fn law_picture_is_its_pieces(replies: Seq<ReplyView>)
    requires
        is_load(replies),
        step_after(replies) matches AlbumArtStepView::Done(Ok(Some(_))),
    ensures
        finds(replies, found_source(replies), first_piece(replies)),
        step_after(replies) == AlbumArtStepView::Done(
            Ok(Some((received(replies), known_mime(replies)))),
        ),
        received(replies).len() >= first_piece(replies).size,
{
    lemma_load(replies);
}

/// A picture of which all pieces were received is returned.
pub proof fn law_complete_picture_is_returned(replies: Seq<ReplyView>)
    requires
        is_load(replies),
        finds(replies, found_source(replies), first_piece(replies)),
        replies.last() matches Ok(Some(_)),
        received(replies).len() >= first_piece(replies).size,
    ensures
        step_after(replies) == AlbumArtStepView::Done(
            Ok(Some((received(replies), known_mime(replies)))),
        ),
{
    lemma_load(replies);
}

/// Each piece is asked for at the offset up to which the picture was received, and none is asked
/// for once the picture is complete.
pub proof fn law_next_piece_follows_the_received_ones(replies: Seq<ReplyView>)
    requires
        is_load(replies),
        step_after(replies) is Request,
    ensures
        step_after(replies)->offset == received(replies).len(),
        step_after(replies)->next is Loading ==> received(replies).len() < first_piece(
            replies,
        ).size,
{
    reveal_with_fuel(received, 3);
    lemma_load(replies);
}

/// An embedded picture is asked for first. A separate one is asked for exactly when the first reply
/// is that there is no embedded picture or that the command is unknown, and from then on.
pub proof fn law_embedded_picture_comes_first(replies: Seq<ReplyView>)
    requires
        is_load(replies),
        step_after(replies) is Request,
    ensures
        step_after(replies)->source == ArtSource::Separate <==> replies.len() > 0 && falls_back(
            replies[0],
        ),
{
    lemma_load(replies);
}

/// Loading ends without a picture when a reply after the first says that there is none. It ends
/// with an error when a reply is that error, unless the first reply is that the command is unknown.
pub proof fn law_load_without_a_picture(replies: Seq<ReplyView>)
    requires
        is_load(replies),
        replies.len() > 0,
    ensures
        (step_after(replies) matches AlbumArtStepView::Done(Ok(None))) <==> replies.len() > 1
            && replies.last() == Ok::<Option<AlbumArtView>, CommandError>(None),
        forall|e: CommandError|
            #![trigger is_unknown_command(e)]
            step_after(replies) == AlbumArtStepView::Done(Err(e)) <==> replies.last() == Err::<
                Option<AlbumArtView>,
                CommandError,
            >(e) && !(replies.len() == 1 && is_unknown_command(e)),
{
    lemma_load(replies);
    lemma_load(replies.drop_last());
}

/// The command for a piece names its source, the whole URI of the song and the offset of the piece.
pub proof fn law_a_piece_is_asked_for_by_uri_and_offset(
    source: ArtSource,
    uri: &str,
    offset: usize,
    command: RawCommand,
)
    requires
        call_ensures(ArtSource::command, (source, uri, offset), command),
    ensures
        command_line(command) == (match source {
            ArtSource::Embedded => "readpicture"@,
            ArtSource::Separate => "albumart"@,
        }) + seq![' '] + rendered_argument(uri@) + seq![' '] + decimal(offset as nat),
{
    let name = match source {
        ArtSource::Embedded => "readpicture"@,
        ArtSource::Separate => "albumart"@,
    };
    assert(name.push(' ') == name + seq![' ']);
}

/// The pieces of two songs are never asked for by the same command.
pub proof fn law_songs_are_told_apart(
    source: ArtSource,
    uris: (&str, &str),
    offset: usize,
    commands: (RawCommand, RawCommand),
)
    requires
        call_ensures(ArtSource::command, (source, uris.0, offset), commands.0),
        call_ensures(ArtSource::command, (source, uris.1, offset), commands.1),
        command_line(commands.0) == command_line(commands.1),
    ensures
        uris.0@ == uris.1@,
{
    law_a_piece_is_asked_for_by_uri_and_offset(source, uris.0, offset, commands.0);
    law_a_piece_is_asked_for_by_uri_and_offset(source, uris.1, offset, commands.1);
    let head = (match source {
        ArtSource::Embedded => "readpicture"@,
        ArtSource::Separate => "albumart"@,
    }) + seq![' '];
    let tail = seq![' '] + decimal(offset as nat);
    let (left, right) = (rendered_argument(uris.0@), rendered_argument(uris.1@));
    let line = command_line(commands.0);
    assert(line == head + left + tail);
    assert(line == head + right + tail);
    assert(line.subrange(head.len() as int, line.len() - tail.len()) == left);
    assert(line.subrange(head.len() as int, line.len() - tail.len()) == right);
    law_arguments_are_sent_unambiguously(uris.0@, uris.1@);
}

/// Whether an optional string is the same text as another one.
pub open spec fn is_same_text(left: Option<String>, right: Option<String>) -> bool {
    match (left, right) {
        (Some(l), Some(r)) => l@ == r@,
        (None, None) => true,
        _ => false,
    }
}

/// Whether `step` goes on with a picture of which `received` is there: it asks for the piece after
/// that if bytes are missing, and returns the picture if none is.
pub open spec fn goes_on(
    step: AlbumArtStep,
    source: ArtSource,
    size: usize,
    mime: Option<String>,
    received: Seq<u8>,
) -> bool {
    if received.len() < size {
        step matches AlbumArtStep::Request {
            next: AlbumArtLoad::Loading { source: kept, size: whole, mime: known, data },
            source: asked,
            offset,
        } && {
            &&& kept == source
            &&& asked == source
            &&& whole == size
            &&& is_same_text(known, mime)
            &&& contents(data) == received
            &&& offset == received.len()
        }
    } else {
        step matches AlbumArtStep::Done(Ok(Some((data, known)))) && contents(data) == received
            && is_same_text(known, mime)
    }
}

/// Whether `step` asks for the start of a separate picture.
pub open spec fn asks_for_separate(step: AlbumArtStep) -> bool {
    step matches AlbumArtStep::Request { next, source, offset } && next is TryingSeparate && source
        == ArtSource::Separate && offset == 0
}

/// Loading starts with the start of an embedded picture.
pub proof fn law_a_load_starts_with_the_embedded_picture(step: AlbumArtStep)
    requires
        call_ensures(AlbumArtLoad::start, (), step),
    ensures
        step matches AlbumArtStep::Request { next, source, offset } && next is TryingEmbedded
            && source == ArtSource::Embedded && offset == 0,
{
}

/// If there is an embedded picture, it is loaded, with its media type. If there is none, or if the
/// server does not know the command, a separate one is asked for. Any other error ends the load.
pub proof fn law_what_follows_the_reply_on_the_embedded_picture(
    reply: Result<Option<AlbumArt>, CommandError>,
    step: AlbumArtStep,
)
    requires
        call_ensures(AlbumArtLoad::step, (AlbumArtLoad::TryingEmbedded, reply), step),
    ensures
        match reply {
            Ok(Some(art)) => goes_on(
                step,
                ArtSource::Embedded,
                art.size,
                art.mime,
                contents(art.data),
            ),
            Ok(None) => asks_for_separate(step),
            Err(e) => match e {
                CommandError::ErrorResponse { error, .. } if error.code == 5 => asks_for_separate(
                    step,
                ),
                _ => step == AlbumArtStep::Done(Err(e)),
            },
        },
{
    assert(step@ == AlbumArtLoadView::TryingEmbedded.next(reply_view(reply)));
    assert(step@ is Request || step@ is Done);
}

/// If there is a separate picture, it is loaded, without a media type. If there is none, the load
/// ends without a picture. Any error ends it too.
pub proof fn law_what_follows_the_reply_on_the_separate_picture(
    reply: Result<Option<AlbumArt>, CommandError>,
    step: AlbumArtStep,
)
    requires
        call_ensures(AlbumArtLoad::step, (AlbumArtLoad::TryingSeparate, reply), step),
    ensures
        match reply {
            Ok(Some(art)) => goes_on(
                step,
                ArtSource::Separate,
                art.size,
                None,
                contents(art.data),
            ),
            Ok(None) => step matches AlbumArtStep::Done(Ok(None)),
            Err(e) => step == AlbumArtStep::Done(Err(e)),
        },
{
    assert(step@ == AlbumArtLoadView::TryingSeparate.next(reply_view(reply)));
    assert(step@ is Request || step@ is Done);
}

/// Each further piece is put after the bytes that were received before, all of it. The source, the
/// size and the media type stay what they are. Without a further piece there is no picture, and any
/// error ends the load.
pub proof fn law_what_follows_a_further_piece(
    load: AlbumArtLoad,
    reply: Result<Option<AlbumArt>, CommandError>,
    step: AlbumArtStep,
)
    requires
        load is Loading,
        call_ensures(AlbumArtLoad::step, (load, reply), step),
    ensures
        load matches AlbumArtLoad::Loading { source, size, mime, data } && match reply {
            Ok(Some(art)) => goes_on(
                step,
                source,
                size,
                mime,
                contents(data) + contents(art.data),
            ),
            Ok(None) => step matches AlbumArtStep::Done(Ok(None)),
            Err(e) => step == AlbumArtStep::Done(Err(e)),
        },
{
    assert(step@ == load@.next(reply_view(reply)));
    assert(step@ is Request || step@ is Done);
}

/// There is room for a picture as long as all of its bytes, and those that were received, fit the
/// largest buffer.
pub proof fn law_there_is_room_up_to_the_largest_buffer(
    load: AlbumArtLoad,
    reply: Result<Option<AlbumArt>, CommandError>,
    room: bool,
)
    requires
        call_ensures(AlbumArtLoad::has_room, (&load, &reply), room),
    ensures
        match (load, reply) {
            (AlbumArtLoad::Loading { data, .. }, Ok(Some(art))) => room <==> contents(data).len()
                + contents(art.data).len() <= usize::MAX / 8,
            (_, Ok(Some(art))) => room <==> contents(art.data).len() + art.size <= usize::MAX / 8,
            _ => room,
        },
{
}

/// A reply is the piece of its frame: its bytes, the size that its first `size` field tells and the
/// media type of its first `type` field.
pub proof fn law_a_reply_is_the_piece_of_its_frame(
    frame: Frame,
    reply: Result<Option<AlbumArt>, CommandError>,
    i: int,
    n: nat,
)
    requires
        call_ensures(read_reply, (Ok(frame),), reply),
        frame_binary(frame) is Some,
        is_first(frame_fields(frame), i),
        frame_fields(frame)[i].0 == "size"@,
        n <= usize::MAX,
        frame_fields(frame)[i].1 == decimal(n) || number(frame_fields(frame)[i].1) == Some(
            n as usize,
        ),
    ensures
        reply matches Ok(Some(piece)) && {
            &&& piece.size == n
            &&& frame_binary(frame) == Some(contents(piece.data))
            &&& forall|j: int|
                #[trigger] is_first(frame_fields(frame), j) && frame_fields(frame)[j].0 == "type"@
                    ==> (piece.mime matches Some(mime) && mime@ == frame_fields(frame)[j].1)
            &&& is_absent(frame_fields(frame), "type"@) ==> piece.mime is None
        },
{
    law_first_value(frame_fields(frame), "size"@);
    law_first_value(frame_fields(frame), "type"@);
    law_decimal_reads_back(n);
}

/// A reply has no piece exactly when its frame has no bytes. A frame with bytes that does not tell
/// the size of the picture, or not as a number, is an invalid response. An error in place of the
/// frame is passed on.
pub proof fn law_replies_without_a_piece(
    frame: Result<Frame, CommandError>,
    reply: Result<Option<AlbumArt>, CommandError>,
)
    requires
        call_ensures(read_reply, (frame,), reply),
    ensures
        match frame {
            Ok(f) => {
                &&& (reply matches Ok(None)) <==> frame_binary(f) is None
                &&& frame_binary(f) is Some && is_absent(frame_fields(f), "size"@) ==> (
                reply matches Err(
                    CommandError::InvalidTypedResponse(TypedResponseError::Missing { field }),
                ) && field@ == "size"@)
                &&& forall|i: int|
                    frame_binary(f) is Some && #[trigger] is_first(frame_fields(f), i)
                        && frame_fields(f)[i].0 == "size"@ && number(frame_fields(f)[i].1) is None
                        ==> (reply matches Err(
                        CommandError::InvalidTypedResponse(
                            TypedResponseError::InvalidValue { field, value },
                        ),
                    ) && field@ == "size"@ && value@ == frame_fields(f)[i].1)
            },
            Err(e) => reply == Err::<Option<AlbumArt>, CommandError>(e),
        },
{
    if frame is Ok {
        law_first_value(frame_fields(frame->Ok_0), "size"@);
    }
}

/// Whether every piece among the replies is the part of `picture` that it was asked for, and tells
/// the size of the whole.
pub open spec fn are_pieces_of(replies: Seq<ReplyView>, picture: Seq<u8>) -> bool {
    forall|i: int|
        0 <= i < replies.len() && (#[trigger] replies[i] matches Ok(Some(_))) ==> {
            let piece = replies[i]->Ok_0->Some_0;
            let start = step_after(replies.take(i))->offset as int;
            &&& piece.size == picture.len()
            &&& start + piece.data.len() <= picture.len()
            &&& piece.data == picture.subrange(start, start + piece.data.len())
        }
}

/// What was received of a picture is its beginning.
proof fn lemma_received_is_the_beginning(replies: Seq<ReplyView>, picture: Seq<u8>)
    requires
        is_load(replies),
        are_pieces_of(replies, picture),
    ensures
        received(replies).len() <= picture.len(),
        received(replies) == picture.take(received(replies).len() as int),
    decreases replies.len(),
{
    if replies.len() > 0 {
        let front = replies.drop_last();
        let n = front.len() as int;
        assert(replies.take(n) == front);
        assert forall|i: int| 0 <= i < front.len() && (#[trigger] front[i] matches Ok(Some(_))) implies {
            let piece = front[i]->Ok_0->Some_0;
            let start = step_after(front.take(i))->offset as int;
            &&& piece.size == picture.len()
            &&& start + piece.data.len() <= picture.len()
            &&& piece.data == picture.subrange(start, start + piece.data.len())
        } by {
            assert(front[i] == replies[i]);
            assert(front.take(i) == replies.take(i));
        }
        lemma_received_is_the_beginning(front, picture);
        law_next_piece_follows_the_received_ones(front);
        if replies.last() matches Ok(Some(_)) {
            assert(replies[n] matches Ok(Some(_)));
        }
    }
}

/// A picture that the server sends in pieces, each as it was asked for, is put together again: what
/// is returned is the picture, byte for byte.
pub proof fn law_the_picture_is_put_together_again(replies: Seq<ReplyView>, picture: Seq<u8>)
    requires
        is_load(replies),
        are_pieces_of(replies, picture),
        step_after(replies) matches AlbumArtStepView::Done(Ok(Some(_))),
    ensures
        step_after(replies) matches AlbumArtStepView::Done(Ok(Some((data, _)))) && data == picture,
{
    lemma_received_is_the_beginning(replies, picture);
    law_picture_is_its_pieces(replies);
    let i: int = if replies[0] matches Ok(Some(_)) {
        0
    } else {
        1
    };
    assert(replies[i] == Ok::<Option<AlbumArtView>, CommandError>(Some(first_piece(replies))));
    assert(picture.take(picture.len() as int) == picture);
}

/// Pieces of every song whose URI has no newline can be asked for, and every reply can be taken that
/// fits the largest buffer together with what was received.
pub proof fn law_every_picture_that_fits_can_be_loaded(
    source: ArtSource,
    uri: &str,
    offset: usize,
    load: AlbumArtLoad,
    reply: Result<Option<AlbumArt>, CommandError>,
)
    requires
        forall|i: int| 0 <= i < uri@.len() ==> uri@[i] != '\n',
        match (load, reply) {
            (AlbumArtLoad::Loading { data, .. }, Ok(Some(art))) => contents(data).len() + contents(
                art.data,
            ).len() <= usize::MAX / 8,
            (_, Ok(Some(art))) => contents(art.data).len() + art.size <= usize::MAX / 8,
            _ => true,
        },
    ensures
        call_requires(ArtSource::command, (source, uri, offset)),
        call_requires(AlbumArtLoad::step, (load, reply)),
{
}

} // verus!

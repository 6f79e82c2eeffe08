//! The types of the wire protocol: commands, the responses to them, and protocol errors.
//!
//! The types themselves come from `mpd_protocol`. Each is opaque here. What a command says, what a
//! frame holds and what a response consists of is given by the names declared below.

use vstd::prelude::*;

use bytes::BytesMut;
use mpd_protocol::command::Command as RawCommand;
use mpd_protocol::command::CommandList as RawCommandList;
use mpd_protocol::response::{Error as RawError, Frame, Response};
use mpd_protocol::MpdProtocolError;

use crate::buffer::contents;
use crate::text::decimal;

verus! {

/// A single command with its arguments.
#[verifier::external_type_specification]
#[verifier::external_body]
pub struct ExRawCommand(RawCommand);

/// A non-empty list of commands that are sent together.
#[verifier::external_type_specification]
#[verifier::external_body]
pub struct ExRawCommandList(RawCommandList);

/// The successful answer to one command.
#[verifier::external_type_specification]
#[verifier::external_body]
pub struct ExFrame(Frame);

/// The answer to a command or to a list of commands.
#[verifier::external_type_specification]
#[verifier::external_body]
pub struct ExResponse(Response);

/// The answer to a command that failed.
#[verifier::external_type_specification]
#[verifier::external_body]
pub struct ExRawError(RawError);

/// An I/O failure or a malformed message.
#[verifier::external_type_specification]
#[verifier::external_body]
pub struct ExMpdProtocolError(MpdProtocolError);

// ---------------------------------------------------------------------------------------------
// Commands
// ---------------------------------------------------------------------------------------------

/// The line that a command is sent as, without the newline that ends it.
pub uninterp spec fn command_line(command: RawCommand) -> Seq<char>;

/// The commands of a list, in the order in which they are sent.
pub uninterp spec fn list_commands(commands: RawCommandList) -> Seq<RawCommand>;

/// Whether `name` can start a command: ASCII letters and underscores, and not one of the names
/// that open or close a command list.
pub open spec fn is_command_name(name: Seq<char>) -> bool {
    &&& name.len() > 0
    &&& forall|i: int|
        0 <= i < name.len() ==> {
            ||| 'a' <= #[trigger] name[i] <= 'z'
            ||| 'A' <= name[i] <= 'Z'
            ||| name[i] == '_'
        }
    &&& !"command_list"@.is_prefix_of(name)
}

/// Whether a character of an argument is sent with a backslash before it.
pub open spec fn is_escaped(c: char) -> bool {
    c == '\\' || c == '"' || c == '\''
}

/// The characters of an argument with a backslash before each quote and backslash.
pub open spec fn escaped(argument: Seq<char>) -> Seq<char>
    decreases argument.len(),
{
    if argument.len() == 0 {
        seq![]
    } else if is_escaped(argument.last()) {
        escaped(argument.drop_last()).push('\\').push(argument.last())
    } else {
        escaped(argument.drop_last()).push(argument.last())
    }
}

/// An argument as it is sent: escaped, and in quotes when it contains a blank or a tab.
pub open spec fn rendered_argument(argument: Seq<char>) -> Seq<char> {
    if argument.contains(' ') || argument.contains('\t') {
        seq!['"'] + escaped(argument) + seq!['"']
    } else {
        escaped(argument)
    }
}

/// Starts a command with `Command::new`, which panics on a name that cannot start a command. The
/// line of the new command is its name.
#[verifier::external_body]
pub(crate) fn new_command(name: &str) -> (command: RawCommand)
    requires
        is_command_name(name@),
    ensures
        command_line(command) == name@,
{
    RawCommand::new(name)
}

/// Adds a text argument with `Command::argument`, which panics on one that contains a newline. The
/// line grows by a blank and the rendered argument.
#[verifier::external_body]
pub(crate) fn with_argument(command: RawCommand, argument: String) -> (extended: RawCommand)
    requires
        !argument@.contains('\n'),
    ensures
        command_line(extended) == command_line(command).push(' ') + rendered_argument(argument@),
{
    command.argument(argument)
}

/// Adds a number as an argument with `Command::argument`. The line grows by a blank and the decimal
/// notation of the number.
#[verifier::external_body]
pub(crate) fn with_number(command: RawCommand, argument: usize) -> (extended: RawCommand)
    ensures
        command_line(extended) == command_line(command).push(' ') + decimal(argument as nat),
{
    command.argument(argument)
}

/// Makes a list of one command with `CommandList::new`.
#[verifier::external_body]
pub(crate) fn new_command_list(command: RawCommand) -> (commands: RawCommandList)
    ensures
        list_commands(commands) == seq![command],
{
    RawCommandList::new(command)
}

// ---------------------------------------------------------------------------------------------
// Frames
// ---------------------------------------------------------------------------------------------

/// The key-value pairs of a frame, in the order in which they were received.
pub uninterp spec fn frame_fields(frame: Frame) -> Seq<(Seq<char>, Seq<char>)>;

/// The bytes that come with a frame, if there are any.
pub uninterp spec fn frame_binary(frame: Frame) -> Option<Seq<u8>>;

/// The characters of a list of key-value pairs.
pub open spec fn field_texts(fields: Seq<(String, String)>) -> Seq<(Seq<char>, Seq<char>)> {
    fields.map_values(|field: (String, String)| (field.0@, field.1@))
}

/// The value of the first field with the given key.
pub open spec fn first_value(fields: Seq<(Seq<char>, Seq<char>)>, key: Seq<char>) -> Option<
    Seq<char>,
>
    decreases fields.len(),
{
    if fields.len() == 0 {
        None
    } else if fields[0].0 == key {
        Some(fields[0].1)
    } else {
        first_value(fields.drop_first(), key)
    }
}

/// The fields without the first one of the given key.
pub open spec fn without_first(fields: Seq<(Seq<char>, Seq<char>)>, key: Seq<char>) -> Seq<
    (Seq<char>, Seq<char>),
>
    decreases fields.len(),
{
    if fields.len() == 0 {
        fields
    } else if fields[0].0 == key {
        fields.drop_first()
    } else {
        seq![fields[0]] + without_first(fields.drop_first(), key)
    }
}

/// Takes the first field of the given key out of a frame with `Frame::get`. Keys are compared
/// character by character.
#[verifier::external_body]
pub(crate) fn take_field(frame: &mut Frame, key: &str) -> (value: Option<String>)
    ensures
        value matches Some(text) ==> first_value(frame_fields(*old(frame)), key@) == Some(text@),
        value is None ==> first_value(frame_fields(*old(frame)), key@) is None,
        frame_fields(*final(frame)) == without_first(frame_fields(*old(frame)), key@),
        frame_binary(*final(frame)) == frame_binary(*old(frame)),
{
    frame.get(key)
}

/// Takes the bytes that come with a frame out of it with `Frame::take_binary`.
#[verifier::external_body]
pub(crate) fn take_binary(frame: &mut Frame) -> (binary: Option<BytesMut>)
    ensures
        binary matches Some(data) ==> frame_binary(*old(frame)) == Some(contents(data)),
        binary is None ==> frame_binary(*old(frame)) is None,
        frame_binary(*final(frame)) is None,
        frame_fields(*final(frame)) == frame_fields(*old(frame)),
{
    frame.take_binary()
}

/// Hands out the fields of a frame, in order, through `Frame`'s `IntoIterator`.
#[verifier::external_body]
pub(crate) fn into_fields(frame: Frame) -> (fields: Vec<(String, String)>)
    ensures
        field_texts(fields@) == frame_fields(frame),
{
    frame.into_iter().map(|(key, value)| (String::from(&*key), value)).collect()
}

// ---------------------------------------------------------------------------------------------
// Responses
// ---------------------------------------------------------------------------------------------

/// What a failed command was answered, as plain values.
#[derive(Clone, Debug, PartialEq, Eq)]
pub struct ErrorReply {
    /// The error code.
    pub code: u64,
    /// Position in the command list of the command that failed, 0 outside of a list.
    pub command_index: u64,
    /// Name of the command that failed, if there is one.
    pub current_command: Option<String>,
    /// Description of the error.
    pub message: String,
}

/// The contents of an [`ErrorReply`].
#[verifier::ext_equal]
pub struct ErrorReplyView {
    pub code: u64,
    pub command_index: u64,
    pub current_command: Option<Seq<char>>,
    pub message: Seq<char>,
}

impl View for ErrorReply {
    type V = ErrorReplyView;

    open spec fn view(&self) -> ErrorReplyView {
        ErrorReplyView {
            code: self.code,
            command_index: self.command_index,
            current_command: match self.current_command {
                Some(name) => Some(name@),
                None => None,
            },
            message: self.message@,
        }
    }
}

/// What an error consists of.
pub uninterp spec fn error_contents(error: RawError) -> ErrorReplyView;

/// The frames of a response in order, followed by the error if there is one.
pub uninterp spec fn response_items(response: Response) -> Seq<Result<Frame, RawError>>;

/// The first frame, or the error if there is no frame.
pub open spec fn first_item(items: Seq<Result<Frame, RawError>>) -> Option<Result<Frame, RawError>> {
    if items.len() > 0 {
        Some(items[0])
    } else {
        None
    }
}

/// The frames before the first error.
pub open spec fn leading_frames(items: Seq<Result<Frame, RawError>>) -> Seq<Frame>
    decreases items.len(),
{
    if items.len() == 0 {
        seq![]
    } else {
        match items[0] {
            Ok(frame) => seq![frame] + leading_frames(items.drop_first()),
            Err(_) => seq![],
        }
    }
}

/// The first error.
pub open spec fn first_error(items: Seq<Result<Frame, RawError>>) -> Option<RawError>
    decreases items.len(),
{
    if items.len() == 0 {
        None
    } else {
        match items[0] {
            Ok(_) => first_error(items.drop_first()),
            Err(error) => Some(error),
        }
    }
}

/// Whether `items` has the shape of a response: at least one item, and no error but the last.
pub open spec fn is_response(items: Seq<Result<Frame, RawError>>) -> bool {
    &&& items.len() > 0
    &&& forall|i: int| 0 <= i < items.len() - 1 ==> #[trigger] items[i] is Ok
}

/// A response consists of its frames, in order, and of the error that comes after them if there is
/// one. Nothing else is in it.
pub proof fn law_response_is_frames_then_error(items: Seq<Result<Frame, RawError>>)
    requires
        is_response(items),
    ensures
        items == leading_frames(items).map_values(|frame: Frame| Ok::<Frame, RawError>(frame)) + (
        match first_error(items) {
            Some(error) => seq![Err::<Frame, RawError>(error)],
            None => seq![],
        }),
    decreases items.len(),
{
    let rest = items.drop_first();
    assert(items == seq![items[0]] + rest);
    if rest.len() > 0 {
        assert(items[0] is Ok);
        assert forall|i: int| 0 <= i < rest.len() - 1 implies #[trigger] rest[i] is Ok by {
            assert(rest[i] == items[i + 1]);
        }
        law_response_is_frames_then_error(rest);
        assert(leading_frames(items).map_values(|frame: Frame| Ok::<Frame, RawError>(frame))
            == seq![items[0]] + leading_frames(rest).map_values(
            |frame: Frame| Ok::<Frame, RawError>(frame),
        ));
    } else {
        assert(leading_frames(rest) == Seq::<Frame>::empty());
        assert(first_error(rest) is None);
    }
}

/// Copies the public fields of an `mpd_protocol` error.
#[verifier::external_body]
pub(crate) fn error_reply(error: RawError) -> (reply: ErrorReply)
    ensures
        reply@ == error_contents(error),
{
    ErrorReply {
        code: error.code,
        command_index: error.command_index,
        current_command: error.current_command.map(String::from),
        message: String::from(error.message),
    }
}

/// Tells with `Response::is_error` whether a response contains an error.
#[verifier::external_body]
pub(crate) fn is_error(response: &Response) -> (failed: bool)
    ensures
        failed == (first_error(response_items(*response)) is Some),
{
    response.is_error()
}

/// Takes the first frame, or the error if there is no frame, with `Response::into_single_frame`.
/// A response always has one or the other.
#[verifier::external_body]
pub(crate) fn into_single_frame(response: Response) -> (first: Result<Frame, RawError>)
    ensures
        first_item(response_items(response)) == Some(first),
{
    response.into_single_frame()
}

/// Hands out the frames and the error of a response through `Response`'s `IntoIterator`. There is
/// always at least one item, and an error comes last.
#[verifier::external_body]
pub(crate) fn into_items(response: Response) -> (items: Vec<Result<Frame, RawError>>)
    ensures
        items@ == response_items(response),
        is_response(items@),
{
    response.into_iter().collect()
}

// ---------------------------------------------------------------------------------------------
// Protocol errors
// ---------------------------------------------------------------------------------------------

/// The kinds of I/O errors that the client finds by itself.
pub enum IoErrorKind {
    /// The connection ended too early.
    UnexpectedEof,
}

/// The protocol error for an I/O error of the given kind, with the given message.
pub uninterp spec fn io_error(kind: IoErrorKind, message: Seq<char>) -> MpdProtocolError;

/// Makes an I/O error of the given kind with `std::io::Error::new`, as a protocol error.
#[verifier::external_body]
pub(crate) fn new_io_error(kind: IoErrorKind, message: &str) -> (error: MpdProtocolError)
    ensures
        error == io_error(kind, message@),
{
    let kind = match kind {
        IoErrorKind::UnexpectedEof => std::io::ErrorKind::UnexpectedEof,
    };
    MpdProtocolError::Io(std::io::Error::new(kind, message))
}

/// The value of the first field with a key is that of the field with that key that none comes
/// before. There is none if no field has that key.
pub proof fn law_first_value(fields: Seq<(Seq<char>, Seq<char>)>, key: Seq<char>)
    ensures
        forall|i: int|
            0 <= i < fields.len() && (#[trigger] fields[i]).0 == key && (forall|j: int|
                0 <= j < i ==> (#[trigger] fields[j]).0 != key) ==> first_value(fields, key)
                == Some(fields[i].1),
        (forall|i: int| 0 <= i < fields.len() ==> (#[trigger] fields[i]).0 != key) ==> first_value(
            fields,
            key,
        ) is None,
        first_value(fields, key) matches Some(value) ==> exists|i: int|
            0 <= i < fields.len() && #[trigger] fields[i] == (key, value) && forall|j: int|
                0 <= j < i ==> (#[trigger] fields[j]).0 != key,
    decreases fields.len(),
{
    if fields.len() > 0 && fields[0].0 != key {
        let rest = fields.drop_first();
        law_first_value(rest, key);
        assert forall|i: int|
            0 <= i < fields.len() && (#[trigger] fields[i]).0 == key && (forall|j: int|
                0 <= j < i ==> (#[trigger] fields[j]).0 != key) implies first_value(fields, key)
            == Some(fields[i].1) by {
            assert(rest[i - 1] == fields[i]);
            assert forall|j: int| 0 <= j < i - 1 implies (#[trigger] rest[j]).0 != key by {
                assert(rest[j] == fields[j + 1]);
            }
        }
        if forall|i: int| 0 <= i < fields.len() ==> (#[trigger] fields[i]).0 != key {
            assert forall|i: int| 0 <= i < rest.len() implies (#[trigger] rest[i]).0 != key by {
                assert(rest[i] == fields[i + 1]);
            }
        }
        if first_value(fields, key) is Some {
            let value = first_value(rest, key)->0;
            let i = choose|i: int|
                0 <= i < rest.len() && #[trigger] rest[i] == (key, value) && forall|j: int|
                    0 <= j < i ==> (#[trigger] rest[j]).0 != key;
            assert(fields[i + 1] == (key, value));
            assert forall|j: int| 0 <= j < i + 1 implies (#[trigger] fields[j]).0 != key by {
                if j > 0 {
                    assert(fields[j] == rest[j - 1]);
                }
            }
        }
    } else if fields.len() > 0 {
        assert(fields[0] == (key, fields[0].1));
    }
}

/// The frames before an error are all items up to it, in order, and the error is the first one.
/// Without an error the frames are all items.
pub proof fn law_frames_are_the_items_up_to_an_error(items: Seq<Result<Frame, RawError>>, n: int)
    requires
        0 <= n <= items.len(),
        forall|i: int| 0 <= i < n ==> #[trigger] items[i] is Ok,
        n < items.len() ==> items[n] is Err,
    ensures
        leading_frames(items).len() == n,
        forall|i: int|
            0 <= i < n ==> items[i] == Ok::<Frame, RawError>(#[trigger] leading_frames(items)[i]),
        first_error(items) == (if n < items.len() {
            Some(items[n]->Err_0)
        } else {
            None
        }),
    decreases items.len(),
{
    if n > 0 {
        let rest = items.drop_first();
        assert forall|i: int| 0 <= i < n - 1 implies #[trigger] rest[i] is Ok by {
            assert(rest[i] == items[i + 1]);
        }
        law_frames_are_the_items_up_to_an_error(rest, n - 1);
        assert(items[0] is Ok);
        assert forall|i: int| 0 <= i < n implies items[i] == Ok::<Frame, RawError>(
            #[trigger] leading_frames(items)[i],
        ) by {
            if i > 0 {
                assert(items[i] == rest[i - 1]);
                assert(leading_frames(items)[i] == leading_frames(rest)[i - 1]);
            }
        }
    }
}

/// There is an error among the items exactly when one of them is an error.
pub proof fn law_an_error_is_found(items: Seq<Result<Frame, RawError>>)
    ensures
        first_error(items) is Some <==> exists|i: int| 0 <= i < items.len() && items[i] is Err,
    decreases items.len(),
{
    if items.len() > 0 && items[0] is Ok {
        let rest = items.drop_first();
        law_an_error_is_found(rest);
        if exists|i: int| 0 <= i < items.len() && items[i] is Err {
            let i = choose|i: int| 0 <= i < items.len() && items[i] is Err;
            assert(rest[i - 1] is Err);
        }
        if first_error(rest) is Some {
            let i = choose|i: int| 0 <= i < rest.len() && rest[i] is Err;
            assert(items[i + 1] is Err);
        }
    }
}

/// Escaping can be undone: two texts that are escaped alike are the same. What is escaped never
/// starts with a quote.
proof fn lemma_escaped(left: Seq<char>, right: Seq<char>)
    ensures
        escaped(left) == escaped(right) ==> left == right,
        left.len() > 0 ==> escaped(left).len() > 0 && escaped(left)[0] != '"',
    decreases left.len(),
{
    if left.len() > 0 {
        if right.len() > 0 {
            lemma_escaped(left.drop_last(), right.drop_last());
        } else {
            lemma_escaped(left.drop_last(), right);
        }
        if escaped(left) == escaped(right) {
            let c = left.last();
            assert(escaped(left).last() == c);
            assert(right.len() > 0);
            assert(escaped(right).last() == right.last());
            let front = escaped(left.drop_last());
            if is_escaped(c) {
                assert(escaped(left).drop_last().drop_last() == front);
                assert(escaped(right).drop_last().drop_last() == escaped(right.drop_last()));
            } else {
                assert(escaped(left).drop_last() == front);
                assert(escaped(right).drop_last() == escaped(right.drop_last()));
            }
            assert(left == left.drop_last().push(c));
            assert(right == right.drop_last().push(c));
        }
        if left.len() == 1 {
            assert(left.drop_last() == Seq::<char>::empty());
        }
    } else if right.len() > 0 {
        assert(escaped(right).len() > 0);
    }
}

/// Two different arguments are never sent alike: what the server gets tells which argument it was.
pub proof fn law_arguments_are_sent_unambiguously(left: Seq<char>, right: Seq<char>)
    requires
        rendered_argument(left) == rendered_argument(right),
    ensures
        left == right,
{
    lemma_escaped(left, right);
    lemma_escaped(right, left);
    let (l, r) = (rendered_argument(left), rendered_argument(right));
    let left_quoted = left.contains(' ') || left.contains('\t');
    let right_quoted = right.contains(' ') || right.contains('\t');
    if left_quoted && right_quoted {
        assert(l.subrange(1, l.len() - 1) == escaped(left));
        assert(r.subrange(1, r.len() - 1) == escaped(right));
    } else if left_quoted {
        assert(l[0] == '"');
        assert(right.len() > 0);
    } else if right_quoted {
        assert(r[0] == '"');
        assert(left.len() > 0);
    }
}

/// An argument without quotes and backslashes is sent as it is, in quotes if it contains a blank or
/// a tab.
pub proof fn law_plain_arguments_are_sent_as_they_are(argument: Seq<char>)
    requires
        forall|i: int|
            0 <= i < argument.len() ==> #[trigger] argument[i] != '\\' && argument[i] != '"'
                && argument[i] != '\'',
    ensures
        rendered_argument(argument) == (if argument.contains(' ') || argument.contains('\t') {
            seq!['"'] + argument + seq!['"']
        } else {
            argument
        }),
{
    lemma_plain(argument);
}

/// A text without quotes and backslashes is not changed by escaping.
proof fn lemma_plain(text: Seq<char>)
    requires
        forall|i: int|
            0 <= i < text.len() ==> #[trigger] text[i] != '\\' && text[i] != '"' && text[i] != '\'',
    ensures
        escaped(text) == text,
    decreases text.len(),
{
    if text.len() > 0 {
        let front = text.drop_last();
        assert forall|i: int| 0 <= i < front.len() implies #[trigger] front[i] != '\\' && front[i]
            != '"' && front[i] != '\'' by {
            assert(front[i] == text[i]);
        }
        lemma_plain(front);
        assert(text == front.push(text.last()));
    }
}

} // verus!

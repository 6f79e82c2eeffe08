//! Typed responses.

pub mod info;

use vstd::prelude::*;

use bytes::BytesMut;
use mpd_protocol::response::Frame;

use crate::buffer::contents;
use crate::protocol::{
    first_value, frame_binary, frame_fields, law_first_value, take_binary, take_field,
    without_first,
};
use crate::text::{decimal, law_decimal_reads_back, number, parse_usize};

verus! {

/// Error returned when a frame does not have the form that a typed response expects.
#[derive(Clone, Debug, PartialEq, Eq)]
pub enum TypedResponseError {
    /// A field was found where another one was due.
    UnexpectedField {
        /// Key of the field that was due.
        expected: String,
        /// Key of the field that was found.
        found: String,
    },
    /// A field is missing.
    Missing {
        /// Key of the field.
        field: String,
    },
    /// A field has a value that it cannot have.
    InvalidValue {
        /// Key of the field.
        field: String,
        /// Value of the field.
        value: String,
    },
}

impl TypedResponseError {
    /// Whether this says that a field with the key `found` stands in the place of one with the key
    /// `expected`.
    pub open spec fn is_unexpected_field(self, expected: Seq<char>, found: Seq<char>) -> bool {
        self matches TypedResponseError::UnexpectedField { expected: e, found: f } && e@ == expected
            && f@ == found
    }

    /// Whether this says that the field with the given key is missing.
    pub open spec fn is_missing(self, key: Seq<char>) -> bool {
        self matches TypedResponseError::Missing { field } && field@ == key
    }

    /// Whether this says that the field with the given key cannot have the given value.
    pub open spec fn is_invalid_value(self, key: Seq<char>, text: Seq<char>) -> bool {
        self matches TypedResponseError::InvalidValue { field, value } && field@ == key && value@
            == text
    }

    /// The error for a field with the key `found` in the place of one with the key `expected`.
    pub fn unexpected_field(expected: &str, found: &str) -> (error: TypedResponseError)
        ensures
            error.is_unexpected_field(expected@, found@),
    {
        TypedResponseError::UnexpectedField {
            expected: expected.to_owned(),
            found: found.to_owned(),
        }
    }
}

/// A piece of the picture that belongs to a song.
#[derive(Debug)]
pub struct AlbumArt {
    /// Number of bytes of the whole picture.
    pub size: usize,
    /// Media type of the picture, if it is known.
    pub mime: Option<String>,
    /// The bytes of this piece.
    pub data: BytesMut,
}

/// The contents of an [`AlbumArt`].
#[verifier::ext_equal]
pub struct AlbumArtView {
    pub size: nat,
    pub mime: Option<Seq<char>>,
    pub data: Seq<u8>,
}

/// The contents of an optional string.
pub open spec fn optional_text(text: Option<String>) -> Option<Seq<char>> {
    match text {
        Some(text) => Some(text@),
        None => None,
    }
}

impl View for AlbumArt {
    type V = AlbumArtView;

    open spec fn view(&self) -> AlbumArtView {
        AlbumArtView {
            size: self.size as nat,
            mime: optional_text(self.mime),
            data: contents(self.data),
        }
    }
}

/// Whether `art` is the piece of a picture that a frame holds. A frame without bytes holds none. One
/// with bytes has to tell the size of the whole picture.
pub open spec fn is_piece_of(
    frame: Frame,
    art: Result<Option<AlbumArt>, TypedResponseError>,
) -> bool {
    match frame_binary(frame) {
        None => art == Ok::<Option<AlbumArt>, TypedResponseError>(None),
        Some(data) => match first_value(frame_fields(frame), "size"@) {
            None => art matches Err(e) && e.is_missing("size"@),
            Some(text) => match number(text) {
                None => art matches Err(e) && e.is_invalid_value("size"@, text),
                Some(size) => art matches Ok(Some(piece)) && piece@ == (AlbumArtView {
                    size: size as nat,
                    mime: first_value(frame_fields(frame), "type"@),
                    data,
                }),
            },
        },
    }
}

impl AlbumArt {
    /// The piece of a picture that a frame holds.
    pub fn from_frame(frame: Frame) -> (art: Result<Option<AlbumArt>, TypedResponseError>)
        ensures
            is_piece_of(frame, art),
    {
        let ghost fields = frame_fields(frame);
        let mut frame = frame;
        let data = match take_binary(&mut frame) {
            Some(data) => data,
            None => return Ok(None),
        };
        let text = match take_field(&mut frame, "size") {
            Some(text) => text,
            None => return Err(TypedResponseError::Missing { field: "size".to_owned() }),
        };
        let size: usize = match parse_usize(text.as_str()) {
            Some(size) => size,
            None => {
                return Err(
                    TypedResponseError::InvalidValue { field: "size".to_owned(), value: text },
                );
            },
        };
        proof {
            reveal_strlit("size");
            reveal_strlit("type");
            assert("size"@[0] != "type"@[0]);
            lemma_other_fields_stay(fields, "size"@, "type"@);
        }
        let mime = take_field(&mut frame, "type");
        Ok(Some(AlbumArt { size, mime, data }))
    }
}

/// Taking out a field leaves those with other keys where they are.
proof fn lemma_other_fields_stay(
    fields: Seq<(Seq<char>, Seq<char>)>,
    key: Seq<char>,
    other: Seq<char>,
)
    requires
        key != other,
    ensures
        first_value(without_first(fields, key), other) == first_value(fields, other),
    decreases fields.len(),
{
    if fields.len() > 0 && fields[0].0 != key {
        let rest = without_first(fields.drop_first(), key);
        lemma_other_fields_stay(fields.drop_first(), key, other);
        assert((seq![fields[0]] + rest).drop_first() == rest);
    }
}

/// Whether the field at `i` is the first one with its key.
pub open spec fn is_first(fields: Seq<(Seq<char>, Seq<char>)>, i: int) -> bool {
    0 <= i < fields.len() && forall|j: int|
        0 <= j < i ==> (#[trigger] fields[j]).0 != fields[i].0
}

/// Whether no field has the given key.
pub open spec fn is_absent(fields: Seq<(Seq<char>, Seq<char>)>, key: Seq<char>) -> bool {
    forall|i: int| 0 <= i < fields.len() ==> (#[trigger] fields[i]).0 != key
}

/// The piece of a picture that is read from a frame has exactly the bytes of the frame, the size
/// that its first `size` field writes in decimal, and the media type of its first `type` field.
pub proof fn law_piece_is_read_as_it_was_sent(
    frame: Frame,
    art: Result<Option<AlbumArt>, TypedResponseError>,
    i: int,
    n: nat,
)
    requires
        call_ensures(AlbumArt::from_frame, (frame,), art),
        frame_binary(frame) is Some,
        is_first(frame_fields(frame), i),
        frame_fields(frame)[i].0 == "size"@,
        n <= usize::MAX,
        frame_fields(frame)[i].1 == decimal(n) || number(frame_fields(frame)[i].1) == Some(
            n as usize,
        ),
    ensures
        art matches Ok(Some(piece)) && {
            &&& piece.size == n
            &&& frame_binary(frame) == Some(contents(piece.data))
            &&& forall|j: int|
                #[trigger] is_first(frame_fields(frame), j) && frame_fields(frame)[j].0 == "type"@
                    ==> (piece.mime matches Some(mime) && mime@ == frame_fields(frame)[j].1)
            &&& is_absent(frame_fields(frame), "type"@) ==> piece.mime is None
        },
{
    law_first_value(frame_fields(frame), "size"@);
    law_first_value(frame_fields(frame), "type"@);
    law_decimal_reads_back(n);
}

/// A frame without bytes holds no piece. One with bytes is refused if it does not tell the size of
/// the picture, or if its first `size` field holds no number.
pub proof fn law_frames_without_a_piece(
    frame: Frame,
    art: Result<Option<AlbumArt>, TypedResponseError>,
)
    requires
        call_ensures(AlbumArt::from_frame, (frame,), art),
    ensures
        (art matches Ok(None)) <==> frame_binary(frame) is None,
        frame_binary(frame) is Some && is_absent(frame_fields(frame), "size"@) ==> (art matches Err(
            TypedResponseError::Missing { field },
        ) && field@ == "size"@),
        forall|i: int|
            frame_binary(frame) is Some && #[trigger] is_first(frame_fields(frame), i)
                && frame_fields(frame)[i].0 == "size"@ && number(frame_fields(frame)[i].1) is None
                ==> (art matches Err(TypedResponseError::InvalidValue { field, value }) && field@
                == "size"@ && value@ == frame_fields(frame)[i].1),
{
    law_first_value(frame_fields(frame), "size"@);
}

/// The error for a field in the place of another one tells both keys.
pub proof fn law_unexpected_field_tells_both_keys(
    expected: &str,
    found: &str,
    error: TypedResponseError,
)
    requires
        call_ensures(TypedResponseError::unexpected_field, (expected, found), error),
    ensures
        error matches TypedResponseError::UnexpectedField { expected: e, found: f } && e@
            == expected@ && f@ == found@,
{
}

} // verus!

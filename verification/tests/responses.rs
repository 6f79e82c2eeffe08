use std::io::{self, Read};

use mpd_client::responses::info::{ListDirs, Output, OutputBuilder};
use mpd_client::responses::{AlbumArt, TypedResponseError};
use mpd_client::text::to_decimal;
use mpd_protocol::response::Frame;
use mpd_protocol::Connection;

/// Hands out a greeting, then the text of a response.
struct Server {
    chunks: Vec<Vec<u8>>,
}

impl Read for Server {
    fn read(&mut self, buf: &mut [u8]) -> io::Result<usize> {
        if self.chunks.is_empty() {
            return Ok(0);
        }
        let chunk = self.chunks.remove(0);
        buf[..chunk.len()].copy_from_slice(&chunk);
        Ok(chunk.len())
    }
}

fn frame(fields: &str) -> Frame {
    let server = Server {
        chunks: vec![b"OK MPD 0.23.5\n".to_vec(), format!("{}OK\n", fields).into_bytes()],
    };
    let mut connection = Connection::connect(server).unwrap();
    connection.receive().unwrap().unwrap().into_single_frame().unwrap()
}

fn pairs(fields: &[(&str, &str)]) -> Vec<(String, String)> {
    fields.iter().map(|(key, value)| (key.to_string(), value.to_string())).collect()
}

fn output(id: usize, name: &str, plugin: &str, enabled: bool) -> Output {
    Output { id, name: name.to_string(), plugin: plugin.to_string(), enabled }
}

#[test]
fn directories_are_listed_in_order() {
    let listed = frame("directory: rock\nfile: a.ogg\ndirectory: jazz/live\nplaylist: p\n");
    assert_eq!(
        ListDirs::from_frame_multi(listed),
        Ok(vec!["rock".to_string(), "jazz/live".to_string()])
    );
    assert_eq!(ListDirs::from_frame_multi(frame("")), Ok(Vec::new()));
}

#[test]
fn directory_keys_are_case_sensitive() {
    let fields = pairs(&[("Directory", "a"), ("directory", "b"), ("director", "c")]);
    assert_eq!(ListDirs::from_fields(fields), vec!["b".to_string()]);
}

#[test]
fn every_output_but_the_last_is_listed() {
    let listed = frame(concat_fields(&[
        "outputid: 0",
        "outputname: Speakers",
        "plugin: alsa",
        "outputenabled: 1",
        "outputid: 1",
        "outputname: Stream",
        "plugin: httpd",
        "outputenabled: 0",
        "attribute: dop=0",
        "outputid: 2",
        "outputname: Null",
    ]).as_str());
    assert_eq!(
        Output::from_frame_multi(listed),
        Ok(vec![output(0, "Speakers", "alsa", true), output(1, "Stream", "httpd", false)])
    );
}

fn concat_fields(lines: &[&str]) -> String {
    lines.iter().map(|line| format!("{}\n", line)).collect()
}

#[test]
fn a_single_output_is_not_listed() {
    let fields = pairs(&[("outputid", "7"), ("outputname", "Speakers")]);
    assert_eq!(Output::from_fields(fields), Ok(Vec::new()));
    assert_eq!(Output::from_fields(Vec::new()), Ok(Vec::new()));
}

#[test]
fn a_later_field_replaces_an_earlier_one() {
    let fields = pairs(&[
        ("outputid", "7"),
        ("outputname", "Old"),
        ("outputname", "New"),
        ("outputenabled", "yes"),
        ("outputid", "8"),
    ]);
    assert_eq!(Output::from_fields(fields), Ok(vec![output(7, "New", "", false)]));
}

#[test]
fn an_output_starts_with_its_id() {
    let fields = pairs(&[("outputname", "Speakers"), ("outputid", "0")]);
    assert_eq!(
        Output::from_fields(fields),
        Err(TypedResponseError::UnexpectedField {
            expected: "outputid".to_string(),
            found: "outputname".to_string(),
        })
    );
}

#[test]
fn an_empty_id_starts_no_output() {
    let fields = pairs(&[("outputid", ""), ("plugin", "alsa")]);
    assert_eq!(
        Output::from_fields(fields),
        Err(TypedResponseError::unexpected_field("outputid", "plugin"))
    );
    let fields = pairs(&[("outputid", ""), ("outputid", "3"), ("outputid", "4")]);
    assert_eq!(Output::from_fields(fields), Ok(vec![output(3, "", "", false)]));
}

#[test]
fn an_id_that_is_no_number_is_told_before() {
    assert_eq!(Output::try_from_frame_multi(frame("outputid: x\noutputid: 1\n")), None);
    assert_eq!(Output::try_from_frame_multi(frame("outputid: 1\noutputid: x\n")),
        Some(Ok(vec![output(1, "", "", false)])));
    assert_eq!(
        Output::try_from_frame_multi(frame("plugin: alsa\noutputid: x\noutputid: 1\n")),
        Some(Err(TypedResponseError::unexpected_field("outputid", "plugin")))
    );
}

#[test]
fn numbers_as_they_are_read() {
    let readable = |id: &str| Output::ids_are_numbers(&pairs(&[("outputid", id), ("outputid", "0")]));
    assert!(readable("0"));
    assert!(readable("+12"));
    assert!(readable(&format!("00{}", usize::MAX)));
    assert!(!readable(&format!("{}", usize::MAX as u128 + 1)));
    assert!(!readable("+"));
    assert!(!readable("-1"));
    assert!(!readable(" 1"));
    assert!(!readable("1_000"));
    assert!(!readable("++1"));
    let fields = pairs(&[("outputid", "+0012"), ("outputid", "")]);
    assert_eq!(Output::from_fields(fields), Ok(vec![output(12, "", "", false)]));
}

#[test]
fn building_an_output_field_by_field() {
    let mut builder = OutputBuilder::default();
    assert_eq!(
        builder.field("plugin", "alsa".to_string()),
        Err(TypedResponseError::unexpected_field("outputid", "plugin"))
    );
    assert_eq!(builder.field("outputid", "3".to_string()), Ok(None));
    assert_eq!(builder.field("outputname", "Speakers".to_string()), Ok(None));
    assert_eq!(builder.field("outputenabled", "1".to_string()), Ok(None));
    assert_eq!(
        builder.field("outputid", "4".to_string()),
        Ok(Some(output(3, "Speakers", "", true)))
    );
    assert_eq!(builder.handle_field("plugin", "null".to_string()), Ok(None));
    assert_eq!(builder.finish(), Some(output(4, "", "null", false)));
    assert_eq!(OutputBuilder::default().finish(), None);
}

#[test]
fn starting_an_output() {
    let mut builder = OutputBuilder::default();
    assert_eq!(builder.handle_start_field("outputid", "5".to_string()), Ok(()));
    assert_eq!(
        builder.handle_start_field("outputname", "x".to_string()),
        Err(TypedResponseError::unexpected_field("outputid", "outputname"))
    );
    assert_eq!(builder.into_output(), output(5, "", "", false));
}

#[test]
fn decimal_notation() {
    assert_eq!(to_decimal(0), "0");
    assert_eq!(to_decimal(9), "9");
    assert_eq!(to_decimal(10), "10");
    assert_eq!(to_decimal(10203), "10203");
    assert_eq!(to_decimal(u64::MAX), "18446744073709551615");
}

#[test]
fn a_piece_of_a_picture_is_read_from_its_frame() {
    let art = AlbumArt::from_frame(frame("size: 10\ntype: image/png\nbinary: 3\na\nb\n")).unwrap();
    let art = art.unwrap();
    assert_eq!(art.size, 10);
    assert_eq!(art.mime.as_deref(), Some("image/png"));
    assert_eq!(&art.data[..], b"a\nb");
    let art = AlbumArt::from_frame(frame("size: 0\nbinary: 0\n\n")).unwrap().unwrap();
    assert_eq!(art.mime, None);
    assert!(art.data.is_empty());
}

#[test]
fn a_frame_without_bytes_holds_no_picture() {
    assert!(matches!(AlbumArt::from_frame(frame("size: 10\n")), Ok(None)));
    assert!(matches!(AlbumArt::from_frame(frame("")), Ok(None)));
}

#[test]
fn a_picture_tells_its_size() {
    assert!(matches!(
        AlbumArt::from_frame(frame("binary: 1\nx\n")),
        Err(TypedResponseError::Missing { field }) if field == "size"
    ));
    assert!(matches!(
        AlbumArt::from_frame(frame("size: big\nbinary: 1\nx\n")),
        Err(TypedResponseError::InvalidValue { field, value }) if field == "size" && value == "big"
    ));
}

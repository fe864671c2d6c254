use ed_journals_live::lines::{CursorFileReader, ParseError};
use ed_journals_live::tail::{TailControl, TailStep};

fn texts(items: &[Result<String, ParseError>]) -> Vec<String> {
    items.iter().map(|r| r.clone().unwrap()).collect()
}

#[test]
fn appends_wake_and_yield_in_order() {
    let mut file: Vec<u8> = Vec::new();
    let mut reader = CursorFileReader::new();
    let mut control = TailControl::new();

    // The file starts empty: nothing is ready and the reader parks.
    assert_eq!(control.poll(), TailStep::Read);
    let first = reader.read_ready(&file[reader.offset() as usize..]);
    assert!(first.is_empty());
    assert_eq!(reader.offset(), 0);
    assert_eq!(control.after_read(!first.is_empty()), TailStep::Park);

    // The write wakes the parked reader, which reads again.
    file.extend_from_slice(b"alpha\n");
    assert!(control.notify());
    assert_eq!(control.on_wake(), TailStep::Read);
    let second = reader.read_ready(&file[reader.offset() as usize..]);
    assert_eq!(texts(&second), vec!["alpha".to_string()]);
    assert_eq!(reader.offset(), 6);
    assert_eq!(control.after_read(!second.is_empty()), TailStep::Yield);

    file.extend_from_slice(b"beta\ngamma\n");
    let third = reader.read_ready(&file[reader.offset() as usize..]);
    assert_eq!(texts(&third), vec!["beta".to_string(), "gamma".to_string()]);
    assert_eq!(reader.offset(), 17);

    let fourth = reader.read_ready(&file[reader.offset() as usize..]);
    assert!(fourth.is_empty());
}

#[test]
fn partial_line_waits_for_its_delimiter() {
    let mut file: Vec<u8> = b"one\ntw".to_vec();
    let mut reader = CursorFileReader::new();
    let first = reader.read_ready(&file[..]);
    assert_eq!(texts(&first), vec!["one".to_string()]);
    assert_eq!(reader.offset(), 4);

    file.extend_from_slice(b"o\nthr");
    let second = reader.read_ready(&file[reader.offset() as usize..]);
    assert_eq!(texts(&second), vec!["two".to_string()]);
    assert_eq!(reader.offset(), 8);
}

#[test]
fn malformed_line_gives_one_error_at_its_position() {
    let file: Vec<u8> = vec![b'a', b'\n', 0xff, 0xfe, b'\n', b'b', b'\n'];
    let mut reader = CursorFileReader::new();
    let items = reader.read_ready(&file[..]);
    assert_eq!(items.len(), 3);
    assert_eq!(items[0], Ok("a".to_string()));
    assert_eq!(items[1], Err(ParseError { start: 2, end: 4 }));
    assert_eq!(items[2], Ok("b".to_string()));
    assert_eq!(reader.offset(), 7);
}

#[test]
fn polls_split_anywhere_give_the_same_records() {
    let file: &[u8] = b"first\nsecond\n\nfourth\nrest";
    let mut whole = CursorFileReader::new();
    let expected = whole.read_ready(file);
    assert_eq!(expected.len(), 4);
    for n in 0..=file.len() {
        let mut reader = CursorFileReader::new();
        let mut got = reader.read_ready(&file[..n]);
        let more = reader.read_ready(&file[reader.offset() as usize..]);
        got.extend(more);
        assert_eq!(got, expected);
        assert_eq!(reader.offset(), whole.offset());
    }
}

#[test]
fn resumed_reader_reports_file_offsets() {
    let mut reader = CursorFileReader::starting_at(100);
    let items = reader.read_ready(&[b'o', b'k', b'\n', 0xc3, b'\n']);
    assert_eq!(items[0], Ok("ok".to_string()));
    assert_eq!(items[1], Err(ParseError { start: 103, end: 104 }));
    assert_eq!(reader.offset(), 105);
}

#[test]
fn multibyte_text_is_decoded() {
    let mut reader = CursorFileReader::new();
    let items = reader.read_ready("caf\u{e9}\n".as_bytes());
    assert_eq!(items, vec![Ok("caf\u{e9}".to_string())]);
    assert_eq!(items[0].as_ref().unwrap().chars().count(), 4);
}

#[test]
fn empty_line_is_an_empty_record() {
    let mut reader = CursorFileReader::new();
    let items = reader.read_ready(b"\n");
    assert_eq!(items, vec![Ok(String::new())]);
    assert_eq!(reader.offset(), 1);
}

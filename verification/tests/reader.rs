use flux_ide::event::TerminalEvent;
use flux_ide::event::TerminalOutput;
use flux_ide::reader::ReadOutcome;
use flux_ide::reader::SessionReader;
use flux_ide::reader::READ_CHUNK;

fn output(id: &str, data: &[u8]) -> TerminalEvent {
    TerminalEvent::Output(TerminalOutput { id: id.to_string(), data: data.to_vec() })
}

#[test]
fn read_chunk_is_4096_bytes() {
    assert_eq!(READ_CHUNK, 4096);
}

#[test]
fn new_reader_is_running() {
    let reader = SessionReader::new("t1".to_string());
    assert!(!reader.is_finished());
    assert_eq!(reader.id(), "t1");
}

#[test]
fn data_is_forwarded_unchanged() {
    let mut reader = SessionReader::new("t1".to_string());
    let buffer = [b'h', b'i', 0xe2, 0x82, 0xff, 0x00, 0x1b, b'['];
    let event = reader.on_read(&buffer, ReadOutcome::Bytes(buffer.len()));
    assert_eq!(event, Some(output("t1", &buffer)));
    assert!(!reader.is_finished());
}

#[test]
fn only_the_bytes_read_are_forwarded() {
    let mut reader = SessionReader::new("t1".to_string());
    let buffer = [1u8, 2, 3, 4, 5, 6];
    assert_eq!(reader.on_read(&buffer, ReadOutcome::Bytes(2)), Some(output("t1", &[1, 2])));
    assert_eq!(reader.on_read(&buffer, ReadOutcome::Bytes(1)), Some(output("t1", &[1])));
    assert_eq!(reader.on_read(&buffer, ReadOutcome::Bytes(6)), Some(output("t1", &buffer)));
}

#[test]
fn a_full_buffer_is_forwarded_whole() {
    let mut reader = SessionReader::new("big".to_string());
    let buffer = vec![0xabu8; READ_CHUNK];
    let event = reader.on_read(&buffer, ReadOutcome::Bytes(READ_CHUNK));
    assert_eq!(event, Some(output("big", &buffer)));
}

#[test]
fn a_split_character_is_forwarded_as_it_was_read() {
    let mut reader = SessionReader::new("t1".to_string());
    let euro = "€".as_bytes();
    let first = reader.on_read(&euro[..1], ReadOutcome::Bytes(1));
    let second = reader.on_read(&euro[1..], ReadOutcome::Bytes(2));
    assert_eq!(first, Some(output("t1", &[0xe2])));
    assert_eq!(second, Some(output("t1", &[0x82, 0xac])));
}

#[test]
fn end_of_stream_closes() {
    let mut reader = SessionReader::new("t1".to_string());
    let event = reader.on_read(&[0u8; 16], ReadOutcome::Bytes(0));
    assert_eq!(event, Some(TerminalEvent::Closed("t1".to_string())));
    assert!(reader.is_finished());
}

#[test]
fn a_failed_read_closes() {
    let mut reader = SessionReader::new("t9".to_string());
    let event = reader.on_read(&[7u8; 16], ReadOutcome::Failed);
    assert_eq!(event, Some(TerminalEvent::Closed("t9".to_string())));
    assert!(reader.is_finished());
}

#[test]
fn a_finished_reader_publishes_nothing() {
    let mut reader = SessionReader::new("t1".to_string());
    assert!(reader.on_read(b"", ReadOutcome::Bytes(0)).is_some());
    assert_eq!(reader.on_read(b"late", ReadOutcome::Bytes(4)), None);
    assert_eq!(reader.on_read(b"late", ReadOutcome::Bytes(0)), None);
    assert_eq!(reader.on_read(b"late", ReadOutcome::Failed), None);
    assert!(reader.is_finished());
}

#[test]
fn outputs_come_in_the_order_of_the_reads() {
    let mut reader = SessionReader::new("t1".to_string());
    let mut payload = Vec::new();
    let mut closings = 0;
    let reads: [(&[u8], ReadOutcome); 5] = [
        (b"one ", ReadOutcome::Bytes(4)),
        (b"two ", ReadOutcome::Bytes(4)),
        (b"three", ReadOutcome::Bytes(5)),
        (b"", ReadOutcome::Bytes(0)),
        (b"four", ReadOutcome::Bytes(4)),
    ];
    for (buffer, outcome) in reads {
        match reader.on_read(buffer, outcome) {
            Some(TerminalEvent::Output(out)) => {
                assert_eq!(out.id, "t1");
                payload.extend_from_slice(&out.data);
            }
            Some(TerminalEvent::Closed(id)) => {
                assert_eq!(id, "t1");
                closings += 1;
            }
            None => {}
        }
    }
    assert_eq!(payload, b"one two three");
    assert_eq!(closings, 1);
}

#[test]
fn events_are_published_under_their_names() {
    let out = output("t1", b"x");
    let closed = TerminalEvent::Closed("t1".to_string());
    assert_eq!(out.channel(), "terminal-output");
    assert_eq!(closed.channel(), "terminal-closed");
}

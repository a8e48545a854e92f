use pty_session::manager::{SessionManager, SpawnOutcome};
use pty_session::streamer::{OutputStreamer, PtyOutput, ReadEvent, READ_BUFFER_SIZE};

#[test]
fn read_buffer_holds_4096_bytes() {
    assert_eq!(READ_BUFFER_SIZE, 4096);
}

#[test]
fn new_streamer_is_running() {
    let streamer = OutputStreamer::new("s".to_string());
    assert!(streamer.is_running());
}

#[test]
fn data_is_delivered_with_the_session_identifier() {
    let mut streamer = OutputStreamer::new("session-1".to_string());
    let output = streamer.on_read(ReadEvent::Data(b"hello\r\n")).unwrap();
    assert_eq!(output.id, "session-1");
    assert_eq!(output.data, "hello\r\n");
    assert!(streamer.is_running());
}

#[test]
fn chunks_are_delivered_in_order_and_whole() {
    let mut streamer = OutputStreamer::new("s".to_string());
    let chunks: [&[u8]; 3] = [b"one ", b"two ", b"three"];
    let mut text = String::new();
    for chunk in chunks {
        let output = streamer.on_read(ReadEvent::Data(chunk)).unwrap();
        assert_eq!(output.id, "s");
        text.push_str(&output.data);
    }
    assert_eq!(text, "one two three");
}

#[test]
fn a_full_buffer_is_delivered_whole() {
    let mut streamer = OutputStreamer::new("s".to_string());
    let buffer = [b'x'; READ_BUFFER_SIZE];
    let output = streamer.on_read(ReadEvent::Data(&buffer)).unwrap();
    assert_eq!(output.data.len(), 4096);
    assert!(output.data.bytes().all(|b| b == b'x'));
}

#[test]
fn valid_multibyte_text_is_decoded() {
    let mut streamer = OutputStreamer::new("s".to_string());
    let output = streamer.on_read(ReadEvent::Data(&[0xc3, 0xa9, 0xe2, 0x82, 0xac])).unwrap();
    assert_eq!(output.data, "\u{e9}\u{20ac}");
}

#[test]
fn invalid_bytes_are_replaced_not_refused() {
    let mut streamer = OutputStreamer::new("s".to_string());
    let output = streamer.on_read(ReadEvent::Data(&[b'h', b'i', 0xff])).unwrap();
    assert_eq!(output.data, "hi\u{fffd}");
    assert!(streamer.is_running());
}

#[test]
fn a_character_cut_by_the_chunk_boundary_is_replaced() {
    let mut streamer = OutputStreamer::new("s".to_string());
    let first = streamer.on_read(ReadEvent::Data(&[b'a', 0xe2, 0x82])).unwrap();
    assert_eq!(first.data, "a\u{fffd}");
    let second = streamer.on_read(ReadEvent::Data(&[0xac, b'b'])).unwrap();
    assert_eq!(second.data, "\u{fffd}b");
}

#[test]
fn end_of_stream_stops_the_streamer() {
    let mut streamer = OutputStreamer::new("s".to_string());
    assert!(streamer.on_read(ReadEvent::Data(b"")).is_none());
    assert!(!streamer.is_running());
}

#[test]
fn failed_read_stops_the_streamer() {
    let mut streamer = OutputStreamer::new("s".to_string());
    assert!(streamer.on_read(ReadEvent::Data(b"x")).is_some());
    assert!(streamer.on_read(ReadEvent::Failed).is_none());
    assert!(!streamer.is_running());
}

#[test]
fn stopped_streamer_delivers_nothing_more() {
    let mut streamer = OutputStreamer::new("s".to_string());
    assert!(streamer.on_read(ReadEvent::Data(b"")).is_none());
    assert!(streamer.on_read(ReadEvent::Data(b"late")).is_none());
    assert!(streamer.on_read(ReadEvent::Failed).is_none());
    assert!(!streamer.is_running());
}

#[test]
fn output_carries_the_text_it_is_given() {
    let streamer = OutputStreamer::new("abc".to_string());
    let output = streamer.output("text".to_string());
    assert_eq!(output.id, "abc");
    assert_eq!(output.data, "text");
    assert!(streamer.is_running());
}

#[test]
fn output_clone_is_equal() {
    let output = PtyOutput { id: "a".to_string(), data: "b".to_string() };
    let copy = output.clone();
    assert_eq!(copy.id, output.id);
    assert_eq!(copy.data, output.data);
}

#[test]
fn echo_of_a_written_command_reaches_the_consumer() {
    let mut manager: SessionManager<u32> = SessionManager::new();
    let id = manager.open(SpawnOutcome::Ready(0)).unwrap();
    let mut streamer = OutputStreamer::new(id.clone());
    let order = manager.begin_write(&id, "echo hi\n").ok().unwrap();
    // A terminal that echoes hands the payload back as its output.
    let echoed: Vec<u8> = order.payload.to_vec();
    let output = streamer.on_read(ReadEvent::Data(&echoed)).unwrap();
    assert_eq!(output.id, id);
    assert!(output.data.contains("hi"));
    assert_eq!(output.data, "echo hi\n");
}

#[test]
fn session_closed_at_once_delivers_no_output() {
    let mut manager: SessionManager<u32> = SessionManager::new();
    let id = manager.open(SpawnOutcome::Ready(0)).unwrap();
    let mut streamer = OutputStreamer::new(id.clone());
    assert!(manager.close(&id).is_some());
    // The shell is gone: the first read finds the end of the stream.
    let mut delivered: u32 = 0;
    if streamer.on_read(ReadEvent::Data(b"")).is_some() {
        delivered += 1;
    }
    assert_eq!(delivered, 0);
    assert!(!streamer.is_running());
}

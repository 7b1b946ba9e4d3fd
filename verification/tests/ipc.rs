//! Frames on the wire.

use runtime_host::ipc::{encode_frame, frame_length, FrameRead, FrameReader, ReadEvent};

fn read_all(reader: &mut FrameReader, bytes: &[u8], step: usize) -> FrameRead {
    let mut offset = 0;
    loop {
        let count = reader.wanted().min(step).min(bytes.len() - offset);
        let event = ReadEvent::Bytes(bytes[offset..offset + count].to_vec());
        offset += count;
        match reader.accept(event).expect("accepted") {
            FrameRead::More => {}
            done => return done,
        }
    }
}

#[test]
fn a_frame_is_its_length_and_its_body() {
    let frame = encode_frame(&b"hello".to_vec(), 16).expect("frame");
    assert_eq!(frame, [0, 0, 0, 5, b'h', b'e', b'l', b'l', b'o']);
    assert_eq!(frame_length(&[0, 0, 1, 2], 1_000).expect("length"), 258);
}

#[test]
fn a_reader_gives_back_what_was_framed_however_it_arrives() {
    let body: Vec<u8> = (0..=255).collect();
    let frame = encode_frame(&body, 1_024).expect("frame");
    for step in [1, 3, 300] {
        let mut reader = FrameReader::new(1_024);
        match read_all(&mut reader, &frame, step) {
            FrameRead::Data(read) => assert_eq!(read, body),
            _ => panic!("expected a frame"),
        }
    }
}

#[test]
fn lengths_out_of_bounds_are_refused() {
    assert_eq!(
        frame_length(&[0, 0, 0, 0], 16).expect_err("empty").code(),
        "runtime_frame_length_invalid"
    );
    assert_eq!(
        frame_length(&[0, 0, 0, 17], 16).expect_err("long").code(),
        "runtime_frame_length_invalid"
    );
    assert_eq!(
        encode_frame(&vec![0; 17], 16).expect_err("long").code(),
        "runtime_frame_length_invalid"
    );
}

#[test]
fn the_end_of_a_connection_matters_only_inside_a_frame() {
    assert!(matches!(FrameReader::new(16).accept(ReadEvent::End), Ok(FrameRead::Closed)));
    assert!(matches!(FrameReader::new(16).accept(ReadEvent::TimedOut), Ok(FrameRead::Idle)));
    let mut reader = FrameReader::new(16);
    reader.accept(ReadEvent::Bytes(vec![0, 0])).expect("half a header");
    assert_eq!(
        reader.accept(ReadEvent::End).expect_err("truncated").code(),
        "runtime_frame_truncated"
    );
    let mut reader = FrameReader::new(16);
    reader.accept(ReadEvent::Bytes(vec![0, 0, 0, 4])).expect("header");
    assert_eq!(
        reader.accept(ReadEvent::TimedOut).expect_err("timeout").code(),
        "runtime_frame_timeout"
    );
    assert_eq!(
        FrameReader::new(16).accept(ReadEvent::Failed).expect_err("failed").code(),
        "runtime_frame_read_failed"
    );
}

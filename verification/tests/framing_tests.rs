use rust_p2p_chat::framing::{
    frame, frame_message, read_framed, take_frame, FramedRead, FRAME_HEADER_LEN,
};
use rust_p2p_chat::protocol::{Message, MessageType, Timestamp};
use rust_p2p_chat::wire::DecodeError;

#[test]
fn test_frame_exact_bytes() {
    assert_eq!(frame(&[]), Some(vec![0, 0, 0, 0]));
    assert_eq!(frame(&[7, 8, 9]), Some(vec![3, 0, 0, 0, 7, 8, 9]));
    let long = vec![1u8; 258];
    let framed = frame(&long).unwrap();
    assert_eq!(&framed[..4], &[2, 1, 0, 0]);
    assert_eq!(&framed[4..], &long[..]);
    assert_eq!(FRAME_HEADER_LEN, 4);
}

#[test]
fn test_take_frame_cuts_at_the_end_of_the_frame() {
    let mut buffer = frame(b"first").unwrap();
    buffer.extend_from_slice(&frame(b"second").unwrap());
    buffer.extend_from_slice(&[9, 0]);

    let (first, used) = take_frame(&buffer).unwrap();
    assert_eq!(first, b"first");
    assert_eq!(used, 9);
    let (second, used_again) = take_frame(&buffer[used..]).unwrap();
    assert_eq!(second, b"second");
    assert_eq!(used_again, 10);
    // What is left is the start of a frame that has not arrived.
    assert_eq!(take_frame(&buffer[used + used_again..]), None);
}

#[test]
fn test_every_partial_frame_is_incomplete() {
    let framed = frame(&[0xff; 40]).unwrap();
    for len in 0..framed.len() {
        assert_eq!(take_frame(&framed[..len]), None, "prefix of {} bytes", len);
    }
    assert!(take_frame(&framed).is_some());
}

#[test]
fn test_framed_messages_survive_any_segmentation() {
    let messages = vec![
        Message::new_text("text travels framed too".to_string()),
        Message::new_heartbeat(),
        Message::new_acknowledgment(77),
        Message::new_encrypted_text("c2VhbGVk".to_string()),
    ];
    let mut stream = Vec::new();
    for message in &messages {
        stream.extend_from_slice(&frame_message(message).unwrap());
    }

    // Deliver the stream in pieces of every size; the reader sees the same
    // messages each time.
    for piece in 1..=stream.len() {
        let mut buffer: Vec<u8> = Vec::new();
        let mut seen = Vec::new();
        for chunk in stream.chunks(piece) {
            buffer.extend_from_slice(chunk);
            loop {
                match read_framed(&buffer) {
                    FramedRead::Incomplete => break,
                    FramedRead::Message(message, used) => {
                        seen.push(message);
                        buffer.drain(..used);
                    }
                    FramedRead::Invalid(error, _) => panic!("unexpected {:?}", error),
                }
            }
        }
        assert!(buffer.is_empty());
        assert_eq!(seen.len(), messages.len());
        for (read, sent) in seen.iter().zip(&messages) {
            assert_eq!(read.id, sent.id);
            assert_eq!(read.timestamp, sent.timestamp);
            assert_eq!(read.msg_type, sent.msg_type);
        }
    }
}

#[test]
fn test_read_framed_reports_what_is_no_message() {
    let junk = frame(b"plain words, no message").unwrap();
    match read_framed(&junk) {
        FramedRead::Invalid(error, used) => {
            assert_eq!(used, junk.len());
            // The bytes where the nanoseconds stand read as more than a second.
            assert_eq!(error, DecodeError::InvalidTimestamp);
        }
        other => panic!("unexpected {:?}", other),
    }
    match read_framed(&frame(&[]).unwrap()) {
        FramedRead::Invalid(error, used) => {
            assert_eq!(used, 4);
            assert_eq!(error, DecodeError::UnexpectedEnd);
        }
        other => panic!("unexpected {:?}", other),
    }
    assert!(matches!(read_framed(&[1, 0]), FramedRead::Incomplete));
}

#[test]
fn test_frame_message_needs_an_encoding() {
    let broken = Message {
        id: 1,
        timestamp: Timestamp {
            secs: 0,
            nanos: u32::MAX,
        },
        msg_type: MessageType::Heartbeat,
    };
    assert_eq!(frame_message(&broken), None);

    let fine = Message {
        id: 1,
        timestamp: Timestamp::from_secs(0),
        msg_type: MessageType::Heartbeat,
    };
    let framed = frame_message(&fine).unwrap();
    assert_eq!(&framed[..4], &[24, 0, 0, 0]);
    assert_eq!(&framed[4..], &fine.serialize().unwrap()[..]);
}

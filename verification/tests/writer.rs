use netflow::message::{binary_message, message_payload};
use netflow::writer::{
    FrameWriter, MessageAction, MessageEvent, MessageWriter, WriterAction, WriterEvent,
};

/// Writes all of `queue`, then closes the queue. Returns the bytes on the
/// stream.
fn written(mut writer: FrameWriter, queue: Vec<Vec<u8>>) -> Vec<u8> {
    let mut stream: Vec<u8> = Vec::new();
    let mut waiting = queue.into_iter();
    let mut action = WriterAction::Receive;
    loop {
        let event = match action {
            WriterAction::Receive => match waiting.next() {
                Some(payload) => WriterEvent::Queued(payload),
                None => WriterEvent::Closed,
            },
            WriterAction::Write(bytes) => {
                stream.extend_from_slice(&bytes);
                WriterEvent::Written
            }
            WriterAction::Stop => return stream,
        };
        let (next, then) = writer.step(event);
        writer = next;
        action = then;
    }
}

#[test]
fn writers_write_frames_in_order() {
    let queue = vec![vec![7u8, 8], vec![], vec![9u8; 300]];
    let mut expected = vec![0u8, 0, 0, 2, 7, 8, 0, 0, 0, 0, 0, 0, 1, 44];
    expected.extend_from_slice(&[9u8; 300]);
    assert_eq!(written(FrameWriter::client(), queue.clone()), expected);
    assert_eq!(written(FrameWriter::server(), queue), expected);
}

/// Writes `queue` until write number `n` fails. Returns what was written.
fn written_until(mut writer: FrameWriter, queue: &[Vec<u8>], n: usize) -> Vec<u8> {
    let mut stream: Vec<u8> = Vec::new();
    let mut waiting = queue.iter();
    let mut writes = 0;
    let mut action = WriterAction::Receive;
    loop {
        let event = match action {
            WriterAction::Receive => match waiting.next() {
                Some(payload) => WriterEvent::Queued(payload.clone()),
                None => WriterEvent::Closed,
            },
            WriterAction::Write(_) if writes == n => WriterEvent::Failed,
            WriterAction::Write(bytes) => {
                stream.extend_from_slice(&bytes);
                writes += 1;
                WriterEvent::Written
            }
            WriterAction::Stop => return stream,
        };
        let (next, then) = writer.step(event);
        writer = next;
        action = then;
    }
}

#[test]
fn a_failed_write_cuts_the_stream() {
    let queue = vec![vec![7u8, 8], vec![9]];
    let cuts = [0, 4, 6, 10, 11, 11];
    let all = [0u8, 0, 0, 2, 7, 8, 0, 0, 0, 1, 9];
    for (n, cut) in cuts.iter().enumerate() {
        assert_eq!(written_until(FrameWriter::client(), &queue, n), all[..*cut].to_vec());
        assert_eq!(written_until(FrameWriter::server(), &queue, n), all[..*cut].to_vec());
    }
}

#[test]
fn a_failed_header_write_stops_the_writer() {
    let (writer, action) = FrameWriter::server().step(WriterEvent::Queued(vec![1]));
    assert!(matches!(action, WriterAction::Write(bytes) if bytes == vec![0, 0, 0, 1]));
    let (writer, action) = writer.step(WriterEvent::Failed);
    assert!(matches!(action, WriterAction::Stop));
    let (_, action) = writer.step(WriterEvent::Queued(vec![2]));
    assert!(matches!(action, WriterAction::Stop));
}

#[test]
fn a_failed_payload_write_stops_the_writer() {
    let (writer, _) = FrameWriter::client().step(WriterEvent::Queued(vec![5, 6]));
    let (writer, action) = writer.step(WriterEvent::Written);
    assert!(matches!(action, WriterAction::Write(bytes) if bytes == vec![5, 6]));
    let (writer, action) = writer.step(WriterEvent::Failed);
    assert!(matches!(action, WriterAction::Stop));
    let (_, action) = writer.step(WriterEvent::Written);
    assert!(matches!(action, WriterAction::Stop));
}

#[test]
fn message_writer_writes_messages_in_order() {
    let mut waiting = vec![binary_message(b"one"), binary_message(b"two")].into_iter();
    let mut sent: Vec<Vec<u8>> = Vec::new();
    let mut writer = MessageWriter::new();
    let mut action = MessageAction::Receive;
    loop {
        let event = match action {
            MessageAction::Receive => match waiting.next() {
                Some(message) => MessageEvent::Queued(message),
                None => MessageEvent::Closed,
            },
            MessageAction::Write(message) => {
                sent.push(message_payload(message).unwrap());
                MessageEvent::Written
            }
            MessageAction::Stop => break,
        };
        action = writer.step(event);
    }
    assert_eq!(sent, vec![b"one".to_vec(), b"two".to_vec()]);
}

#[test]
fn a_failed_message_write_stops_the_writer() {
    let mut writer = MessageWriter::new();
    assert!(matches!(
        writer.step(MessageEvent::Queued(binary_message(b"x"))),
        MessageAction::Write(_)
    ));
    assert!(matches!(writer.step(MessageEvent::Failed), MessageAction::Stop));
    assert!(matches!(
        writer.step(MessageEvent::Queued(binary_message(b"y"))),
        MessageAction::Stop
    ));
}

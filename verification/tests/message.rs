use netflow::message::{binary_message, message_payload, WsMessage};
use tokio_tungstenite::tungstenite::Message;

#[test]
fn binary_messages_deliver_their_data() {
    let message = binary_message(&[1, 2, 255]);
    assert_eq!(message, Message::binary(vec![1u8, 2, 255]));
    assert_eq!(message_payload(message), Some(vec![1, 2, 255]));
    assert_eq!(message_payload(binary_message(&[])), Some(vec![]));
}

#[test]
fn text_messages_deliver_their_utf8_form() {
    assert_eq!(message_payload(Message::text("h\u{e9}!")), Some(vec![104, 195, 169, 33]));
    assert_eq!(
        WsMessage::Text("h\u{e9}".to_string()).into_payload(),
        Some(vec![104, 195, 169])
    );
}

#[test]
fn control_messages_deliver_nothing() {
    assert_eq!(message_payload(Message::Ping(vec![1u8].into())), None);
    assert_eq!(message_payload(Message::Pong(vec![1u8].into())), None);
    assert_eq!(message_payload(Message::Close(None)), None);
    assert_eq!(WsMessage::Ping.into_payload(), None);
    assert_eq!(WsMessage::Pong.into_payload(), None);
    assert_eq!(WsMessage::Close.into_payload(), None);
    assert_eq!(WsMessage::Frame.into_payload(), None);
}

#[test]
fn binary_payload_is_the_data_itself() {
    assert_eq!(WsMessage::Binary(vec![3, 4]).into_payload(), Some(vec![3, 4]));
}

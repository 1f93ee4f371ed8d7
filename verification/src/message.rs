//! WebSocket messages.
use tokio_tungstenite::tungstenite::Message;
use vstd::prelude::*;
use vstd::slice::slice_to_vec;

verus! {

/// A message of the WebSocket crate.
#[verifier::external_type_specification]
#[verifier::external_body]
pub struct ExMessage(Message);

/// A WebSocket message as a plain value: what kind it is, and for the two
/// kinds that carry application data, the data.
#[derive(Debug)]
pub enum WsMessage {
    /// A text message.
    Text(String),
    /// A binary message.
    Binary(Vec<u8>),
    /// A ping.
    Ping,
    /// The answer to a ping.
    Pong,
    /// The announcement that the peer closes the connection.
    Close,
    /// A raw frame.
    Frame,
}

/// `WsMessage` over mathematical values.
pub enum Content {
    Text(Seq<char>),
    Binary(Seq<u8>),
    Ping,
    Pong,
    Close,
    Frame,
}

impl View for WsMessage {
    type V = Content;

    open spec fn view(&self) -> Content {
        match self {
            WsMessage::Text(text) => Content::Text(text@),
            WsMessage::Binary(data) => Content::Binary(data@),
            WsMessage::Ping => Content::Ping,
            WsMessage::Pong => Content::Pong,
            WsMessage::Close => Content::Close,
            WsMessage::Frame => Content::Frame,
        }
    }
}

/// What `message` holds.
pub uninterp spec fn content(message: Message) -> Content;

/// The bytes that a message delivers: the data of a binary message, the UTF-8
/// form of a text message, and nothing for the kinds that carry no application
/// data.
pub open spec fn payload(content: Content) -> Option<Seq<u8>> {
    match content {
        Content::Text(text) => Some(vstd::utf8::encode_utf8(text)),
        Content::Binary(data) => Some(data),
        _ => None,
    }
}

/// The payloads of `contents`, in order, without those that deliver nothing.
pub open spec fn payloads(contents: Seq<Content>) -> Seq<Seq<u8>>
    decreases contents.len(),
{
    if contents.len() == 0 {
        Seq::empty()
    } else {
        let later = payloads(contents.drop_first());
        match payload(contents.first()) {
            Some(payload) => seq![payload] + later,
            None => later,
        }
    }
}

/// Matches on a `Message`: tells its kinds apart and copies out the data of
/// the two that carry any.
#[verifier::external_body]
fn read_message(message: Message) -> (read: WsMessage)
    ensures
        read@ == content(message),
{
    match message {
        Message::Text(text) => WsMessage::Text(text.as_str().to_string()),
        Message::Binary(data) => WsMessage::Binary(data.to_vec()),
        Message::Ping(_) => WsMessage::Ping,
        Message::Pong(_) => WsMessage::Pong,
        Message::Close(_) => WsMessage::Close,
        Message::Frame(_) => WsMessage::Frame,
    }
}

/// Calls `Message::binary`: makes a binary message that holds `data`.
#[verifier::external_body]
fn make_binary(data: Vec<u8>) -> (message: Message)
    ensures
        content(message) == Content::Binary(data@),
{
    Message::binary(data)
}

impl WsMessage {
    /// Returns the bytes that this message delivers, if it delivers any.
    pub fn into_payload(self) -> (bytes: Option<Vec<u8>>)
        ensures
            match bytes {
                Some(data) => payload(self@) == Some(data@),
                None => payload(self@) is None,
            },
    {
        match self {
            WsMessage::Text(text) => Some(slice_to_vec(text.as_str().as_bytes())),
            WsMessage::Binary(data) => Some(data),
            _ => None,
        }
    }
}

/// Returns the bytes that a received message delivers, if it delivers any.
pub fn message_payload(message: Message) -> (bytes: Option<Vec<u8>>)
    ensures
        match bytes {
            Some(data) => payload(content(message)) == Some(data@),
            None => payload(content(message)) is None,
        },
{
    read_message(message).into_payload()
}

/// Returns a binary message that holds a copy of `data`.
pub fn binary_message(data: &[u8]) -> (message: Message)
    ensures
        content(message) == Content::Binary(data@),
{
    make_binary(slice_to_vec(data))
}

/// What is sent as binary messages is what their receiver is delivered, in the
/// same order.
pub proof fn law_binary_messages_deliver_data(contents: Seq<Content>, data: Seq<Seq<u8>>)
    requires
        contents.len() == data.len(),
        forall|i: int|
            0 <= i < data.len() ==> #[trigger] contents[i] == Content::Binary(data[i]),
    ensures
        payloads(contents) == data,
    decreases data.len(),
{
    if data.len() > 0 {
        law_binary_messages_deliver_data(contents.drop_first(), data.drop_first());
        assert(contents.first() == Content::Binary(data[0]));
        assert(seq![data[0]] + data.drop_first() =~= data);
    } else {
        assert(data =~= Seq::empty());
    }
}

/// Messages deliver one after the other.
pub proof fn law_messages_deliver_in_turn(a: Seq<Content>, b: Seq<Content>)
    ensures
        payloads(a + b) == payloads(a) + payloads(b),
    decreases a.len(),
{
    if a.len() == 0 {
        assert(a + b =~= b);
        assert(payloads(a) + payloads(b) =~= payloads(b));
    } else {
        assert((a + b).drop_first() =~= a.drop_first() + b);
        law_messages_deliver_in_turn(a.drop_first(), b);
        assert(payloads(a + b) =~= payloads(a) + payloads(b));
    }
}

/// What is sent as text messages is delivered as the UTF-8 form of the texts,
/// in the same order.
pub proof fn law_text_messages_deliver_utf8(contents: Seq<Content>, texts: Seq<Seq<char>>)
    requires
        contents.len() == texts.len(),
        forall|i: int|
            0 <= i < texts.len() ==> #[trigger] contents[i] == Content::Text(texts[i]),
    ensures
        payloads(contents).len() == texts.len(),
        forall|i: int|
            0 <= i < texts.len() ==> #[trigger] payloads(contents)[i] == vstd::utf8::encode_utf8(
                texts[i],
            ),
    decreases texts.len(),
{
    if texts.len() > 0 {
        let later = payloads(contents.drop_first());
        law_text_messages_deliver_utf8(contents.drop_first(), texts.drop_first());
        assert(contents.first() == Content::Text(texts[0]));
        assert(payloads(contents) == seq![vstd::utf8::encode_utf8(texts[0])] + later);
        assert forall|i: int| 0 <= i < texts.len() implies #[trigger] payloads(contents)[i]
            == vstd::utf8::encode_utf8(texts[i]) by {
            if i > 0 {
                assert(payloads(contents)[i] == later[i - 1]);
                assert(texts[i] == texts.drop_first()[i - 1]);
            }
        }
    }
}

/// A plain message holds the text or the bytes that it shows.
pub proof fn law_plain_message_shows_what_it_holds(message: WsMessage)
    ensures
        match message {
            WsMessage::Text(text) => message@ == Content::Text(text@),
            WsMessage::Binary(data) => message@ == Content::Binary(data@),
            WsMessage::Ping => message@ is Ping,
            WsMessage::Pong => message@ is Pong,
            WsMessage::Close => message@ is Close,
            WsMessage::Frame => message@ is Frame,
        },
{
}

} // verus!

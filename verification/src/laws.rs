//! What holds of several parts together: what one side sends is what the other
//! side is given, a reply goes back to the peer that asked, and a connection is
//! in the table while it is open.
use crate::addr::{AddrKey, PeerAddr};
use crate::client::listen::{Heard, ListenFault, ListenOrder, ListenPhase, StreamEnd};
use crate::error::Fault;
use crate::message::Content;
use crate::client::Connection;
use crate::packet::{Delivery, Record, Responder};
use crate::server::lifecycle::Mark;
use crate::server::tcp::{TcpAction, TcpConnection, TcpOrder, TcpPhase, TcpSignal};
use crate::server::websocket::{WsAction, WsConnection, WsOrder, WsPhase, WsSignal};
use crate::writer::{LengthRule, MessageAction, MessagePhase, WriterOrder, WriterPhase};
use tokio::sync::mpsc::UnboundedSender;
use tokio_tungstenite::tungstenite::Message;
use vstd::prelude::*;

verus! {

/// The bytes that a client puts on a TCP stream for `queue`.
pub open spec fn client_stream(queue: Seq<Seq<u8>>) -> Seq<u8> {
    crate::writer::written(LengthRule::Checked, WriterPhase::Idle, WriterOrder::Receive, queue)
}

/// The bytes that a server puts on a TCP stream for `queue`.
pub open spec fn server_stream(queue: Seq<Seq<u8>>) -> Seq<u8> {
    crate::writer::written(LengthRule::Wrapping, WriterPhase::Idle, WriterOrder::Receive, queue)
}

/// Over TCP, the packet handler of a server is called with exactly the
/// payloads that a client sends, in the same order. `Client::send` lets only
/// such payloads into the queue.
pub proof fn law_server_gets_what_client_sends(queue: Seq<Seq<u8>>)
    requires
        crate::frame::all_fit(queue),
    ensures
        crate::server::tcp::handled(TcpPhase::Opening, TcpOrder::Register, client_stream(queue))
            == queue,
{
    let stream = client_stream(queue);
    crate::writer::law_writer_writes_frames(LengthRule::Checked, queue);
    crate::server::tcp::law_connection_handles_each_frame(stream);
    crate::frame::law_deframe_undoes_frames(queue, Seq::empty());
    assert(stream + Seq::<u8>::empty() =~= stream);
    assert(queue + crate::frame::deframe(Seq::empty()) =~= queue);
}

/// Over TCP, the message handler of a client is started with exactly the
/// payloads that a server sends, in the same order, if none is longer than
/// `MAX_FRAME_SIZE`; and the end of the stream then ends the listening, with an
/// error exactly if reading failed.
pub proof fn law_client_gets_what_server_sends<E>(queue: Seq<Seq<u8>>, end: StreamEnd<E>)
    requires
        crate::client::listen::all_accepted(queue),
    ensures
        crate::client::listen::heard_stream(
            ListenPhase::TakeTcp,
            ListenOrder::TakeReader,
            server_stream(queue),
            end,
        ) == (Heard::<E> { payloads: queue, result: end.before_payload() }),
{
    let stream = server_stream(queue);
    let empty = Seq::<u8>::empty();
    crate::writer::law_writer_writes_frames(LengthRule::Wrapping, queue);
    crate::client::listen::law_client_hears_each_frame(stream, end);
    crate::client::listen::law_client_accepts_frames(queue, empty, end);
    assert(stream + empty =~= stream);
    assert(queue + crate::client::listen::accepted(empty, end).payloads =~= queue);
}

/// Over TCP, a payload longer than `MAX_FRAME_SIZE` that a server sends ends
/// the listening of the client with a fault, after everything that was sent
/// before it.
pub proof fn law_client_refuses_what_is_too_large<E>(
    before: Seq<Seq<u8>>,
    large: Seq<u8>,
    after: Seq<Seq<u8>>,
    end: StreamEnd<E>,
)
    requires
        crate::client::listen::all_accepted(before),
        crate::MAX_FRAME_SIZE < large.len() < crate::frame::LENGTH_SPAN,
    ensures
        crate::client::listen::heard_stream(
            ListenPhase::TakeTcp,
            ListenOrder::TakeReader,
            server_stream(before + (seq![large] + after)),
            end,
        ) == (Heard::<E> {
            payloads: before,
            result: Err(ListenFault::Fault(Fault::FrameTooLargeToReceive)),
        }),
{
    let late = seq![large] + after;
    let stream = server_stream(before + late);
    crate::writer::law_writer_writes_frames(LengthRule::Wrapping, before + late);
    lemma_frames_of_concatenation(before, late);
    crate::client::listen::law_client_hears_each_frame(stream, end);
    crate::client::listen::law_client_accepts_frames(before, crate::frame::frames(late), end);
    assert(late.drop_first() =~= after);
    let rest = large + crate::frame::frames(after);
    assert(crate::frame::frames(late) =~= crate::frame::header(large.len()) + rest);
    crate::client::listen::law_client_refuses_large_frame(large.len(), rest, end);
    assert(before + Seq::<Seq<u8>>::empty() =~= before);
}

/// At every moment, and however the stream ends, a server has handled a start
/// of what a client sends, and a client has heard a start of what a server
/// sends: no payload is missing between two others, none is changed and none
/// comes twice.
pub proof fn law_each_side_gets_a_start<E>(
    queue: Seq<Seq<u8>>,
    stream: Seq<u8>,
    end: StreamEnd<E>,
)
    requires
        crate::frame::all_fit(queue),
        stream.is_prefix_of(crate::frame::frames(queue)),
    ensures
        crate::server::tcp::handled(
            TcpPhase::Opening,
            TcpOrder::Register,
            stream,
        ).is_prefix_of(queue),
        crate::client::listen::heard_stream(
            ListenPhase::TakeTcp,
            ListenOrder::TakeReader,
            stream,
            end,
        ).payloads.is_prefix_of(queue),
{
    crate::server::tcp::law_connection_handles_each_frame(stream);
    crate::client::listen::law_client_hears_each_frame(stream, end);
    lemma_start_of_frames(queue, stream, end);
}

proof fn lemma_start_of_frames<E>(queue: Seq<Seq<u8>>, stream: Seq<u8>, end: StreamEnd<E>)
    requires
        crate::frame::all_fit(queue),
        stream.is_prefix_of(crate::frame::frames(queue)),
    ensures
        crate::frame::deframe(stream).is_prefix_of(queue),
        crate::client::listen::accepted(stream, end).payloads.is_prefix_of(queue),
    decreases queue.len(),
{
    let all = crate::frame::frames(queue);
    let header_size = crate::frame::HEADER_SIZE as int;
    assert(stream =~= all.subrange(0, stream.len() as int));
    if queue.len() > 0 && stream.len() >= header_size {
        let first = queue.first();
        let rest = queue.drop_first();
        let size = header_size + first.len();
        crate::frame::law_length_round_trip(first.len());
        assert(stream.take(header_size) =~= crate::frame::header(first.len()));
        if stream.len() >= size {
            let later = stream.skip(size);
            assert(stream.subrange(header_size, size) =~= first);
            assert(later =~= crate::frame::frames(rest).subrange(0, later.len() as int));
            lemma_start_of_frames(rest, later, end);
            let got = crate::frame::deframe(later);
            let heard = crate::client::listen::accepted(later, end).payloads;
            assert(seq![first] + got =~= queue.subrange(0, (got.len() + 1) as int));
            assert(seq![first] + heard =~= queue.subrange(0, (heard.len() + 1) as int));
        }
    }
}

proof fn lemma_frames_of_concatenation(a: Seq<Seq<u8>>, b: Seq<Seq<u8>>)
    ensures
        crate::frame::frames(a + b) == crate::frame::frames(a) + crate::frame::frames(b),
{
    crate::frame::law_frames_follow_each_other(a, b, Seq::empty());
}

/// The contents of the messages that either side puts on a WebSocket for
/// `queue`.
pub open spec fn message_stream(queue: Seq<Message>) -> Seq<Content> {
    crate::writer::written_messages(
        MessagePhase::Idle,
        MessageAction::Receive,
        queue,
    ).map_values(|message: Message| crate::message::content(message))
}

/// Over a WebSocket, the packet handler of a server is started with exactly
/// the data that a client sends, in the same order; and so is the message
/// handler of a client with the data that a server sends. This holds whether
/// the connection then ends or fails, and the listening of the client ends with
/// an error exactly if the connection fails.
pub proof fn law_websocket_brings_what_is_sent<E>(
    queue: Seq<Message>,
    data: Seq<Seq<u8>>,
    end: Option<E>,
)
    requires
        queue.len() == data.len(),
        forall|i: int|
            0 <= i < queue.len() ==> crate::message::content(#[trigger] queue[i])
                == Content::Binary(data[i]),
    ensures
        crate::server::websocket::started(
            WsPhase::Opening,
            WsOrder::Register,
            message_stream(queue),
            end is Some,
        ) == data,
        crate::client::listen::heard_messages(
            ListenPhase::TakeWebSocket,
            ListenOrder::TakeReader,
            message_stream(queue),
            end,
        ) == (Heard { payloads: data, result: crate::client::listen::message_result(end) }),
{
    let contents = message_stream(queue);
    crate::writer::law_writer_writes_messages(queue);
    assert forall|i: int| 0 <= i < data.len() implies #[trigger] contents[i] == Content::Binary(
        data[i],
    ) by {
        assert(contents[i] == crate::message::content(queue[i]));
    }
    crate::message::law_binary_messages_deliver_data(contents, data);
    crate::server::websocket::law_connection_starts_each_message(contents, end is Some);
    crate::client::listen::law_client_hears_each_message(contents, end);
}

/// From the moment it is registered a TCP connection is filed under its
/// address, until it is unregistered. Once it is over nothing is filed there,
/// and the rest of the table is as it was.
pub proof fn law_tcp_connection_is_filed_while_open(
    table: Map<AddrKey, Responder>,
    addr: PeerAddr,
    responder: Responder,
    signals: Seq<TcpSignal>,
)
    requires
        signals.len() > 0,
        signals[0] is Registered,
    ensures
        ({
            let orders = seq![TcpOrder::Register] + crate::server::tcp::tcp_trace(
                TcpPhase::Opening,
                signals,
            );
            let after = crate::server::lifecycle::filed(
                table,
                addr,
                responder,
                crate::server::tcp::tcp_marks(orders),
            );
            &&& after == if exists|i: int|
                0 <= i < orders.len() && #[trigger] orders[i] is Unregister {
                table.remove(addr.key())
            } else {
                table.insert(addr.key(), responder)
            }
            &&& orders.last() is AbortWriter ==> after == table.remove(addr.key())
        }),
{
    let trace = crate::server::tcp::tcp_trace(TcpPhase::Opening, signals);
    let orders = seq![TcpOrder::Register] + trace;
    let marks = crate::server::tcp::tcp_marks(trace);
    crate::server::tcp::law_tcp_connection_takes_its_course(TcpPhase::Opening, signals);
    assert(trace[0] == crate::server::tcp::tcp_next(TcpPhase::Opening, signals[0]).1);
    crate::server::lifecycle::law_connection_is_filed_while_open(table, addr, responder, marks);
    assert(crate::server::tcp::tcp_marks(orders) =~= seq![Mark::Enter] + marks);
    assert forall|i: int|
        #![trigger orders[i]]
        0 < i < orders.len() implies marks[i - 1] == crate::server::tcp::tcp_mark(orders[i]) by {}
    assert forall|i: int| 0 <= i < marks.len() implies #[trigger] marks[i]
        == crate::server::tcp::tcp_mark(orders[i + 1]) by {}
}

/// From the moment it is registered a WebSocket connection is filed under its
/// address, until it is unregistered. Once it is over nothing is filed there,
/// and the rest of the table is as it was.
pub proof fn law_websocket_connection_is_filed_while_open(
    table: Map<AddrKey, Responder>,
    addr: PeerAddr,
    responder: Responder,
    signals: Seq<WsSignal>,
)
    requires
        signals.len() > 0,
        signals[0] is Registered,
    ensures
        ({
            let orders = seq![WsOrder::Register] + crate::server::websocket::ws_trace(
                WsPhase::Opening,
                signals,
            );
            let after = crate::server::lifecycle::filed(
                table,
                addr,
                responder,
                crate::server::websocket::ws_marks(orders),
            );
            &&& after == if exists|i: int|
                0 <= i < orders.len() && #[trigger] orders[i] is Unregister {
                table.remove(addr.key())
            } else {
                table.insert(addr.key(), responder)
            }
            &&& orders.last() is AbortWriter ==> after == table.remove(addr.key())
        }),
{
    let trace = crate::server::websocket::ws_trace(WsPhase::Opening, signals);
    let orders = seq![WsOrder::Register] + trace;
    let marks = crate::server::websocket::ws_marks(trace);
    crate::server::websocket::law_ws_connection_takes_its_course(WsPhase::Opening, signals);
    assert(trace[0] == crate::server::websocket::ws_next(WsPhase::Opening, signals[0]).1);
    crate::server::lifecycle::law_connection_is_filed_while_open(table, addr, responder, marks);
    assert(crate::server::websocket::ws_marks(orders) =~= seq![Mark::Enter] + marks);
    assert forall|i: int|
        #![trigger orders[i]]
        0 < i < orders.len() implies marks[i - 1] == crate::server::websocket::ws_mark(orders[i]) by {}
    assert forall|i: int| 0 <= i < marks.len() implies #[trigger] marks[i]
        == crate::server::websocket::ws_mark(orders[i + 1]) by {}
}

/// What a packet handler replies to a packet of a TCP connection goes to the
/// peer of that connection.
pub proof fn law_tcp_reply_goes_back(
    connection: TcpConnection,
    action: TcpAction,
    delivery: Delivery,
    data: Seq<u8>,
)
    requires
        connection.owns(action),
        action matches TcpAction::Handle(packet, _) && delivery.brings(packet.responder, data),
    ensures
        delivery.brings(connection.responder(), data),
{
}

/// What a packet handler replies to a packet of a WebSocket connection goes to
/// the peer of that connection.
pub proof fn law_websocket_reply_goes_back(
    connection: WsConnection,
    action: WsAction,
    delivery: Delivery,
    data: Seq<u8>,
)
    requires
        connection.owns(action),
        action matches WsAction::Start(packet, _) && delivery.brings(packet.responder, data),
    ensures
        delivery.brings(connection.responder(), data),
{
}

/// Two deliveries to peers over different queues, sockets or addresses are not
/// confused: a delivery reaches one responder only.
pub proof fn law_delivery_reaches_one_peer(
    delivery: Delivery,
    one: Responder,
    other: Responder,
    data: Seq<u8>,
)
    requires
        delivery.brings(one, data),
        delivery.brings(other, data),
    ensures
        one == other,
{
}

/// Over a WebSocket, both sides start their handler with the UTF-8 form of each
/// text message, whatever the text, in the order of the messages.
pub proof fn law_texts_reach_the_handlers<E>(
    texts: Seq<Seq<char>>,
    contents: Seq<Content>,
    end: Option<E>,
)
    requires
        contents.len() == texts.len(),
        forall|i: int|
            0 <= i < texts.len() ==> #[trigger] contents[i] == Content::Text(texts[i]),
    ensures
        ({
            let at_server = crate::server::websocket::started(
                WsPhase::Opening,
                WsOrder::Register,
                contents,
                end is Some,
            );
            let at_client = crate::client::listen::heard_messages(
                ListenPhase::TakeWebSocket,
                ListenOrder::TakeReader,
                contents,
                end,
            ).payloads;
            &&& at_server.len() == texts.len()
            &&& at_client.len() == texts.len()
            &&& forall|i: int|
                0 <= i < texts.len() ==> #[trigger] at_server[i] == vstd::utf8::encode_utf8(
                    texts[i],
                )
            &&& forall|i: int|
                0 <= i < texts.len() ==> #[trigger] at_client[i] == vstd::utf8::encode_utf8(
                    texts[i],
                )
        }),
{
    crate::message::law_text_messages_deliver_utf8(contents, texts);
    crate::server::websocket::law_connection_starts_each_message(contents, end is Some);
    crate::client::listen::law_client_hears_each_message(contents, end);
}

/// Over a WebSocket, both sides start their handler with the data of each
/// binary message, whatever the data, in the order of the messages.
pub proof fn law_binaries_reach_the_handlers<E>(
    data: Seq<Seq<u8>>,
    contents: Seq<Content>,
    end: Option<E>,
)
    requires
        contents.len() == data.len(),
        forall|i: int|
            0 <= i < data.len() ==> #[trigger] contents[i] == Content::Binary(data[i]),
    ensures
        crate::server::websocket::started(
            WsPhase::Opening,
            WsOrder::Register,
            contents,
            end is Some,
        ) == data,
        crate::client::listen::heard_messages(
            ListenPhase::TakeWebSocket,
            ListenOrder::TakeReader,
            contents,
            end,
        ).payloads == data,
{
    crate::message::law_binary_messages_deliver_data(contents, data);
    crate::server::websocket::law_connection_starts_each_message(contents, end is Some);
    crate::client::listen::law_client_hears_each_message(contents, end);
}

/// Over a WebSocket, messages reach the handlers one after the other: what
/// comes first changes nothing for what comes later.
pub proof fn law_messages_reach_the_handlers_in_turn<E>(
    before: Seq<Content>,
    after: Seq<Content>,
    end: Option<E>,
)
    ensures
        ({
            let opening = WsPhase::Opening;
            let failed = end is Some;
            crate::server::websocket::started(
                opening,
                WsOrder::Register,
                before + after,
                failed,
            ) == crate::server::websocket::started(opening, WsOrder::Register, before, failed)
                + crate::server::websocket::started(opening, WsOrder::Register, after, failed)
        }),
        ({
            let taking = ListenPhase::TakeWebSocket;
            crate::client::listen::heard_messages(
                taking,
                ListenOrder::TakeReader,
                before + after,
                end,
            ).payloads == crate::client::listen::heard_messages(
                taking,
                ListenOrder::TakeReader,
                before,
                end,
            ).payloads + crate::client::listen::heard_messages(
                taking,
                ListenOrder::TakeReader,
                after,
                end,
            ).payloads
        }),
{
    crate::message::law_messages_deliver_in_turn(before, after);
    crate::server::websocket::law_connection_starts_each_message(before + after, end is Some);
    crate::server::websocket::law_connection_starts_each_message(before, end is Some);
    crate::server::websocket::law_connection_starts_each_message(after, end is Some);
    crate::client::listen::law_client_hears_each_message(before + after, end);
    crate::client::listen::law_client_hears_each_message(before, end);
    crate::client::listen::law_client_hears_each_message(after, end);
}

/// Over a WebSocket, a message that is neither text nor binary starts no
/// handler on either side.
pub proof fn law_control_messages_start_no_handler<E>(control: Content, end: Option<E>)
    requires
        control !is Text,
        control !is Binary,
    ensures
        crate::server::websocket::started(
            WsPhase::Opening,
            WsOrder::Register,
            seq![control],
            end is Some,
        ) == Seq::<Seq<u8>>::empty(),
        crate::client::listen::heard_messages(
            ListenPhase::TakeWebSocket,
            ListenOrder::TakeReader,
            seq![control],
            end,
        ).payloads == Seq::<Seq<u8>>::empty(),
{
    let contents = seq![control];
    let nothing = Seq::<Content>::empty();
    assert(contents.drop_first() =~= nothing);
    assert(crate::message::payloads(nothing) =~= Seq::empty());
    assert(crate::message::payloads(contents) =~= Seq::empty());
    crate::server::websocket::law_connection_starts_each_message(contents, end is Some);
    crate::client::listen::law_client_hears_each_message(contents, end);
}

/// What a server sends: each entry is a peer and the data for it.
pub open spec fn records_each(sends: Seq<(Responder, Seq<u8>)>, records: Seq<Record>) -> bool {
    &&& records.len() == sends.len() + 1
    &&& forall|i: int|
        0 <= i < sends.len() ==> (#[trigger] sends[i]).0.gets_one(
            records[i],
            records[i + 1],
            sends[i].1,
        )
}

/// The data that `sends` has for the peer behind `responder`, in order.
pub open spec fn data_for(
    sends: Seq<(Responder, Seq<u8>)>,
    responder: Responder,
) -> Seq<Seq<u8>>
    decreases sends.len(),
{
    if sends.len() == 0 {
        Seq::empty()
    } else {
        let before = data_for(sends.drop_last(), responder);
        if sends.last().0 == responder {
            before.push(sends.last().1)
        } else {
            before
        }
    }
}

/// The payloads of the items that `record` shows as handed to `queue`.
pub open spec fn frames_for(
    record: Record,
    queue: UnboundedSender<Vec<u8>>,
) -> Seq<Seq<u8>> {
    crate::channel::handed(record.frames@, queue).map_values(|payload: Vec<u8>| payload@)
}

/// The contents of the messages that `record` shows as handed to `queue`.
pub open spec fn contents_for(record: Record, queue: UnboundedSender<Message>) -> Seq<Content> {
    crate::channel::handed(record.messages@, queue).map_values(
        |message: Message| crate::message::content(message),
    )
}

/// `data` as the contents of binary messages.
pub open spec fn binaries(data: Seq<Seq<u8>>) -> Seq<Content> {
    data.map_values(|bytes: Seq<u8>| Content::Binary(bytes))
}

/// Whatever a server sends to its peers, in whatever order: the queue of each
/// TCP peer is handed the data for that peer, each once and in order, and
/// nothing else; and so is the queue of each WebSocket peer, as binary
/// messages.
pub proof fn law_queues_are_handed_what_is_sent(
    sends: Seq<(Responder, Seq<u8>)>,
    records: Seq<Record>,
    tcp: UnboundedSender<Vec<u8>>,
    websocket: UnboundedSender<Message>,
)
    requires
        records_each(sends, records),
    ensures
        frames_for(records.last(), tcp) == frames_for(records.first(), tcp) + data_for(
            sends,
            Responder::Tcp(tcp),
        ),
        contents_for(records.last(), websocket) == contents_for(records.first(), websocket)
            + binaries(data_for(sends, Responder::WebSocket(websocket))),
    decreases sends.len(),
{
    let to_tcp = Responder::Tcp(tcp);
    let to_websocket = Responder::WebSocket(websocket);
    if sends.len() == 0 {
        assert(binaries(data_for(sends, to_websocket)) =~= Seq::empty());
        assert(frames_for(records.last(), tcp) + Seq::<Seq<u8>>::empty() =~= frames_for(
            records.last(),
            tcp,
        ));
        assert(contents_for(records.last(), websocket) + Seq::<Content>::empty() =~= contents_for(
            records.last(),
            websocket,
        ));
    } else {
        let n = sends.len() - 1;
        let (to, data) = sends.last();
        let earlier = sends.drop_last();
        let before = records.drop_last();
        assert forall|i: int| 0 <= i < earlier.len() implies (#[trigger] earlier[i]).0.gets_one(
            before[i],
            before[i + 1],
            earlier[i].1,
        ) by {
            assert(earlier[i] == sends[i]);
        }
        law_queues_are_handed_what_is_sent(earlier, before, tcp, websocket);
        assert(before.last() == records[n]);
        assert(before.first() == records.first());
        assert(sends[n].0.gets_one(records[n], records[n + 1], sends[n].1));
        let (start_frames, start_contents) = (
            frames_for(records.first(), tcp),
            contents_for(records.first(), websocket),
        );
        let frames = data_for(earlier, to_tcp);
        let messages = data_for(earlier, to_websocket);
        assert(records.last() == records[n + 1]);
        if to == to_tcp {
            assert(frames_for(records.last(), tcp) =~= frames_for(records[n], tcp).push(data));
            assert(start_frames + frames.push(data) =~= (start_frames + frames).push(data));
        } else {
            assert(frames_for(records.last(), tcp) =~= frames_for(records[n], tcp));
        }
        if to == to_websocket {
            let content = Content::Binary(data);
            assert(contents_for(records.last(), websocket) =~= contents_for(
                records[n],
                websocket,
            ).push(content));
            assert(binaries(messages.push(data)) =~= binaries(messages).push(content));
            assert(start_contents + binaries(messages).push(content) =~= (start_contents + binaries(
                messages,
            )).push(content));
        } else {
            assert(contents_for(records.last(), websocket) =~= contents_for(records[n], websocket));
        }
    }
}

/// Whatever a server sends to its peers, in whatever order: a TCP client is
/// started with exactly the data that was sent to it, each once and in order,
/// if none is longer than `MAX_FRAME_SIZE`.
pub proof fn law_tcp_client_hears_what_is_sent_to_it<E>(
    sends: Seq<(Responder, Seq<u8>)>,
    records: Seq<Record>,
    queue: UnboundedSender<Vec<u8>>,
    websocket: UnboundedSender<Message>,
    end: StreamEnd<E>,
)
    requires
        records_each(sends, records),
        records.first().empty(),
        crate::client::listen::all_accepted(data_for(sends, Responder::Tcp(queue))),
    ensures
        crate::client::listen::heard_stream(
            ListenPhase::TakeTcp,
            ListenOrder::TakeReader,
            server_stream(frames_for(records.last(), queue)),
            end,
        ).payloads == data_for(sends, Responder::Tcp(queue)),
{
    let data = data_for(sends, Responder::Tcp(queue));
    law_queues_are_handed_what_is_sent(sends, records, queue, websocket);
    assert(frames_for(records.first(), queue) =~= Seq::empty());
    assert(Seq::<Seq<u8>>::empty() + data =~= data);
    law_client_gets_what_server_sends(data, end);
}

/// Whatever a server sends to its peers, in whatever order: a WebSocket client
/// is started with exactly the data that was sent to it, each once and in
/// order.
pub proof fn law_websocket_client_hears_what_is_sent_to_it<E>(
    sends: Seq<(Responder, Seq<u8>)>,
    records: Seq<Record>,
    queue: UnboundedSender<Message>,
    tcp: UnboundedSender<Vec<u8>>,
    end: Option<E>,
)
    requires
        records_each(sends, records),
        records.first().empty(),
    ensures
        crate::client::listen::heard_messages(
            ListenPhase::TakeWebSocket,
            ListenOrder::TakeReader,
            message_stream(crate::channel::handed(records.last().messages@, queue)),
            end,
        ).payloads == data_for(sends, Responder::WebSocket(queue)),
{
    let data = data_for(sends, Responder::WebSocket(queue));
    let items = crate::channel::handed(records.last().messages@, queue);
    law_queues_are_handed_what_is_sent(sends, records, tcp, queue);
    assert(contents_for(records.first(), queue) =~= Seq::empty());
    assert(contents_for(records.last(), queue) =~= binaries(data));
    assert forall|i: int| 0 <= i < items.len() implies crate::message::content(
        #[trigger] items[i],
    ) == Content::Binary(data[i]) by {
        assert(contents_for(records.last(), queue)[i] == binaries(data)[i]);
    }
    assert(items.len() == contents_for(records.last(), queue).len());
    law_websocket_brings_what_is_sent(items, data, end);
}

/// Whatever a client sends over its TCP connection, the packet handler of the
/// server is called with exactly that, each once and in order. `Client::send`
/// sends only payloads that fit into a frame.
pub proof fn law_server_handles_what_tcp_client_sends<T, W>(
    connection: Connection<T, W>,
    sends: Seq<Seq<u8>>,
    records: Seq<Record>,
)
    requires
        connection is Tcp,
        records.len() == sends.len() + 1,
        records.first().empty(),
        forall|i: int|
            0 <= i < sends.len() ==> crate::client::gets_one_over(
                connection,
                records[i],
                records[i + 1],
                #[trigger] sends[i],
            ),
        crate::frame::all_fit(sends),
    ensures
        crate::server::tcp::handled(
            TcpPhase::Opening,
            TcpOrder::Register,
            client_stream(frames_for(records.last(), connection->frames)),
        ) == sends,
{
    lemma_tcp_client_hands_over(connection, sends, records);
    law_server_gets_what_client_sends(sends);
}

proof fn lemma_tcp_client_hands_over<T, W>(
    connection: Connection<T, W>,
    sends: Seq<Seq<u8>>,
    records: Seq<Record>,
)
    requires
        connection is Tcp,
        records.len() == sends.len() + 1,
        records.first().empty(),
        forall|i: int|
            0 <= i < sends.len() ==> crate::client::gets_one_over(
                connection,
                records[i],
                records[i + 1],
                #[trigger] sends[i],
            ),
    ensures
        frames_for(records.last(), connection->frames) == sends,
    decreases sends.len(),
{
    let queue = connection->frames;
    if sends.len() == 0 {
        assert(frames_for(records.last(), queue) =~= sends);
    } else {
        let n = sends.len() - 1;
        let earlier = sends.drop_last();
        let before = records.drop_last();
        assert forall|i: int| 0 <= i < earlier.len() implies crate::client::gets_one_over(
            connection,
            before[i],
            before[i + 1],
            #[trigger] earlier[i],
        ) by {
            assert(earlier[i] == sends[i]);
        }
        lemma_tcp_client_hands_over(connection, earlier, before);
        assert(crate::client::gets_one_over(connection, records[n], records[n + 1], sends[n]));
        assert(before.last() == records[n]);
        assert(records.last() == records[n + 1]);
        assert(frames_for(records.last(), queue) =~= frames_for(records[n], queue).push(sends[n]));
        assert(earlier.push(sends[n]) =~= sends);
    }
}

/// Whatever a client sends over its WebSocket connection, the packet handler
/// of the server is started with exactly that, each once and in order.
pub proof fn law_server_starts_on_what_websocket_client_sends<T, W>(
    connection: Connection<T, W>,
    sends: Seq<Seq<u8>>,
    records: Seq<Record>,
    failed: bool,
)
    requires
        connection is WebSocket,
        records.len() == sends.len() + 1,
        records.first().empty(),
        forall|i: int|
            0 <= i < sends.len() ==> crate::client::gets_one_over(
                connection,
                records[i],
                records[i + 1],
                #[trigger] sends[i],
            ),
    ensures
        crate::server::websocket::started(
            WsPhase::Opening,
            WsOrder::Register,
            message_stream(crate::channel::handed(records.last().messages@, connection->messages)),
            failed,
        ) == sends,
{
    let items = crate::channel::handed(records.last().messages@, connection->messages);
    let end: Option<()> = if failed {
        Some(())
    } else {
        None
    };
    lemma_websocket_client_hands_over(connection, sends, records);
    assert(items.len() == contents_for(records.last(), connection->messages).len());
    assert forall|i: int| 0 <= i < items.len() implies crate::message::content(
        #[trigger] items[i],
    ) == Content::Binary(sends[i]) by {
        assert(contents_for(records.last(), connection->messages)[i] == binaries(sends)[i]);
    }
    law_websocket_brings_what_is_sent(items, sends, end);
}

proof fn lemma_websocket_client_hands_over<T, W>(
    connection: Connection<T, W>,
    sends: Seq<Seq<u8>>,
    records: Seq<Record>,
)
    requires
        connection is WebSocket,
        records.len() == sends.len() + 1,
        records.first().empty(),
        forall|i: int|
            0 <= i < sends.len() ==> crate::client::gets_one_over(
                connection,
                records[i],
                records[i + 1],
                #[trigger] sends[i],
            ),
    ensures
        contents_for(records.last(), connection->messages) == binaries(sends),
    decreases sends.len(),
{
    let queue = connection->messages;
    if sends.len() == 0 {
        assert(contents_for(records.last(), queue) =~= binaries(sends));
    } else {
        let n = sends.len() - 1;
        let earlier = sends.drop_last();
        let before = records.drop_last();
        assert forall|i: int| 0 <= i < earlier.len() implies crate::client::gets_one_over(
            connection,
            before[i],
            before[i + 1],
            #[trigger] earlier[i],
        ) by {
            assert(earlier[i] == sends[i]);
        }
        lemma_websocket_client_hands_over(connection, earlier, before);
        assert(crate::client::gets_one_over(connection, records[n], records[n + 1], sends[n]));
        assert(before.last() == records[n]);
        assert(records.last() == records[n + 1]);
        assert(contents_for(records.last(), queue) =~= contents_for(records[n], queue).push(
            Content::Binary(sends[n]),
        ));
        assert(binaries(sends) =~= binaries(earlier).push(Content::Binary(sends[n])));
    }
}

/// What is sent to all connections of a table is handed to the queue of each:
/// a TCP peer that is in the table once gets the data once, and a queue that
/// belongs to nobody in the table gets nothing.
pub proof fn law_sending_to_all_hands_one_to_each_tcp_peer(
    connections: Map<AddrKey, Responder>,
    before: Record,
    after: Record,
    data: Seq<u8>,
    queue: UnboundedSender<Vec<u8>>,
    key: AddrKey,
)
    requires
        crate::server::manager::each_gets_one(connections, before, after, data),
        forall|other: AddrKey| #[trigger]
            connections.contains_key(other) && connections[other] == Responder::Tcp(queue)
                ==> other == key,
    ensures
        frames_for(after, queue) == if connections.contains_key(key) && connections[key]
            == Responder::Tcp(queue) {
            frames_for(before, queue).push(data)
        } else {
            frames_for(before, queue)
        },
{
    let responder = Responder::Tcp(queue);
    let (keys, records) = choose|keys: Seq<AddrKey>, records: Seq<Record>|
        {
            &&& keys.no_duplicates()
            &&& keys.to_set() == connections.dom()
            &&& #[trigger] crate::server::manager::passes_through(
                keys,
                records,
                connections,
                before,
                after,
                data,
            )
        };
    let sends = keys.map_values(|key: AddrKey| (connections[key], data));
    lemma_sends_to_keys(keys, records, connections, data);
    let unused: UnboundedSender<Message> = arbitrary();
    law_queues_are_handed_what_is_sent(sends, records, queue, unused);
    assert forall|i: int|
        0 <= i < keys.len() && connections[#[trigger] keys[i]] == responder implies keys[i] == key by {
        assert(keys.to_set().contains(keys[i]));
        assert(connections.contains_key(keys[i]));
    }
    assert(keys.to_set().contains(key) == keys.contains(key));
    lemma_one_send_for_one_key(keys, connections, responder, data, key);
    let start = frames_for(before, queue);
    assert(start + seq![data] =~= start.push(data));
    assert(start + Seq::<Seq<u8>>::empty() =~= start);
}

/// What is sent to all connections of a table is handed to the queue of each:
/// a WebSocket peer that is in the table once gets the data once, and a queue
/// that belongs to nobody in the table gets nothing.
pub proof fn law_sending_to_all_hands_one_to_each_websocket_peer(
    connections: Map<AddrKey, Responder>,
    before: Record,
    after: Record,
    data: Seq<u8>,
    queue: UnboundedSender<Message>,
    key: AddrKey,
)
    requires
        crate::server::manager::each_gets_one(connections, before, after, data),
        forall|other: AddrKey| #[trigger]
            connections.contains_key(other) && connections[other] == Responder::WebSocket(queue)
                ==> other == key,
    ensures
        contents_for(after, queue) == if connections.contains_key(key) && connections[key]
            == Responder::WebSocket(queue) {
            contents_for(before, queue).push(Content::Binary(data))
        } else {
            contents_for(before, queue)
        },
{
    let responder = Responder::WebSocket(queue);
    let (keys, records) = choose|keys: Seq<AddrKey>, records: Seq<Record>|
        {
            &&& keys.no_duplicates()
            &&& keys.to_set() == connections.dom()
            &&& #[trigger] crate::server::manager::passes_through(
                keys,
                records,
                connections,
                before,
                after,
                data,
            )
        };
    let sends = keys.map_values(|key: AddrKey| (connections[key], data));
    lemma_sends_to_keys(keys, records, connections, data);
    let unused: UnboundedSender<Vec<u8>> = arbitrary();
    law_queues_are_handed_what_is_sent(sends, records, unused, queue);
    assert forall|i: int|
        0 <= i < keys.len() && connections[#[trigger] keys[i]] == responder implies keys[i] == key by {
        assert(keys.to_set().contains(keys[i]));
        assert(connections.contains_key(keys[i]));
    }
    assert(keys.to_set().contains(key) == keys.contains(key));
    lemma_one_send_for_one_key(keys, connections, responder, data, key);
    let start = contents_for(before, queue);
    assert(binaries(seq![data]) =~= seq![Content::Binary(data)]);
    assert(binaries(Seq::empty()) =~= Seq::empty());
    assert(start + seq![Content::Binary(data)] =~= start.push(Content::Binary(data)));
    assert(start + Seq::<Content>::empty() =~= start);
}

proof fn lemma_sends_to_keys(
    keys: Seq<AddrKey>,
    records: Seq<Record>,
    connections: Map<AddrKey, Responder>,
    data: Seq<u8>,
)
    requires
        crate::server::manager::passes_through(
            keys,
            records,
            connections,
            records.first(),
            records.last(),
            data,
        ),
    ensures
        records_each(keys.map_values(|key: AddrKey| (connections[key], data)), records),
{
    let sends = keys.map_values(|key: AddrKey| (connections[key], data));
    assert forall|i: int| 0 <= i < sends.len() implies (#[trigger] sends[i]).0.gets_one(
        records[i],
        records[i + 1],
        sends[i].1,
    ) by {
        assert(sends[i] == (connections[keys[i]], data));
    }
}

/// Of keys that are all different, at most one is that of a given connection.
proof fn lemma_one_send_for_one_key(
    keys: Seq<AddrKey>,
    connections: Map<AddrKey, Responder>,
    responder: Responder,
    data: Seq<u8>,
    key: AddrKey,
)
    requires
        keys.no_duplicates(),
        forall|i: int|
            0 <= i < keys.len() && connections[#[trigger] keys[i]] == responder ==> keys[i] == key,
    ensures
        data_for(keys.map_values(|key: AddrKey| (connections[key], data)), responder) == if keys.contains(
            key,
        ) && connections[key] == responder {
            seq![data]
        } else {
            Seq::empty()
        },
    decreases keys.len(),
{
    let sends = keys.map_values(|key: AddrKey| (connections[key], data));
    if keys.len() > 0 {
        let earlier = keys.drop_last();
        let last = keys.last();
        assert(sends.drop_last() =~= earlier.map_values(|key: AddrKey| (connections[key], data)));
        assert(sends.last() == (connections[last], data));
        assert forall|i: int|
            0 <= i < earlier.len() && connections[#[trigger] earlier[i]]
                == responder implies earlier[i] == key by {
            assert(earlier[i] == keys[i]);
        }
        lemma_one_send_for_one_key(earlier, connections, responder, data, key);
        assert(keys[keys.len() - 1] == last);
        if last == key {
            assert(!earlier.contains(key)) by {
                if earlier.contains(key) {
                    let i = choose|i: int| 0 <= i < earlier.len() && earlier[i] == key;
                    assert(keys[i] == keys[keys.len() - 1]);
                }
            }
            assert(keys.contains(key));
            assert(Seq::<Seq<u8>>::empty().push(data) =~= seq![data]);
        } else {
            assert(keys.contains(key) == earlier.contains(key)) by {
                if keys.contains(key) {
                    let i = choose|i: int| 0 <= i < keys.len() && keys[i] == key;
                    assert(earlier[i] == key);
                }
                if earlier.contains(key) {
                    let i = choose|i: int| 0 <= i < earlier.len() && earlier[i] == key;
                    assert(keys[i] == key);
                }
            }
        }
    } else {
        assert(!keys.contains(key));
    }
}

} // verus!

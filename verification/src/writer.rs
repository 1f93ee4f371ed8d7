//! The tasks that write to a peer: one for TCP frames, one for WebSocket
//! messages.
//!
//! Both take items from a queue and stop for good when the queue is closed or
//! a write fails.
use crate::frame::{checked_length, encode_length, wrapped_length, LENGTH_SPAN};
use tokio_tungstenite::tungstenite::Message;
use vstd::prelude::*;
use vstd::slice::slice_to_vec;

verus! {

/// What a frame writer does with a payload too long for the length field.
#[derive(Clone, Copy, Debug, PartialEq, Eq, Structural)]
pub enum LengthRule {
    /// It stops without writing anything of the payload.
    Checked,
    /// It writes the payload behind the remainder of its length.
    Wrapping,
}

/// What happened to a frame writer.
pub enum WriterEvent {
    /// The queue gave a payload.
    Queued(Vec<u8>),
    /// The queue is closed and empty.
    Closed,
    /// The last write succeeded.
    Written,
    /// The last write failed.
    Failed,
}

/// What a frame writer does next.
pub enum WriterAction {
    /// Wait for the queue.
    Receive,
    /// Write these bytes.
    Write(Vec<u8>),
    /// Stop for good.
    Stop,
}

/// `WriterEvent` over mathematical values.
pub enum WriterSignal {
    Queued(Seq<u8>),
    Closed,
    Written,
    Failed,
}

/// `WriterAction` over mathematical values.
pub enum WriterOrder {
    Receive,
    Write(Seq<u8>),
    Stop,
}

/// Where a frame writer stands.
pub enum WriterPhase {
    /// It waits for the queue.
    Idle,
    /// It writes the length field of this payload.
    Header(Seq<u8>),
    /// It writes a payload.
    Payload,
    /// It has stopped.
    Stopped,
}

impl View for WriterEvent {
    type V = WriterSignal;

    open spec fn view(&self) -> WriterSignal {
        match self {
            WriterEvent::Queued(payload) => WriterSignal::Queued(payload@),
            WriterEvent::Closed => WriterSignal::Closed,
            WriterEvent::Written => WriterSignal::Written,
            WriterEvent::Failed => WriterSignal::Failed,
        }
    }
}

impl View for WriterAction {
    type V = WriterOrder;

    open spec fn view(&self) -> WriterOrder {
        match self {
            WriterAction::Receive => WriterOrder::Receive,
            WriterAction::Write(bytes) => WriterOrder::Write(bytes@),
            WriterAction::Stop => WriterOrder::Stop,
        }
    }
}

/// What a frame writer in `phase` does on `signal`. A signal that does not
/// answer the last order stops it.
pub open spec fn writer_next(rule: LengthRule, phase: WriterPhase, signal: WriterSignal) -> (
    WriterPhase,
    WriterOrder,
) {
    match (phase, signal) {
        (WriterPhase::Idle, WriterSignal::Queued(payload)) => {
            if rule == LengthRule::Checked && payload.len() >= LENGTH_SPAN {
                (WriterPhase::Stopped, WriterOrder::Stop)
            } else {
                (
                    WriterPhase::Header(payload),
                    WriterOrder::Write(crate::frame::header(payload.len())),
                )
            }
        },
        (WriterPhase::Header(payload), WriterSignal::Written) => (
            WriterPhase::Payload,
            WriterOrder::Write(payload),
        ),
        (WriterPhase::Payload, WriterSignal::Written) => (WriterPhase::Idle, WriterOrder::Receive),
        _ => (WriterPhase::Stopped, WriterOrder::Stop),
    }
}

enum WriterState {
    Idle,
    Header(Vec<u8>),
    Payload,
    Stopped,
}

/// The task that writes the frames of one TCP connection.
pub struct FrameWriter {
    rule: LengthRule,
    state: WriterState,
}

impl FrameWriter {
    /// The rule for payloads that are too long.
    pub closed spec fn rule(self) -> LengthRule {
        self.rule
    }

    /// Where the writer stands.
    pub closed spec fn phase(self) -> WriterPhase {
        match self.state {
            WriterState::Idle => WriterPhase::Idle,
            WriterState::Header(payload) => WriterPhase::Header(payload@),
            WriterState::Payload => WriterPhase::Payload,
            WriterState::Stopped => WriterPhase::Stopped,
        }
    }

    /// Returns a client's writer, which waits for the queue.
    pub fn client() -> (writer: FrameWriter)
        ensures
            writer.rule() == LengthRule::Checked,
            writer.phase() == WriterPhase::Idle,
    {
        FrameWriter { rule: LengthRule::Checked, state: WriterState::Idle }
    }

    /// Returns a server's writer, which waits for the queue.
    pub fn server() -> (writer: FrameWriter)
        ensures
            writer.rule() == LengthRule::Wrapping,
            writer.phase() == WriterPhase::Idle,
    {
        FrameWriter { rule: LengthRule::Wrapping, state: WriterState::Idle }
    }

    /// Takes what happened and returns the writer as it then stands with what
    /// it does next.
    pub fn step(self, event: WriterEvent) -> (next: (FrameWriter, WriterAction))
        ensures
            next.0.rule() == self.rule(),
            (next.0.phase(), next.1@) == writer_next(self.rule(), self.phase(), event@),
    {
        let rule = self.rule;
        match (self.state, event) {
            (WriterState::Idle, WriterEvent::Queued(payload)) => {
                let len: Option<u32> = match rule {
                    LengthRule::Checked => checked_length(payload.len()),
                    LengthRule::Wrapping => Some(wrapped_length(payload.len())),
                };
                match len {
                    Some(len) => {
                        let header = slice_to_vec(encode_length(len).as_slice());
                        (
                            FrameWriter { rule, state: WriterState::Header(payload) },
                            WriterAction::Write(header),
                        )
                    },
                    None => (FrameWriter { rule, state: WriterState::Stopped }, WriterAction::Stop),
                }
            },
            (WriterState::Header(payload), WriterEvent::Written) => (
                FrameWriter { rule, state: WriterState::Payload },
                WriterAction::Write(payload),
            ),
            (WriterState::Payload, WriterEvent::Written) => (
                FrameWriter { rule, state: WriterState::Idle },
                WriterAction::Receive,
            ),
            _ => (FrameWriter { rule, state: WriterState::Stopped }, WriterAction::Stop),
        }
    }
}

/// How many orders a frame writer can still carry out before it receives.
pub open spec fn writer_rank(phase: WriterPhase, order: WriterOrder) -> int {
    match (phase, order) {
        (_, WriterOrder::Stop) => 0,
        (WriterPhase::Stopped, _) => 1,
        (WriterPhase::Idle, _) => 2,
        (WriterPhase::Payload, _) => 3,
        (WriterPhase::Header(_), _) => 4,
    }
}

/// The bytes that a frame writer puts on the stream from `phase` on, with
/// `order` to be carried out next, when `queue` is what it still receives and
/// every write succeeds.
pub open spec fn written(
    rule: LengthRule,
    phase: WriterPhase,
    order: WriterOrder,
    queue: Seq<Seq<u8>>,
) -> Seq<u8>
    decreases queue.len(), writer_rank(phase, order),
{
    match order {
        WriterOrder::Receive => {
            if queue.len() == 0 {
                Seq::empty()
            } else {
                let (next, then) = writer_next(rule, phase, WriterSignal::Queued(queue.first()));
                written(rule, next, then, queue.drop_first())
            }
        },
        WriterOrder::Write(bytes) => {
            let (next, then) = writer_next(rule, phase, WriterSignal::Written);
            bytes + written(rule, next, then, queue)
        },
        WriterOrder::Stop => Seq::empty(),
    }
}

/// A server's writer puts exactly the frames of its queue on the stream, in
/// the order of the queue. So does a client's writer if every payload fits
/// into the length field.
pub proof fn law_writer_writes_frames(rule: LengthRule, queue: Seq<Seq<u8>>)
    requires
        rule == LengthRule::Wrapping || crate::frame::all_fit(queue),
    ensures
        written(rule, WriterPhase::Idle, WriterOrder::Receive, queue) == crate::frame::frames(
            queue,
        ),
    decreases queue.len(),
{
    if queue.len() > 0 {
        let payload = queue.first();
        let rest = queue.drop_first();
        let header = crate::frame::header(payload.len());
        law_writer_writes_frames(rule, rest);
        let tail = written(rule, WriterPhase::Idle, WriterOrder::Receive, rest);
        assert(written(rule, WriterPhase::Payload, WriterOrder::Write(payload), rest) == payload
            + tail);
        assert(written(rule, WriterPhase::Header(payload), WriterOrder::Write(header), rest)
            == header + (payload + tail));
        assert(header + (payload + tail) =~= header + payload + tail);
    }
}

/// A client's writer puts nothing on the stream from the first payload on that
/// does not fit into the length field.
pub proof fn law_client_writer_stops_at_overlong(
    before: Seq<Seq<u8>>,
    overlong: Seq<u8>,
    after: Seq<Seq<u8>>,
)
    requires
        crate::frame::all_fit(before),
        overlong.len() >= LENGTH_SPAN,
    ensures
        written(
            LengthRule::Checked,
            WriterPhase::Idle,
            WriterOrder::Receive,
            before + seq![overlong] + after,
        ) == crate::frame::frames(before),
    decreases before.len(),
{
    let rule = LengthRule::Checked;
    let queue = before + seq![overlong] + after;
    if before.len() == 0 {
        assert(queue.first() == overlong);
        assert(written(rule, WriterPhase::Stopped, WriterOrder::Stop, queue.drop_first())
            =~= Seq::empty());
    } else {
        let payload = before.first();
        let rest = before.drop_first();
        let header = crate::frame::header(payload.len());
        assert(queue.first() == payload);
        assert(queue.drop_first() =~= rest + seq![overlong] + after);
        let rest_queue = queue.drop_first();
        law_client_writer_stops_at_overlong(rest, overlong, after);
        let tail = written(rule, WriterPhase::Idle, WriterOrder::Receive, rest_queue);
        assert(written(rule, WriterPhase::Payload, WriterOrder::Write(payload), rest_queue)
            == payload + tail);
        assert(written(rule, WriterPhase::Header(payload), WriterOrder::Write(header), rest_queue)
            == header + (payload + tail));
        assert(header + (payload + tail) =~= header + payload + tail);
    }
}

/// The bytes that a frame writer puts on the stream from `phase` on, with
/// `order` to be carried out next, when `queue` is what it still receives, `n`
/// writes succeed and the next one fails after `part` of its bytes.
pub open spec fn written_until(
    rule: LengthRule,
    phase: WriterPhase,
    order: WriterOrder,
    queue: Seq<Seq<u8>>,
    n: nat,
    part: nat,
) -> Seq<u8>
    decreases queue.len(), writer_rank(phase, order),
{
    match order {
        WriterOrder::Receive => {
            if queue.len() == 0 {
                Seq::empty()
            } else {
                let (next, then) = writer_next(rule, phase, WriterSignal::Queued(queue.first()));
                written_until(rule, next, then, queue.drop_first(), n, part)
            }
        },
        WriterOrder::Write(bytes) => {
            if n == 0 {
                let (next, then) = writer_next(rule, phase, WriterSignal::Failed);
                start_of(bytes, part) + written_until(rule, next, then, queue, 0, part)
            } else {
                let (next, then) = writer_next(rule, phase, WriterSignal::Written);
                bytes + written_until(rule, next, then, queue, (n - 1) as nat, part)
            }
        },
        WriterOrder::Stop => Seq::empty(),
    }
}

/// The first `part` of `bytes`, or all of them if there are no more.
pub open spec fn start_of(bytes: Seq<u8>, part: nat) -> Seq<u8> {
    if part < bytes.len() {
        bytes.take(part as int)
    } else {
        bytes
    }
}

/// The frames of `queue` as far as `n` writes bring them and the next one
/// fails after `part` of its bytes: each frame takes one write for its length
/// field and one for its payload.
pub open spec fn frames_until(queue: Seq<Seq<u8>>, n: nat, part: nat) -> Seq<u8>
    decreases queue.len(),
{
    if queue.len() == 0 {
        Seq::empty()
    } else {
        let payload = queue.first();
        let header = crate::frame::header(payload.len());
        if n == 0 {
            start_of(header, part)
        } else if n == 1 {
            header + start_of(payload, part)
        } else {
            crate::frame::frame(payload) + frames_until(queue.drop_first(), (n - 2) as nat, part)
        }
    }
}

/// How a writer goes on with a payload that it writes.
proof fn lemma_written_until_payload(
    rule: LengthRule,
    payload: Seq<u8>,
    rest: Seq<Seq<u8>>,
    n: nat,
    part: nat,
)
    ensures
        ({
            let header = crate::frame::header(payload.len());
            written_until(
                rule,
                WriterPhase::Header(payload),
                WriterOrder::Write(header),
                rest,
                n,
                part,
            ) == if n == 0 {
                start_of(header, part)
            } else if n == 1 {
                header + start_of(payload, part)
            } else {
                header + payload + written_until(
                    rule,
                    WriterPhase::Idle,
                    WriterOrder::Receive,
                    rest,
                    (n - 2) as nat,
                    part,
                )
            }
        }),
{
    let header = crate::frame::header(payload.len());
    let nothing = Seq::<u8>::empty();
    assert(written_until(rule, WriterPhase::Stopped, WriterOrder::Stop, rest, 0, part) == nothing);
    if n == 0 {
        assert(start_of(header, part) + nothing =~= start_of(header, part));
    } else {
        let left = (n - 1) as nat;
        let body = WriterOrder::Write(payload);
        let later = written_until(rule, WriterPhase::Payload, body, rest, left, part);
        if n == 1 {
            assert(later == start_of(payload, part) + nothing);
            assert(start_of(payload, part) + nothing =~= start_of(payload, part));
        } else {
            let tail = written_until(
                rule,
                WriterPhase::Idle,
                WriterOrder::Receive,
                rest,
                (n - 2) as nat,
                part,
            );
            assert(later == payload + tail);
            assert(header + (payload + tail) =~= header + payload + tail);
        }
    }
}

/// When a write fails, a server's writer has put on the stream exactly what
/// the writes before it and the part of it that got out hold of the frames of
/// its queue, and puts nothing behind it. So has a client's writer if every
/// payload fits into the length field.
pub proof fn law_failed_write_cuts_the_frames(
    rule: LengthRule,
    queue: Seq<Seq<u8>>,
    n: nat,
    part: nat,
)
    requires
        rule == LengthRule::Wrapping || crate::frame::all_fit(queue),
    ensures
        written_until(rule, WriterPhase::Idle, WriterOrder::Receive, queue, n, part)
            == frames_until(queue, n, part),
    decreases queue.len(),
{
    if queue.len() > 0 {
        let rest = queue.drop_first();
        lemma_written_until_payload(rule, queue.first(), rest, n, part);
        if n >= 2 {
            law_failed_write_cuts_the_frames(rule, rest, (n - 2) as nat, part);
        }
    }
}

/// At every moment, after any number of writes and after a failed one, what a
/// frame writer has put on the stream is the start of the frames of its queue.
pub proof fn law_stream_is_a_start_of_the_frames(
    rule: LengthRule,
    queue: Seq<Seq<u8>>,
    n: nat,
    part: nat,
)
    ensures
        written_until(
            rule,
            WriterPhase::Idle,
            WriterOrder::Receive,
            queue,
            n,
            part,
        ).is_prefix_of(crate::frame::frames(queue)),
    decreases queue.len(),
{
    let stream = written_until(rule, WriterPhase::Idle, WriterOrder::Receive, queue, n, part);
    let all = crate::frame::frames(queue);
    if queue.len() > 0 {
        let payload = queue.first();
        let rest = queue.drop_first();
        let header = crate::frame::header(payload.len());
        let later = crate::frame::frames(rest);
        assert(all == header + payload + later);
        if rule == LengthRule::Checked && payload.len() >= LENGTH_SPAN {
            assert(written_until(rule, WriterPhase::Stopped, WriterOrder::Stop, rest, n, part)
                =~= Seq::empty());
        } else {
            lemma_written_until_payload(rule, payload, rest, n, part);
            if n >= 2 {
                law_stream_is_a_start_of_the_frames(rule, rest, (n - 2) as nat, part);
                let tail = written_until(
                    rule,
                    WriterPhase::Idle,
                    WriterOrder::Receive,
                    rest,
                    (n - 2) as nat,
                    part,
                );
                assert(later.subrange(0, tail.len() as int) =~= tail);
                assert(all.subrange(0, stream.len() as int) =~= header + payload + later.subrange(
                    0,
                    tail.len() as int,
                ));
            } else {
                assert(all.subrange(0, stream.len() as int) =~= stream);
            }
        }
    }
}

/// With no write failing among those that a queue takes, the stream is the
/// one without failures.
pub proof fn law_enough_writes_write_all(
    rule: LengthRule,
    queue: Seq<Seq<u8>>,
    n: nat,
    part: nat,
)
    requires
        rule == LengthRule::Wrapping || crate::frame::all_fit(queue),
        n >= 2 * queue.len(),
    ensures
        written_until(rule, WriterPhase::Idle, WriterOrder::Receive, queue, n, part) == written(
            rule,
            WriterPhase::Idle,
            WriterOrder::Receive,
            queue,
        ),
{
    law_failed_write_cuts_the_frames(rule, queue, n, part);
    law_writer_writes_frames(rule, queue);
    lemma_enough_writes_bring_all(queue, n, part);
}

proof fn lemma_enough_writes_bring_all(queue: Seq<Seq<u8>>, n: nat, part: nat)
    requires
        n >= 2 * queue.len(),
    ensures
        frames_until(queue, n, part) == crate::frame::frames(queue),
    decreases queue.len(),
{
    if queue.len() > 0 {
        lemma_enough_writes_bring_all(queue.drop_first(), (n - 2) as nat, part);
    }
}

/// Where a message writer stands.
#[derive(Clone, Copy, Debug, PartialEq, Eq, Structural)]
pub enum MessagePhase {
    /// It waits for the queue.
    Idle,
    /// It writes a message.
    Writing,
    /// It has stopped.
    Stopped,
}

/// What happened to a message writer.
pub enum MessageEvent {
    /// The queue gave a message.
    Queued(Message),
    /// The queue is closed and empty.
    Closed,
    /// The last write succeeded.
    Written,
    /// The last write failed.
    Failed,
}

/// What a message writer does next.
pub enum MessageAction {
    /// Wait for the queue.
    Receive,
    /// Write this message.
    Write(Message),
    /// Stop for good.
    Stop,
}

/// What a message writer in `phase` does on `event`. An event that does not
/// answer the last action stops it.
pub open spec fn message_next(phase: MessagePhase, event: MessageEvent) -> (
    MessagePhase,
    MessageAction,
) {
    match (phase, event) {
        (MessagePhase::Idle, MessageEvent::Queued(message)) => (
            MessagePhase::Writing,
            MessageAction::Write(message),
        ),
        (MessagePhase::Writing, MessageEvent::Written) => (
            MessagePhase::Idle,
            MessageAction::Receive,
        ),
        _ => (MessagePhase::Stopped, MessageAction::Stop),
    }
}

/// The task that writes the messages of one WebSocket connection.
pub struct MessageWriter {
    phase: MessagePhase,
}

impl MessageWriter {
    /// Where the writer stands.
    pub closed spec fn phase(self) -> MessagePhase {
        self.phase
    }

    /// Returns a writer that waits for the queue.
    pub fn new() -> (writer: MessageWriter)
        ensures
            writer.phase() == MessagePhase::Idle,
    {
        MessageWriter { phase: MessagePhase::Idle }
    }

    /// Takes what happened and returns what the writer does next.
    pub fn step(&mut self, event: MessageEvent) -> (action: MessageAction)
        ensures
            (final(self).phase(), action) == message_next(old(self).phase(), event),
    {
        match (self.phase, event) {
            (MessagePhase::Idle, MessageEvent::Queued(message)) => {
                self.phase = MessagePhase::Writing;
                MessageAction::Write(message)
            },
            (MessagePhase::Writing, MessageEvent::Written) => {
                self.phase = MessagePhase::Idle;
                MessageAction::Receive
            },
            _ => {
                self.phase = MessagePhase::Stopped;
                MessageAction::Stop
            },
        }
    }
}

/// How many actions a message writer can still carry out before it receives.
pub open spec fn message_rank(phase: MessagePhase, action: MessageAction) -> int {
    match (phase, action) {
        (_, MessageAction::Stop) => 0,
        (MessagePhase::Stopped, _) => 1,
        (MessagePhase::Idle, _) => 2,
        (MessagePhase::Writing, _) => 3,
    }
}

/// The messages that a message writer writes from `phase` on, with `action` to
/// be carried out next, when `queue` is what it still receives and every write
/// succeeds.
pub open spec fn written_messages(
    phase: MessagePhase,
    action: MessageAction,
    queue: Seq<Message>,
) -> Seq<Message>
    decreases queue.len(), message_rank(phase, action),
{
    match action {
        MessageAction::Receive => {
            if queue.len() == 0 {
                Seq::empty()
            } else {
                let (next, then) = message_next(phase, MessageEvent::Queued(queue.first()));
                written_messages(next, then, queue.drop_first())
            }
        },
        MessageAction::Write(message) => {
            let (next, then) = message_next(phase, MessageEvent::Written);
            seq![message] + written_messages(next, then, queue)
        },
        MessageAction::Stop => Seq::empty(),
    }
}

/// A message writer writes exactly the messages of its queue, in the order of
/// the queue.
pub proof fn law_writer_writes_messages(queue: Seq<Message>)
    ensures
        written_messages(MessagePhase::Idle, MessageAction::Receive, queue) == queue,
    decreases queue.len(),
{
    if queue.len() == 0 {
        assert(queue =~= Seq::empty());
    } else {
        let first = queue.first();
        let rest = queue.drop_first();
        law_writer_writes_messages(rest);
        assert(written_messages(MessagePhase::Writing, MessageAction::Write(first), rest) == seq![
            first,
        ] + written_messages(MessagePhase::Idle, MessageAction::Receive, rest));
        assert(seq![first] + rest =~= queue);
    }
}

/// The messages that a message writer writes with success from `phase` on,
/// with `action` to be carried out next, when `queue` is what it still
/// receives, `n` writes succeed and the next one fails.
pub open spec fn written_messages_until(
    phase: MessagePhase,
    action: MessageAction,
    queue: Seq<Message>,
    n: nat,
) -> Seq<Message>
    decreases queue.len(), message_rank(phase, action),
{
    match action {
        MessageAction::Receive => {
            if queue.len() == 0 {
                Seq::empty()
            } else {
                let (next, then) = message_next(phase, MessageEvent::Queued(queue.first()));
                written_messages_until(next, then, queue.drop_first(), n)
            }
        },
        MessageAction::Write(message) => {
            if n == 0 {
                let (next, then) = message_next(phase, MessageEvent::Failed);
                written_messages_until(next, then, queue, 0)
            } else {
                let (next, then) = message_next(phase, MessageEvent::Written);
                seq![message] + written_messages_until(next, then, queue, (n - 1) as nat)
            }
        },
        MessageAction::Stop => Seq::empty(),
    }
}

/// At every moment, after any number of writes and after a failed one, what a
/// message writer has written is the start of its queue: one message for each
/// write that succeeded.
pub proof fn law_messages_are_a_start_of_the_queue(queue: Seq<Message>, n: nat)
    ensures
        ({
            let sent = written_messages_until(
                MessagePhase::Idle,
                MessageAction::Receive,
                queue,
                n,
            );
            &&& sent.is_prefix_of(queue)
            &&& sent.len() == if n < queue.len() {
                n
            } else {
                queue.len()
            }
        }),
    decreases queue.len(),
{
    let sent = written_messages_until(MessagePhase::Idle, MessageAction::Receive, queue, n);
    if queue.len() > 0 {
        let first = queue.first();
        let rest = queue.drop_first();
        let write = MessageAction::Write(first);
        let after = written_messages_until(MessagePhase::Writing, write, rest, n);
        assert(sent == after);
        if n == 0 {
            assert(written_messages_until(MessagePhase::Stopped, MessageAction::Stop, rest, 0)
                =~= Seq::empty());
        } else {
            let left = (n - 1) as nat;
            law_messages_are_a_start_of_the_queue(rest, left);
            let tail = written_messages_until(
                MessagePhase::Idle,
                MessageAction::Receive,
                rest,
                left,
            );
            assert(sent == seq![first] + tail);
            assert(rest.subrange(0, tail.len() as int) =~= tail);
            assert(queue.subrange(0, sent.len() as int) =~= seq![first] + rest.subrange(
                0,
                tail.len() as int,
            ));
        }
    }
}

/// A writer that has stopped stays so: nothing is written after a failed write
/// or once the queue is closed.
pub proof fn law_stopped_writers_stay_stopped(
    rule: LengthRule,
    signal: WriterSignal,
    event: MessageEvent,
)
    ensures
        writer_next(rule, WriterPhase::Stopped, signal) == (
            WriterPhase::Stopped,
            WriterOrder::Stop,
        ),
        message_next(MessagePhase::Stopped, event) == (MessagePhase::Stopped, MessageAction::Stop),
{
}

/// What a frame writer is told and what it orders is shown as it is: the
/// payload from the queue, the bytes to write.
pub proof fn law_writer_views_show_what_is_there(event: WriterEvent, action: WriterAction)
    ensures
        match event {
            WriterEvent::Queued(payload) => event@ == WriterSignal::Queued(payload@),
            WriterEvent::Closed => event@ is Closed,
            WriterEvent::Written => event@ is Written,
            WriterEvent::Failed => event@ is Failed,
        },
        match action {
            WriterAction::Receive => action@ is Receive,
            WriterAction::Write(bytes) => action@ == WriterOrder::Write(bytes@),
            WriterAction::Stop => action@ is Stop,
        },
{
}

/// A write that fails stops a writer for good, wherever it stands, and so does
/// the end of its queue while it waits for it. A server's writer never stops
/// for the sake of a payload.
pub proof fn law_writers_stop_on_failure_and_end(
    rule: LengthRule,
    phase: WriterPhase,
    message_phase: MessagePhase,
    payload: Seq<u8>,
)
    ensures
        writer_next(rule, phase, WriterSignal::Failed) == (WriterPhase::Stopped, WriterOrder::Stop),
        writer_next(rule, WriterPhase::Idle, WriterSignal::Closed) == (
            WriterPhase::Stopped,
            WriterOrder::Stop,
        ),
        writer_next(
            LengthRule::Wrapping,
            WriterPhase::Idle,
            WriterSignal::Queued(payload),
        ).1 !is Stop,
        message_next(message_phase, MessageEvent::Failed) == (
            MessagePhase::Stopped,
            MessageAction::Stop,
        ),
        message_next(MessagePhase::Idle, MessageEvent::Closed) == (
            MessagePhase::Stopped,
            MessageAction::Stop,
        ),
{
}

} // verus!

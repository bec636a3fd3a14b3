//! Replies of the service: how much of one is read, and how a chat's reply is relayed.
use crate::encoding::{base64_bytes, base64_standard, encode_standard, standard_form_reads_back};
use crate::error::AiPassError;
use crate::limits::{MAX_CHAT_RESPONSE_BYTES, MAX_STREAM_CHUNK_BYTES};
use crate::secrets::wipe_bytes;
use crate::text::byte_len;
use vstd::prelude::*;
use vstd::slice::slice_subrange;
use vstd::string::*;
use vstd::utf8::*;

verus! {

/// The number of bytes that the type of a reply may have.
pub const MAX_CONTENT_TYPE_BYTES: usize = 256;

/// The status of a reply says that the request was granted.
pub open spec fn success(status: u16) -> bool {
    200 <= status < 300
}

/// Whether the status of a reply says that the request was granted.
pub fn is_success(status: u16) -> (r: bool)
    ensures
        r == success(status),
{
    200 <= status && status < 300
}

/// What happens while a body is read.
pub enum BodyEvent {
    TimedOut,
    Failed,
    Chunk(Vec<u8>),
    End,
}

/// A body of which no more than `maximum` bytes are taken.
pub struct LimitedBody {
    maximum: usize,
    bytes: Vec<u8>,
}

impl View for LimitedBody {
    type V = Seq<u8>;

    /// The bytes that have been taken.
    closed spec fn view(&self) -> Seq<u8> {
        self.bytes@
    }
}

impl LimitedBody {
    /// The number of bytes that are taken at most.
    pub closed spec fn limit(self) -> usize {
        self.maximum
    }

    #[verifier::type_invariant]
    spec fn within(self) -> bool {
        self.bytes@.len() <= self.maximum
    }
}

/// What follows from an event while a body is read.
pub enum BodyStep {
    More(LimitedBody),
    Done(Result<Vec<u8>, AiPassError>),
}

/// What follows from an event while a body is read, as mathematics.
pub enum BodyStepView {
    More(Seq<u8>),
    Done(Result<Seq<u8>, AiPassError>),
}

/// What follows from an event when `bytes` have been read.
pub open spec fn body_step(maximum: usize, bytes: Seq<u8>, event: BodyEvent) -> BodyStepView {
    match event {
        BodyEvent::TimedOut => BodyStepView::Done(Err(AiPassError::ResponseTimedOut)),
        BodyEvent::Failed => BodyStepView::Done(Err(AiPassError::ResponseUnreadable)),
        BodyEvent::Chunk(chunk) => if bytes.len() + chunk@.len() > maximum {
            BodyStepView::Done(Err(AiPassError::ResponseTooLarge))
        } else {
            BodyStepView::More(bytes + chunk@)
        },
        BodyEvent::End => BodyStepView::Done(Ok(bytes)),
    }
}

/// The step has taken this form, and what goes on keeps its limit.
pub open spec fn body_step_is(step: BodyStep, maximum: usize, view: BodyStepView) -> bool {
    match step {
        BodyStep::More(body) => body.limit() == maximum && view == BodyStepView::More(body@),
        BodyStep::Done(Ok(bytes)) => view == BodyStepView::Done(Ok(bytes@)),
        BodyStep::Done(Err(error)) => view == BodyStepView::Done(Err(error)),
    }
}

impl LimitedBody {
    /// Begins to read a body, unless its announced length is above the limit.
    pub fn start(content_length: Option<u64>, maximum: usize) -> (r: Result<Self, AiPassError>)
        ensures
            r is Err <==> (content_length matches Some(length) && length > maximum),
            r matches Err(error) ==> error == AiPassError::ResponseTooLarge,
            r matches Ok(body) ==> body.limit() == maximum && body@ == Seq::<u8>::empty(),
    {
        match content_length {
            Some(length) => {
                if length > maximum as u64 {
                    return Err(AiPassError::ResponseTooLarge);
                }
            },
            None => {},
        }
        Ok(LimitedBody { maximum, bytes: Vec::new() })
    }

    /// Takes an event. What was read is wiped when reading fails.
    pub fn step(self, event: BodyEvent) -> (r: BodyStep)
        ensures
            body_step_is(r, self.limit(), body_step(self.limit(), self@, event)),
            r matches BodyStep::More(body) ==> body@.len() <= body.limit(),
            match r {
                BodyStep::More(body) => body.limit() == self.limit() && body_step(
                    self.limit(),
                    self@,
                    event,
                ) == BodyStepView::More(body@),
                BodyStep::Done(Ok(bytes)) => body_step(self.limit(), self@, event)
                    == BodyStepView::Done(Ok(bytes@)),
                BodyStep::Done(Err(error)) => body_step(self.limit(), self@, event)
                    == BodyStepView::Done(Err(error)),
            },
    {
        proof {
            use_type_invariant(&self);
        }
        let maximum = self.maximum;
        let mut bytes = self.bytes;
        match event {
            BodyEvent::TimedOut => {
                wipe_bytes(&mut bytes);
                BodyStep::Done(Err(AiPassError::ResponseTimedOut))
            },
            BodyEvent::Failed => {
                wipe_bytes(&mut bytes);
                BodyStep::Done(Err(AiPassError::ResponseUnreadable))
            },
            BodyEvent::Chunk(chunk) => {
                let mut chunk = chunk;
                if chunk.len() > maximum - bytes.len() {
                    wipe_bytes(&mut bytes);
                    return BodyStep::Done(Err(AiPassError::ResponseTooLarge));
                }
                bytes.append(&mut chunk);
                BodyStep::More(LimitedBody { maximum, bytes })
            },
            BodyEvent::End => BodyStep::Done(Ok(bytes)),
        }
    }
}

/// How the reading of a body ends in the course of some events, if it does.
pub open spec fn body_outcome(maximum: usize, bytes: Seq<u8>, events: Seq<BodyEvent>) -> Option<
    Result<Seq<u8>, AiPassError>,
>
    decreases events.len(),
{
    if events.len() == 0 {
        None
    } else {
        match body_step(maximum, bytes, events[0]) {
            BodyStepView::More(more) => body_outcome(maximum, more, events.drop_first()),
            BodyStepView::Done(r) => Some(r),
        }
    }
}

/// The chunks of the events, one after another.
pub open spec fn joined_chunks(chunks: Seq<Vec<u8>>) -> Seq<u8>
    decreases chunks.len(),
{
    if chunks.len() == 0 {
        seq![]
    } else {
        chunks[0]@ + joined_chunks(chunks.drop_first())
    }
}

/// The events of a body that comes in these chunks.
pub open spec fn body_events(chunks: Seq<Vec<u8>>) -> Seq<BodyEvent> {
    chunks.map_values(|chunk: Vec<u8>| BodyEvent::Chunk(chunk)).push(BodyEvent::End)
}

/// However a body is cut into chunks, it is read whole if it is within the limit, and refused if
/// it is not.
pub proof fn body_is_whole_or_refused(maximum: usize, bytes: Seq<u8>, chunks: Seq<Vec<u8>>)
    requires
        bytes.len() <= maximum,
    ensures
        body_outcome(maximum, bytes, body_events(chunks)) == Some(
            if bytes.len() + joined_chunks(chunks).len() <= maximum {
                Ok::<Seq<u8>, AiPassError>(bytes + joined_chunks(chunks))
            } else {
                Err(AiPassError::ResponseTooLarge)
            },
        ),
    decreases chunks.len(),
{
    let events = body_events(chunks);
    if chunks.len() == 0 {
        assert(bytes + joined_chunks(chunks) =~= bytes);
    } else {
        assert(events[0] == BodyEvent::Chunk(chunks[0]));
        assert(events.drop_first() =~= body_events(chunks.drop_first()));
        if bytes.len() + chunks[0]@.len() <= maximum {
            body_is_whole_or_refused(maximum, bytes + chunks[0]@, chunks.drop_first());
            assert(bytes + chunks[0]@ + joined_chunks(chunks.drop_first()) =~= bytes
                + joined_chunks(chunks));
        }
    }
}

/// A body that was read is never larger than the limit.
pub proof fn body_is_within_limit(maximum: usize, bytes: Seq<u8>, events: Seq<BodyEvent>)
    requires
        bytes.len() <= maximum,
    ensures
        body_outcome(maximum, bytes, events) matches Some(Ok(body)) ==> body.len() <= maximum,
    decreases events.len(),
{
    if events.len() > 0 {
        if let BodyStepView::More(more) = body_step(maximum, bytes, events[0]) {
            body_is_within_limit(maximum, more, events.drop_first());
        }
    }
}

/// What the consumer of a chat is sent.
#[derive(Clone, Debug)]
pub enum StreamMessage {
    Headers { status: u16, content_type: String },
    /// Bytes of the reply, in base64.
    Data { data: String },
    Done,
    Error { message: String },
}

/// What the consumer of a chat is sent, as mathematics.
pub enum StreamView {
    Headers { status: u16, content_type: Seq<char> },
    Data { data: Seq<char> },
    Done,
    Error { message: Seq<char> },
}

impl View for StreamMessage {
    type V = StreamView;

    open spec fn view(&self) -> StreamView {
        match self {
            StreamMessage::Headers { status, content_type } => StreamView::Headers {
                status: *status,
                content_type: content_type@,
            },
            StreamMessage::Data { data } => StreamView::Data { data: data@ },
            StreamMessage::Done => StreamView::Done,
            StreamMessage::Error { message } => StreamView::Error { message: message@ },
        }
    }
}

/// The messages as mathematics.
pub open spec fn message_views(messages: Seq<StreamMessage>) -> Seq<StreamView> {
    messages.map_values(|message: StreamMessage| message@)
}

/// The type that is passed on for a reply.
pub open spec fn relayed_type(content_type: Option<&str>) -> Seq<char> {
    match content_type {
        Some(value) => if encode_utf8(value@).len() <= MAX_CONTENT_TYPE_BYTES {
            value@
        } else {
            "application/octet-stream"@
        },
        None => "application/octet-stream"@,
    }
}

/// How the reply to a chat is taken up.
pub enum RelayStart {
    /// Read the refusal and tell the consumer of it.
    Refused,
    /// Send the message and relay the body.
    Relay(StreamMessage),
    Fail(AiPassError),
}

/// How the reply to a chat is taken up, as mathematics.
pub enum RelayStartView {
    Refused,
    Relay(StreamView),
    Fail(AiPassError),
}

impl View for RelayStart {
    type V = RelayStartView;

    open spec fn view(&self) -> RelayStartView {
        match self {
            RelayStart::Refused => RelayStartView::Refused,
            RelayStart::Relay(message) => RelayStartView::Relay(message@),
            RelayStart::Fail(error) => RelayStartView::Fail(*error),
        }
    }
}

/// How a reply is taken up: only a granted chat is relayed, and only if the announced length of
/// the reply is within the limit.
pub open spec fn relay_start(
    status: u16,
    content_length: Option<u64>,
    content_type: Option<&str>,
) -> RelayStartView {
    if !success(status) {
        RelayStartView::Refused
    } else if content_length matches Some(length) && length > MAX_CHAT_RESPONSE_BYTES {
        RelayStartView::Fail(AiPassError::ResponseTooLarge)
    } else {
        RelayStartView::Relay(
            StreamView::Headers { status, content_type: relayed_type(content_type) },
        )
    }
}

/// Takes up the reply to a chat.
pub fn start_relay(status: u16, content_length: Option<u64>, content_type: Option<&str>) -> (r:
    RelayStart)
    ensures
        r@ == relay_start(status, content_length, content_type),
{
    if !is_success(status) {
        return RelayStart::Refused;
    }
    match content_length {
        Some(length) => {
            if length > MAX_CHAT_RESPONSE_BYTES as u64 {
                return RelayStart::Fail(AiPassError::ResponseTooLarge);
            }
        },
        None => {},
    }
    let content_type = match content_type {
        Some(value) => {
            if byte_len(value) <= MAX_CONTENT_TYPE_BYTES {
                value.to_owned()
            } else {
                "application/octet-stream".to_owned()
            }
        },
        None => "application/octet-stream".to_owned(),
    };
    RelayStart::Relay(StreamMessage::Headers { status, content_type })
}

/// The pieces into which bytes are cut: each of `size` bytes but the last, which may be shorter.
pub open spec fn pieces(bytes: Seq<u8>, size: nat) -> Seq<Seq<u8>>
    decreases bytes.len(),
{
    if bytes.len() == 0 || size == 0 {
        seq![]
    } else if bytes.len() <= size {
        seq![bytes]
    } else {
        seq![bytes.take(size as int)] + pieces(bytes.skip(size as int), size)
    }
}

/// The message that carries a piece.
pub open spec fn data_message(piece: Seq<u8>) -> StreamView {
    StreamView::Data { data: base64_standard(piece) }
}

/// The messages that carry bytes.
pub open spec fn data_messages(bytes: Seq<u8>) -> Seq<StreamView> {
    pieces(bytes, MAX_STREAM_CHUNK_BYTES as nat).map_values(|piece: Seq<u8>| data_message(piece))
}

/// What happens while a chat's reply is relayed.
pub enum RelayEvent {
    Cancelled,
    /// Nothing came in for too long.
    Idle,
    /// The whole took too long.
    Overdue,
    Failed,
    Chunk(Vec<u8>),
    End,
}

/// What follows from an event while a chat's reply is relayed.
pub enum RelayStep {
    /// Send the messages; so many bytes have then been relayed.
    Send { messages: Vec<StreamMessage>, total: usize },
    /// Send the last message and end.
    Finish(StreamMessage),
    Fail(AiPassError),
}

/// What follows from an event while a chat's reply is relayed, as mathematics.
pub enum RelayStepView {
    Send { messages: Seq<StreamView>, total: usize },
    Finish(StreamView),
    Fail(AiPassError),
}

impl View for RelayStep {
    type V = RelayStepView;

    open spec fn view(&self) -> RelayStepView {
        match self {
            RelayStep::Send { messages, total } => RelayStepView::Send {
                messages: message_views(messages@),
                total: *total,
            },
            RelayStep::Finish(message) => RelayStepView::Finish(message@),
            RelayStep::Fail(error) => RelayStepView::Fail(*error),
        }
    }
}

/// What follows from an event when `total` bytes have been relayed.
pub open spec fn relay_step(total: usize, event: RelayEvent) -> RelayStepView {
    match event {
        RelayEvent::Cancelled => RelayStepView::Fail(AiPassError::RequestCancelled),
        RelayEvent::Idle => RelayStepView::Fail(AiPassError::ResponseTimedOut),
        RelayEvent::Overdue => RelayStepView::Fail(AiPassError::StreamTimeLimit),
        RelayEvent::Failed => RelayStepView::Fail(AiPassError::StreamFailed),
        RelayEvent::Chunk(chunk) => if total + chunk@.len() > MAX_CHAT_RESPONSE_BYTES {
            RelayStepView::Fail(AiPassError::ResponseTooLarge)
        } else {
            RelayStepView::Send {
                messages: data_messages(chunk@),
                total: (total + chunk@.len()) as usize,
            }
        },
        RelayEvent::End => RelayStepView::Finish(StreamView::Done),
    }
}

/// The messages that carry the bytes.
pub fn encode_chunk(bytes: &[u8]) -> (r: Vec<StreamMessage>)
    ensures
        message_views(r@) == data_messages(bytes@),
{
    let mut messages: Vec<StreamMessage> = Vec::new();
    let mut at: usize = 0;
    assert(bytes@.skip(0) =~= bytes@);
    assert(message_views(messages@) + data_messages(bytes@) =~= data_messages(bytes@));
    while at < bytes.len()
        invariant
            at <= bytes.len(),
            message_views(messages@) + data_messages(bytes@.skip(at as int)) == data_messages(
                bytes@,
            ),
        decreases bytes.len() - at,
    {
        let left = bytes.len() - at;
        let size = if left <= MAX_STREAM_CHUNK_BYTES {
            left
        } else {
            MAX_STREAM_CHUNK_BYTES
        };
        let piece = slice_subrange(bytes, at, at + size);
        let ghost rest = bytes@.skip(at as int);
        let ghost before = messages@;
        let data = encode_standard(piece);
        messages.push(StreamMessage::Data { data });
        proof {
            let after = bytes@.skip(at + size);
            assert(message_views(messages@) =~= message_views(before).push(data_message(piece@)));
            assert(rest.skip(size as int) =~= after);
            if left <= MAX_STREAM_CHUNK_BYTES {
                assert(piece@ =~= rest);
            } else {
                assert(piece@ =~= rest.take(size as int));
            }
            assert(data_messages(rest) =~= seq![data_message(piece@)] + data_messages(after));
            assert(message_views(before) + data_messages(rest) =~= message_views(messages@)
                + data_messages(after));
        }
        at = at + size;
    }
    assert(message_views(messages@) + data_messages(bytes@.skip(at as int)) =~= message_views(
        messages@,
    ));
    messages
}

/// Decides what follows from an event when `total` bytes have been relayed.
pub fn decide_relay(total: usize, event: RelayEvent) -> (r: RelayStep)
    ensures
        r@ == relay_step(total, event),
{
    match event {
        RelayEvent::Cancelled => RelayStep::Fail(AiPassError::RequestCancelled),
        RelayEvent::Idle => RelayStep::Fail(AiPassError::ResponseTimedOut),
        RelayEvent::Overdue => RelayStep::Fail(AiPassError::StreamTimeLimit),
        RelayEvent::Failed => RelayStep::Fail(AiPassError::StreamFailed),
        RelayEvent::Chunk(chunk) => {
            let sum = total.saturating_add(chunk.len());
            if sum > MAX_CHAT_RESPONSE_BYTES {
                RelayStep::Fail(AiPassError::ResponseTooLarge)
            } else {
                RelayStep::Send { messages: encode_chunk(chunk.as_slice()), total: sum }
            }
        },
        RelayEvent::End => RelayStep::Finish(StreamMessage::Done),
    }
}

/// The pieces one after another.
pub open spec fn joined(list: Seq<Seq<u8>>) -> Seq<u8>
    decreases list.len(),
{
    if list.len() == 0 {
        seq![]
    } else {
        list[0] + joined(list.drop_first())
    }
}

/// Nothing is lost, repeated or reordered by cutting: the pieces put together are the bytes. No
/// piece is empty or above the size.
pub proof fn pieces_make_the_whole(bytes: Seq<u8>, size: nat)
    requires
        size > 0,
    ensures
        joined(pieces(bytes, size)) == bytes,
        forall|i: int|
            0 <= i < pieces(bytes, size).len() ==> 0 < (#[trigger] pieces(bytes, size)[i]).len()
                <= size,
    decreases bytes.len(),
{
    let list = pieces(bytes, size);
    if bytes.len() == 0 {
        assert(joined(list) =~= bytes);
    } else if bytes.len() <= size {
        assert(list.drop_first() =~= Seq::<Seq<u8>>::empty());
        assert(joined(list.drop_first()) =~= Seq::<u8>::empty());
        assert(joined(list) =~= bytes);
    } else {
        let rest = bytes.skip(size as int);
        pieces_make_the_whole(rest, size);
        assert(list.drop_first() =~= pieces(rest, size));
        assert(bytes.take(size as int) + rest =~= bytes);
        assert forall|i: int| 0 <= i < list.len() implies 0 < (#[trigger] list[i]).len()
            <= size by {
            if i > 0 {
                assert(list[i] == pieces(rest, size)[i - 1]);
            }
        }
    }
}

/// What the consumer is sent in the course of some events, and how the relay ends, if it does.
pub open spec fn relay_run(total: usize, events: Seq<RelayEvent>) -> (
    Seq<StreamView>,
    Option<Result<(), AiPassError>>,
)
    decreases events.len(),
{
    if events.len() == 0 {
        (seq![], None)
    } else {
        match relay_step(total, events[0]) {
            RelayStepView::Send { messages, total } => {
                let (later, outcome) = relay_run(total, events.drop_first());
                (messages + later, outcome)
            },
            RelayStepView::Finish(message) => (seq![message], Some(Ok(()))),
            RelayStepView::Fail(error) => (seq![], Some(Err(error))),
        }
    }
}

/// The messages that carry the chunks, one after another.
pub open spec fn all_data_messages(chunks: Seq<Vec<u8>>) -> Seq<StreamView>
    decreases chunks.len(),
{
    if chunks.len() == 0 {
        seq![]
    } else {
        data_messages(chunks[0]@) + all_data_messages(chunks.drop_first())
    }
}

/// The events of a reply that comes in these chunks.
pub open spec fn relay_events(chunks: Seq<Vec<u8>>) -> Seq<RelayEvent> {
    chunks.map_values(|chunk: Vec<u8>| RelayEvent::Chunk(chunk)).push(RelayEvent::End)
}

/// A reply within the limit is relayed whole, in order, and ended by `Done`; one above the limit
/// is not said to be done.
pub proof fn relay_is_whole_or_refused(total: usize, chunks: Seq<Vec<u8>>)
    requires
        total <= MAX_CHAT_RESPONSE_BYTES,
    ensures
        total + joined_chunks(chunks).len() <= MAX_CHAT_RESPONSE_BYTES ==> relay_run(
            total,
            relay_events(chunks),
        ) == (
            all_data_messages(chunks).push(StreamView::Done),
            Some(Ok::<(), AiPassError>(())),
        ),
        total + joined_chunks(chunks).len() > MAX_CHAT_RESPONSE_BYTES ==> relay_run(
            total,
            relay_events(chunks),
        ).1 == Some(Err::<(), AiPassError>(AiPassError::ResponseTooLarge)),
    decreases chunks.len(),
{
    let events = relay_events(chunks);
    if chunks.len() == 0 {
        assert(all_data_messages(chunks).push(StreamView::Done) =~= seq![StreamView::Done]);
    } else {
        assert(events[0] == RelayEvent::Chunk(chunks[0]));
        assert(events.drop_first() =~= relay_events(chunks.drop_first()));
        if total + chunks[0]@.len() <= MAX_CHAT_RESPONSE_BYTES {
            relay_is_whole_or_refused(
                (total + chunks[0]@.len()) as usize,
                chunks.drop_first(),
            );
            assert(data_messages(chunks[0]@) + all_data_messages(chunks.drop_first()).push(
                StreamView::Done,
            ) =~= all_data_messages(chunks).push(StreamView::Done));
        }
    }
}

/// The bytes that the messages carry, put together.
pub open spec fn carried(messages: Seq<StreamView>) -> Seq<u8>
    decreases messages.len(),
{
    if messages.len() == 0 {
        seq![]
    } else {
        let later = carried(messages.drop_first());
        match messages[0] {
            StreamView::Data { data } => base64_bytes(data) + later,
            _ => later,
        }
    }
}

proof fn carried_of_sum(first: Seq<StreamView>, second: Seq<StreamView>)
    ensures
        carried(first + second) == carried(first) + carried(second),
    decreases first.len(),
{
    if first.len() == 0 {
        assert(first + second =~= second);
        assert(carried(first) + carried(second) =~= carried(second));
    } else {
        carried_of_sum(first.drop_first(), second);
        assert((first + second).drop_first() =~= first.drop_first() + second);
        assert((first + second)[0] == first[0]);
        assert(carried(first + second) =~= carried(first) + carried(second));
    }
}

proof fn pieces_are_carried(list: Seq<Seq<u8>>)
    ensures
        carried(list.map_values(|piece: Seq<u8>| data_message(piece))) == joined(list),
    decreases list.len(),
{
    let messages = list.map_values(|piece: Seq<u8>| data_message(piece));
    if list.len() > 0 {
        let rest = list.drop_first();
        pieces_are_carried(rest);
        standard_form_reads_back(list[0]);
        assert(messages[0] == data_message(list[0]));
        assert(messages.drop_first() =~= rest.map_values(|piece: Seq<u8>| data_message(piece)));
    }
}

proof fn chunks_are_carried(chunks: Seq<Vec<u8>>)
    ensures
        carried(all_data_messages(chunks)) == joined_chunks(chunks),
    decreases chunks.len(),
{
    if chunks.len() > 0 {
        let size = MAX_STREAM_CHUNK_BYTES as nat;
        pieces_make_the_whole(chunks[0]@, size);
        pieces_are_carried(pieces(chunks[0]@, size));
        carried_of_sum(data_messages(chunks[0]@), all_data_messages(chunks.drop_first()));
        chunks_are_carried(chunks.drop_first());
    }
}

/// What the consumer of a relayed reply reads, put together, is the reply: nothing is lost,
/// repeated or reordered, however the reply came in.
pub proof fn relay_carries_the_reply(chunks: Seq<Vec<u8>>)
    requires
        joined_chunks(chunks).len() <= MAX_CHAT_RESPONSE_BYTES,
    ensures
        carried(relay_run(0, relay_events(chunks)).0) == joined_chunks(chunks),
{
    relay_is_whole_or_refused(0, chunks);
    chunks_are_carried(chunks);
    let data = all_data_messages(chunks);
    let last = seq![StreamView::Done];
    assert(data.push(StreamView::Done) =~= data + last);
    carried_of_sum(data, last);
    assert(carried(last.drop_first()) =~= Seq::<u8>::empty());
    assert(carried(last) =~= Seq::<u8>::empty());
    assert(carried(data) + carried(last) =~= carried(data));
}

/// `Done` is sent at most once, as the last message, and exactly when the relay succeeds;
/// everything before it is data.
pub proof fn done_ends_a_relay(total: usize, events: Seq<RelayEvent>)
    ensures
        ({
            let (messages, outcome) = relay_run(total, events);
            &&& outcome == Some(Ok::<(), AiPassError>(())) <==> messages.len() > 0
                && messages.last() is Done
            &&& forall|i: int| 0 <= i < messages.len() - 1 ==> #[trigger] messages[i] is Data
        }),
    decreases events.len(),
{
    let (messages, outcome) = relay_run(total, events);
    if events.len() > 0 {
        if let RelayStepView::Send { messages: first, total: next } = relay_step(total, events[0]) {
            done_ends_a_relay(next, events.drop_first());
            let (later, _) = relay_run(next, events.drop_first());
            assert forall|i: int| 0 <= i < first.len() implies #[trigger] first[i] is Data by {}
            if later.len() > 0 {
                assert(messages.last() == later.last());
            }
            assert forall|i: int| 0 <= i < messages.len() - 1 implies #[trigger] messages[i]
                is Data by {
                if i >= first.len() {
                    assert(messages[i] == later[i - first.len()]);
                }
            }
        }
    }
}

/// The message that tells the consumer of a failed chat why it failed; a chat that succeeded needs
/// none.
pub fn closing_message(result: &Result<(), AiPassError>) -> (r: Option<StreamMessage>)
    ensures
        match r {
            Some(message) => result is Err && message@ == (StreamView::Error {
                message: result->Err_0.text(),
            }),
            None => result is Ok,
        },
{
    match result {
        Ok(_) => None,
        Err(error) => Some(StreamMessage::Error { message: error.message().to_owned() }),
    }
}

/// Every status from 200 to 299 says that the request was granted, and no other one.
pub proof fn success_is_the_two_hundreds(status: u16)
    ensures
        success(status) <==> 200 <= status && status <= 299,
{
}

/// Every granted chat is relayed whose announced length, if there is one, is at most 33554432; with
/// its own status, and its own type where that has at most 256 bytes. Every other chat is refused.
pub proof fn granted_chat_is_relayed(
    status: u16,
    content_length: Option<u64>,
    content_type: Option<&str>,
)
    ensures
        status < 200 || status > 299 ==> relay_start(status, content_length, content_type)
            is Refused,
        200 <= status <= 299 && (content_length matches Some(length) && length > 33554432)
            ==> relay_start(status, content_length, content_type) == RelayStartView::Fail(
            AiPassError::ResponseTooLarge,
        ),
        200 <= status <= 299 && (content_length matches Some(length) ==> length <= 33554432)
            ==> relay_start(status, content_length, content_type) == RelayStartView::Relay(
            StreamView::Headers {
                status,
                content_type: match content_type {
                    Some(value) => if encode_utf8(value@).len() <= 256 {
                        value@
                    } else {
                        "application/octet-stream"@
                    },
                    None => "application/octet-stream"@,
                },
            },
        ),
{
}

/// A chunk is relayed exactly if the bytes relayed with it are at most 33554432, and then its
/// messages carry the chunk and nothing else, in pieces of at most 262144 bytes.
pub proof fn chunk_is_relayed_or_refused(total: usize, chunk: Vec<u8>)
    ensures
        total + chunk@.len() > 33554432 ==> relay_step(total, RelayEvent::Chunk(chunk))
            == RelayStepView::Fail(AiPassError::ResponseTooLarge),
        total + chunk@.len() <= 33554432 ==> {
            &&& relay_step(total, RelayEvent::Chunk(chunk)) matches RelayStepView::Send {
                messages,
                total: sum,
            }
            &&& sum == total + chunk@.len()
            &&& carried(messages) == chunk@
            &&& forall|i: int|
                0 <= i < messages.len() ==> (#[trigger] messages[i] matches StreamView::Data {
                    data,
                } && 1 <= base64_bytes(data).len() <= 262144)
        },
{
    let size = MAX_STREAM_CHUNK_BYTES as nat;
    let list = pieces(chunk@, size);
    let messages = data_messages(chunk@);
    pieces_make_the_whole(chunk@, size);
    pieces_are_carried(list);
    assert forall|i: int| 0 <= i < messages.len() implies (#[trigger] messages[i] matches
        StreamView::Data { data } && 1 <= base64_bytes(data).len() <= 262144) by {
        assert(messages[i] == data_message(list[i]));
        standard_form_reads_back(list[i]);
    }
}

/// The views of messages and of the steps of a relay show all of them.
pub proof fn views_of_messages_show_all(
    status: u16,
    text: String,
    message: StreamMessage,
    messages: Vec<StreamMessage>,
    total: usize,
    error: AiPassError,
)
    ensures
        (StreamMessage::Headers { status, content_type: text })@ == (StreamView::Headers {
            status,
            content_type: text@,
        }),
        (StreamMessage::Data { data: text })@ == (StreamView::Data { data: text@ }),
        StreamMessage::Done@ == StreamView::Done,
        (StreamMessage::Error { message: text })@ == (StreamView::Error { message: text@ }),
        message_views(messages@).len() == messages@.len(),
        forall|i: int|
            0 <= i < messages@.len() ==> #[trigger] message_views(messages@)[i] == messages@[i]@,
        RelayStart::Refused@ == RelayStartView::Refused,
        RelayStart::Relay(message)@ == RelayStartView::Relay(message@),
        RelayStart::Fail(error)@ == RelayStartView::Fail(error),
        (RelayStep::Send { messages, total })@ == (RelayStepView::Send {
            messages: message_views(messages@),
            total,
        }),
        RelayStep::Finish(message)@ == RelayStepView::Finish(message@),
        RelayStep::Fail(error)@ == RelayStepView::Fail(error),
{
}

/// A body and a relay end with what happens, however much came before.
pub proof fn transfers_end_as_it_came(maximum: usize, bytes: Seq<u8>, total: usize)
    ensures
        body_step(maximum, bytes, BodyEvent::TimedOut) == BodyStepView::Done(
            Err(AiPassError::ResponseTimedOut),
        ),
        body_step(maximum, bytes, BodyEvent::Failed) == BodyStepView::Done(
            Err(AiPassError::ResponseUnreadable),
        ),
        body_step(maximum, bytes, BodyEvent::End) == BodyStepView::Done(Ok(bytes)),
        relay_step(total, RelayEvent::Cancelled) == RelayStepView::Fail(
            AiPassError::RequestCancelled,
        ),
        relay_step(total, RelayEvent::Idle) == RelayStepView::Fail(AiPassError::ResponseTimedOut),
        relay_step(total, RelayEvent::Overdue) == RelayStepView::Fail(AiPassError::StreamTimeLimit),
        relay_step(total, RelayEvent::Failed) == RelayStepView::Fail(AiPassError::StreamFailed),
        relay_step(total, RelayEvent::End) == RelayStepView::Finish(StreamView::Done),
{
}

} // verus!

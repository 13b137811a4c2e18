//! Frames on the wire, and the connection actor that sends and dispatches
//! envelopes for one client.
//!
//! A frame is the length of its payload as four bytes, most significant
//! first, followed by the payload.

use crate::message::{view_of, Message, MessageView};
use crate::parser::{dispatches, Parser, ParserManager};
use vstd::prelude::*;

verus! {

/// Number of bytes that hold the length of a payload.
pub const PREFIX_SIZE: usize = 4;

/// Why bytes are not a frame, or cannot become one.
#[derive(Debug, Clone, Copy, PartialEq, Eq, Structural)]
pub enum FrameError {
    /// The stream ended before the four bytes of the length.
    MissingSize,
    /// The stream ended before the payload was complete.
    MissingPayload,
    /// The length of the payload does not fit in four bytes.
    Oversized,
}

/// The four bytes that spell `size`, most significant first.
pub open spec fn size_prefix(size: u32) -> Seq<u8> {
    seq![
        (size / 0x100_0000) as u8,
        (size / 0x1_0000 % 0x100) as u8,
        (size / 0x100 % 0x100) as u8,
        (size % 0x100) as u8,
    ]
}

/// The length that the first four bytes of `stream` spell.
pub open spec fn prefixed_size(stream: Seq<u8>) -> nat
    recommends
        stream.len() >= PREFIX_SIZE,
{
    (stream[0] * 0x100_0000 + stream[1] * 0x1_0000 + stream[2] * 0x100 + stream[3]) as nat
}

/// The frame that carries `payload`.
pub open spec fn framed(payload: Seq<u8>) -> Seq<u8>
    recommends
        payload.len() <= u32::MAX,
{
    size_prefix(payload.len() as u32) + payload
}

/// The payload of the frame with which `stream` begins, or the reason why
/// `stream` does not begin with a frame.
pub open spec fn unframed(stream: Seq<u8>) -> Result<Seq<u8>, FrameError> {
    if stream.len() < PREFIX_SIZE {
        Err(FrameError::MissingSize)
    } else if stream.len() - PREFIX_SIZE < prefixed_size(stream) {
        Err(FrameError::MissingPayload)
    } else {
        Ok(stream.subrange(PREFIX_SIZE as int, PREFIX_SIZE + prefixed_size(stream)))
    }
}

/// The bytes that a codec function returned, or the error in their place.
pub open spec fn bytes_of(outcome: Result<Vec<u8>, FrameError>) -> Result<Seq<u8>, FrameError> {
    match outcome {
        Ok(payload) => Ok(payload@),
        Err(error) => Err(error),
    }
}

/// The prefix of a length spells that length.
pub proof fn lemma_size_prefix_read_back(size: u32)
    ensures
        size_prefix(size).len() == PREFIX_SIZE,
        prefixed_size(size_prefix(size)) == size,
{
    let s = size as int;
    assert(s == (s / 0x100_0000) * 0x100_0000 + (s / 0x1_0000 % 0x100) * 0x1_0000 + (s / 0x100
        % 0x100) * 0x100 + s % 0x100);
}

/// A frame read back gives the payload that went into it, whatever follows
/// the frame in the stream.
pub proof fn lemma_frame_round_trip(payload: Seq<u8>, rest: Seq<u8>)
    requires
        payload.len() <= u32::MAX,
    ensures
        unframed(framed(payload)) == Ok::<Seq<u8>, FrameError>(payload),
        unframed(framed(payload) + rest) == Ok::<Seq<u8>, FrameError>(payload),
{
    lemma_size_prefix_read_back(payload.len() as u32);
    let frame = framed(payload);
    assert(frame.subrange(PREFIX_SIZE as int, PREFIX_SIZE + payload.len()) =~= payload);
    assert((frame + rest).subrange(PREFIX_SIZE as int, PREFIX_SIZE + payload.len()) =~= payload);
}

/// A frame that is cut off inside its payload is rejected: no shorter
/// payload comes out of it.
pub proof fn lemma_truncated_frame_rejected(payload: Seq<u8>, supplied: nat)
    requires
        payload.len() <= u32::MAX,
        supplied < payload.len(),
    ensures
        unframed(size_prefix(payload.len() as u32) + payload.take(supplied as int)) == Err::<
            Seq<u8>,
            FrameError,
        >(FrameError::MissingPayload),
{
    lemma_size_prefix_read_back(payload.len() as u32);
}

/// A stream that ends inside the length is rejected.
pub proof fn lemma_truncated_size_rejected(stream: Seq<u8>)
    requires
        stream.len() < PREFIX_SIZE,
    ensures
        unframed(stream) == Err::<Seq<u8>, FrameError>(FrameError::MissingSize),
{
}

/// Where a connection stands. It starts `Active` and only moves forward:
/// to `Closing` when it fails, to `Closed` when it has been shut down.
#[derive(Debug, Clone, Copy, PartialEq, Eq, Structural)]
pub enum ConnectionState {
    /// Envelopes are sent and dispatched.
    Active,
    /// The connection has failed; it waits to be shut down.
    Closing,
    /// The connection is shut down.
    Closed,
}

/// Why a connection ended.
#[derive(Debug, Clone, Copy, PartialEq, Eq, Structural)]
pub enum ConnectionError {
    /// A frame that was read or was to be written was not valid.
    Framing(FrameError),
    /// Reading from or writing to the socket failed.
    Transport,
    /// The task that reads frames has ended.
    ReaderStopped,
}

/// What the foreground loop of a connection found when it looked for
/// inbound traffic.
#[derive(Debug)]
pub enum StreamEvent {
    /// Nothing has arrived.
    Idle,
    /// The envelope of one inbound frame.
    Received(Message),
    /// Reading or writing has failed, or the reading task has ended.
    Failed(ConnectionError),
}

/// A connection actor as plain values.
pub struct MessengerView {
    /// The envelopes that wait to be sent, in the order in which they were
    /// queued.
    pub queue: Seq<MessageView>,
    /// Where the connection stands.
    pub state: ConnectionState,
    /// The first failure of the connection, if it has failed.
    pub failure: Option<ConnectionError>,
}

/// The views of the envelopes of a queue.
pub open spec fn queue_view(queue: Seq<Message>) -> Seq<MessageView> {
    queue.map_values(|m: Message| m@)
}

/// How far a connection has come on its way from `Active` to `Closed`.
pub open spec fn progress(state: ConnectionState) -> nat {
    match state {
        ConnectionState::Active => 0,
        ConnectionState::Closing => 1,
        ConnectionState::Closed => 2,
    }
}

impl MessengerView {
    /// The envelope that leaves next. The queue is drained from its tail:
    /// the envelope queued last leaves first. Nothing leaves a connection
    /// that is not active.
    pub open spec fn outbound(self) -> Option<MessageView> {
        if self.state == ConnectionState::Active && self.queue.len() > 0 {
            Some(self.queue.last())
        } else {
            None
        }
    }

    /// The actor after its next outbound envelope was taken.
    pub open spec fn after_outbound(self) -> MessengerView {
        if self.outbound() is Some {
            MessengerView { queue: self.queue.drop_last(), ..self }
        } else {
            self
        }
    }

    /// The actor once `reply` was queued, if there is a reply.
    pub open spec fn with_reply(self, reply: Option<MessageView>) -> MessengerView {
        match reply {
            Some(r) => MessengerView { queue: self.queue.push(r), ..self },
            None => self,
        }
    }

    /// The actor once it has started closing because of `error`.
    pub open spec fn failed(self, error: ConnectionError) -> MessengerView {
        MessengerView { state: ConnectionState::Closing, failure: Some(error), ..self }
    }

    /// The actor once it is shut down.
    pub open spec fn closed(self) -> MessengerView {
        MessengerView { state: ConnectionState::Closed, ..self }
    }

    /// `after` is what the actor may be after `event`, where `parsers` is
    /// the registry that its inbound envelopes are dispatched to. An active
    /// actor queues the reply to a received envelope, if the registry
    /// returns one, and starts closing on a failure. An actor that is not
    /// active ignores the event.
    pub open spec fn steps_to<P: Parser>(
        self,
        parsers: Map<u32, P>,
        event: StreamEvent,
        after: MessengerView,
    ) -> bool {
        if self.state != ConnectionState::Active {
            after == self
        } else {
            match event {
                StreamEvent::Idle => after == self,
                StreamEvent::Received(message) => exists|reply: Option<MessageView>| #[trigger]
                    dispatches(parsers, message, reply) && after == self.with_reply(reply),
                StreamEvent::Failed(error) => after == self.failed(error),
            }
        }
    }

    /// What a connection reports when it closes: its first failure, or
    /// success.
    pub open spec fn report(self) -> Result<(), ConnectionError> {
        match self.failure {
            Some(error) => Err(error),
            None => Ok(()),
        }
    }
}

/// The connection actor of one client: the envelopes that wait to be sent
/// to it, and where the connection stands.
#[derive(Debug)]
pub struct Messenger {
    oqueue: Vec<Message>,
    state: ConnectionState,
    failure: Option<ConnectionError>,
}

impl View for Messenger {
    type V = MessengerView;

    closed spec fn view(&self) -> MessengerView {
        MessengerView { queue: queue_view(self.oqueue@), state: self.state, failure: self.failure }
    }
}

impl Messenger {
    /// The actor of a connection that was just accepted: active, with
    /// nothing to send.
    pub fn with_connection() -> (messenger: Messenger)
        ensures
            messenger@ == (MessengerView {
                queue: Seq::empty(),
                state: ConnectionState::Active,
                failure: None,
            }),
    {
        let messenger = Messenger {
            oqueue: Vec::new(),
            state: ConnectionState::Active,
            failure: None,
        };
        assert(queue_view(messenger.oqueue@) =~= Seq::empty());
        messenger
    }

    /// The envelopes that wait to be sent.
    pub fn get_oqueue(&self) -> (queue: &Vec<Message>)
        ensures
            queue_view(queue@) == self@.queue,
    {
        &self.oqueue
    }

    /// Where the connection stands.
    pub fn get_state(&self) -> (state: ConnectionState)
        ensures
            state == self@.state,
    {
        self.state
    }

    /// Reads the length of a payload from the first four bytes of `stream`.
    /// Fails where `stream` holds fewer bytes.
    pub fn read_message_size(stream: &[u8]) -> (size: Result<u64, FrameError>)
        ensures
            stream@.len() >= PREFIX_SIZE ==> size == Ok::<u64, FrameError>(
                prefixed_size(stream@) as u64,
            ),
            stream@.len() < PREFIX_SIZE ==> size == Err::<u64, FrameError>(FrameError::MissingSize),
            size matches Ok(n) ==> n <= u32::MAX,
    {
        if stream.len() < PREFIX_SIZE {
            return Err(FrameError::MissingSize);
        }
        let length: u64 = stream[0] as u64 * 0x100_0000 + stream[1] as u64 * 0x1_0000
            + stream[2] as u64 * 0x100 + stream[3] as u64;
        Ok(length)
    }

    /// The four bytes that announce a payload of `size` bytes.
    pub fn write_message_size(size: u32) -> (prefix: Vec<u8>)
        ensures
            prefix@ == size_prefix(size),
    {
        let mut prefix: Vec<u8> = Vec::new();
        prefix.push((size / 0x100_0000) as u8);
        prefix.push((size / 0x1_0000 % 0x100) as u8);
        prefix.push((size / 0x100 % 0x100) as u8);
        prefix.push((size % 0x100) as u8);
        prefix
    }

    /// The length that a frame announces for a payload of `length` bytes.
    /// Fails where `length` does not fit in four bytes.
    pub fn announced_size(length: usize) -> (size: Result<u32, FrameError>)
        ensures
            length <= u32::MAX ==> size == Ok::<u32, FrameError>(length as u32),
            length > u32::MAX ==> size == Err::<u32, FrameError>(FrameError::Oversized),
    {
        if length as u64 > u32::MAX as u64 {
            Err(FrameError::Oversized)
        } else {
            Ok(length as u32)
        }
    }

    /// Frames `message`. Fails only where its length does not fit in four
    /// bytes.
    pub fn send_message(message: &[u8]) -> (frame: Result<Vec<u8>, FrameError>)
        ensures
            message@.len() <= u32::MAX ==> bytes_of(frame) == Ok::<Seq<u8>, FrameError>(
                framed(message@),
            ),
            message@.len() > u32::MAX ==> frame == Err::<Vec<u8>, FrameError>(
                FrameError::Oversized,
            ),
            frame matches Ok(bytes) ==> unframed(bytes@) == Ok::<Seq<u8>, FrameError>(message@),
    {
        proof {
            if message@.len() <= u32::MAX {
                lemma_frame_round_trip(message@, Seq::empty());
            }
        }
        let message_size: usize = message.len();
        let announced: u32 = match Messenger::announced_size(message_size) {
            Ok(size) => size,
            Err(error) => {
                return Err(error);
            },
        };
        let mut frame: Vec<u8> = Messenger::write_message_size(announced);
        let mut i: usize = 0;
        while i < message_size
            invariant
                i <= message_size == message@.len(),
                frame@ == size_prefix(message_size as u32) + message@.take(i as int),
            decreases message_size - i,
        {
            frame.push(message[i]);
            i = i + 1;
        }
        assert(message@.take(message_size as int) =~= message@);
        Ok(frame)
    }

    /// Takes the payload out of the frame with which `stream` begins. Fails
    /// where `stream` ends before the length or before the payload is
    /// complete.
    pub fn recv_message(stream: &[u8]) -> (payload: Result<Vec<u8>, FrameError>)
        ensures
            bytes_of(payload) == unframed(stream@),
    {
        let size: u64 = match Messenger::read_message_size(stream) {
            Ok(size) => size,
            Err(error) => {
                return Err(error);
            },
        };
        let available: usize = stream.len() - PREFIX_SIZE;
        if (available as u64) < size {
            return Err(FrameError::MissingPayload);
        }
        let count: usize = size as usize;
        let mut tmp: Vec<u8> = Vec::new();
        let mut i: usize = 0;
        while i < count
            invariant
                i <= count,
                PREFIX_SIZE + count <= stream@.len() <= usize::MAX,
                tmp@ == stream@.subrange(PREFIX_SIZE as int, PREFIX_SIZE + i),
            decreases count - i,
        {
            tmp.push(stream[PREFIX_SIZE + i]);
            assert(stream@.subrange(PREFIX_SIZE as int, PREFIX_SIZE + i).push(
                stream@[PREFIX_SIZE + i],
            ) =~= stream@.subrange(PREFIX_SIZE as int, PREFIX_SIZE + i + 1));
            i = i + 1;
        }
        Ok(tmp)
    }

    /// Appends `message` to the envelopes that wait to be sent.
    pub fn add_to_send_queue(&mut self, message: Message)
        ensures
            final(self)@ == (MessengerView {
                queue: old(self)@.queue.push(message@),
                ..old(self)@
            }),
    {
        self.oqueue.push(message);
        assert(queue_view(self.oqueue@) =~= queue_view(old(self).oqueue@).push(message@));
    }

    /// Takes the envelope that is to be written next, if the connection is
    /// active and one waits.
    pub fn next_outbound(&mut self) -> (message: Option<Message>)
        ensures
            view_of(message) == old(self)@.outbound(),
            final(self)@ == old(self)@.after_outbound(),
    {
        match self.state {
            ConnectionState::Active => {
                let message = self.oqueue.pop();
                assert(message is Some ==> queue_view(self.oqueue@) =~= queue_view(
                    old(self).oqueue@,
                ).drop_last());
                message
            },
            _ => None,
        }
    }

    /// Takes in what the foreground loop found: dispatches a received
    /// envelope to `parser` and queues the reply, or starts closing on a
    /// failure. Returns where the connection stands afterwards.
    pub fn handle_client_stream<P: Parser>(
        &mut self,
        parser: &ParserManager<P>,
        event: StreamEvent,
    ) -> (state: ConnectionState)
        ensures
            old(self)@.steps_to(parser@, event, final(self)@),
            state == final(self)@.state,
    {
        match self.state {
            ConnectionState::Active => {
                match event {
                    StreamEvent::Idle => {},
                    StreamEvent::Received(message) => {
                        let response = parser.parse_message(&message);
                        match response {
                            Some(reply) => {
                                self.add_to_send_queue(reply);
                            },
                            None => {},
                        }
                    },
                    StreamEvent::Failed(error) => {
                        self.failure = Some(error);
                        self.state = ConnectionState::Closing;
                    },
                }
            },
            _ => {},
        }
        self.state
    }

    /// Closes the connection and reports how it ended: with its first
    /// failure, or with success if it never failed.
    pub fn close(&mut self) -> (report: Result<(), ConnectionError>)
        ensures
            final(self)@ == old(self)@.closed(),
            report == old(self)@.report(),
    {
        self.state = ConnectionState::Closed;
        match self.failure {
            Some(error) => Err(error),
            None => Ok(()),
        }
    }
}

/// A connection only moves forward: neither taking an envelope, nor an
/// event, nor closing takes it back to an earlier state, and a connection
/// that is not active is left as it is by the first two.
pub proof fn lemma_connection_moves_forward<P: Parser>(
    messenger: MessengerView,
    parsers: Map<u32, P>,
    event: StreamEvent,
    after: MessengerView,
)
    requires
        messenger.steps_to(parsers, event, after),
    ensures
        progress(messenger.after_outbound().state) == progress(messenger.state),
        progress(after.state) >= progress(messenger.state),
        progress(messenger.closed().state) >= progress(messenger.state),
        messenger.state != ConnectionState::Active ==> messenger.after_outbound() == messenger
            && after == messenger,
{
}

/// The failure that a connection reports is the first one it met: it has
/// left the active state by then, so that a later failure does not replace
/// it.
pub proof fn lemma_first_failure_is_reported<P: Parser>(
    messenger: MessengerView,
    parsers: Map<u32, P>,
    first: ConnectionError,
    second: ConnectionError,
    failed: MessengerView,
    after: MessengerView,
)
    requires
        messenger.state == ConnectionState::Active,
        messenger.steps_to(parsers, StreamEvent::Failed(first), failed),
        failed.steps_to(parsers, StreamEvent::Failed(second), after),
    ensures
        failed.state == ConnectionState::Closing,
        after.report() == Err::<(), ConnectionError>(first),
        after.closed().report() == Err::<(), ConnectionError>(first),
{
}

} // verus!

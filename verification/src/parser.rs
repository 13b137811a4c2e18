//! The route registry: handlers are registered under their route id, and an
//! inbound envelope goes to the handler registered for its route.

use crate::message::{view_of, Message, MessageView, REPLY_MESSAGE_PARSER_ID};
use std::collections::HashMap;
use vstd::prelude::*;

verus! {

/// A handler for the envelopes of one route.
pub trait Parser: Send + Sync {
    /// Handles one envelope and returns the reply, if there is one.
    fn parse_message(&self, message: &Message) -> Option<Message>;

    /// The route id under which the handler is to be registered.
    fn get_id(&self) -> u32;
}

/// A boxed handler of any type handles what the handler in the box handles.
impl<'a> Parser for Box<dyn Parser + 'a> {
    /// The answer of the handler in the box.
    fn parse_message(&self, message: &Message) -> (answer: Option<Message>)
        ensures
            answers_of::<dyn Parser + 'a>(&**self, *message, answer),
    {
        parse_with::<dyn Parser + 'a>(&**self, message)
    }

    /// The route id that the handler in the box gives for itself.
    fn get_id(&self) -> (parser_id: u32)
        ensures
            gives_id_of::<dyn Parser + 'a>(&**self, parser_id),
    {
        id_of::<dyn Parser + 'a>(&**self)
    }
}

/// `answer` is what the handler behind `parser` may return when it handles
/// `message`.
pub open spec fn answers_of<P: Parser + ?Sized>(
    parser: &P,
    message: Message,
    answer: Option<Message>,
) -> bool {
    call_ensures(P::parse_message, (parser, &message), answer)
}

/// `parser_id` is a route id that the handler behind `parser` may give for
/// itself.
pub open spec fn gives_id_of<P: Parser + ?Sized>(parser: &P, parser_id: u32) -> bool {
    call_ensures(P::get_id, (parser,), parser_id)
}

/// Lets the handler behind `parser` handle `message`.
fn parse_with<P: Parser + ?Sized>(parser: &P, message: &Message) -> (answer: Option<Message>)
    ensures
        answers_of::<P>(parser, *message, answer),
{
    parser.parse_message(message)
}

/// Asks the handler behind `parser` for its route id.
fn id_of<P: Parser + ?Sized>(parser: &P) -> (parser_id: u32)
    ensures
        gives_id_of::<P>(parser, parser_id),
{
    parser.get_id()
}

/// `answer` is what `parser` may return when it handles `message`.
pub open spec fn answers<P: Parser>(parser: P, message: Message, answer: Option<Message>) -> bool {
    call_ensures(P::parse_message, (&parser, &message), answer)
}

/// `parser_id` is a route id that `parser` may give for itself.
pub open spec fn gives_id<P: Parser>(parser: P, parser_id: u32) -> bool {
    call_ensures(P::get_id, (&parser,), parser_id)
}

/// The payload of an envelope that carries no value of the application: the
/// encoding of the unit value.
pub open spec fn empty_payload() -> Seq<char> {
    seq!['n', 'u', 'l', 'l']
}

/// The acknowledgment of the envelope `message`: a reply with the empty
/// payload that carries the correlation id of `message`.
pub open spec fn acknowledgment(message: MessageView) -> MessageView {
    MessageView {
        ack: false,
        m_id: message.m_id,
        p_id: REPLY_MESSAGE_PARSER_ID,
        message: empty_payload(),
    }
}

/// What goes back to the sender of `message` once its handler has answered
/// with `answer`: the answer itself if there is one; else the
/// acknowledgment, if `message` asks for one; else nothing.
pub open spec fn acknowledged(message: MessageView, answer: Option<MessageView>) -> Option<
    MessageView,
> {
    match answer {
        Some(reply) => Some(reply),
        None => if message.ack {
            Some(acknowledgment(message))
        } else {
            None
        },
    }
}

/// `reply` is what the registry `parsers` may return for `message`:
/// nothing where no handler is registered for the route of `message`, and
/// else the acknowledged answer of the handler registered for that route.
pub open spec fn dispatches<P: Parser>(
    parsers: Map<u32, P>,
    message: Message,
    reply: Option<MessageView>,
) -> bool {
    if parsers.contains_key(message@.p_id) {
        exists|answer: Option<Message>| #[trigger]
            answers(parsers[message@.p_id], message, answer) && reply == acknowledged(
                message@,
                view_of(answer),
            )
    } else {
        reply is None
    }
}

/// Whether the registry `parsers` takes a handler for the route
/// `parser_id`: it does unless the route is taken.
pub open spec fn accepts<P: Parser>(parsers: Map<u32, P>, parser_id: u32) -> bool {
    !parsers.contains_key(parser_id)
}

/// The registry `parsers` after `parser` was offered to it for the route
/// `parser_id`: a route that is taken keeps its handler.
pub open spec fn registered<P: Parser>(parsers: Map<u32, P>, parser_id: u32, parser: P) -> Map<
    u32,
    P,
> {
    if accepts(parsers, parser_id) {
        parsers.insert(parser_id, parser)
    } else {
        parsers
    }
}

/// Encodes the unit value with `rustc_serialize::json::encode`, which
/// writes the four letters `null` for it. The encoder writes into a string
/// and is not inside a map key, so the call does not fail.
#[verifier::external_body]
fn encode_unit() -> (text: String)
    ensures
        text@ == empty_payload(),
{
    rustc_serialize::json::encode(&()).unwrap()
}

/// Completes the answer that a handler gave to `message`: where the handler
/// gave none and `message` asks for an acknowledgment, the acknowledgment
/// takes its place.
pub fn acknowledge(message: &Message, answer: Option<Message>) -> (reply: Option<Message>)
    ensures
        view_of(reply) == acknowledged(message@, view_of(answer)),
{
    match answer {
        Some(m) => Some(m),
        None => {
            if message.get_ack() {
                Some(Message::with_reply(encode_unit(), message.get_message_id()))
            } else {
                None
            }
        },
    }
}

/// Maps route ids to handlers.
pub struct ParserManager<P: Parser> {
    parsers: HashMap<u32, P>,
}

impl<P: Parser> View for ParserManager<P> {
    type V = Map<u32, P>;

    /// The handler registered for each route.
    closed spec fn view(&self) -> Map<u32, P> {
        self.parsers@
    }
}

impl<P: Parser> ParserManager<P> {
    /// A registry without handlers.
    pub fn new() -> (manager: ParserManager<P>)
        ensures
            manager@ == Map::<u32, P>::empty(),
    {
        ParserManager { parsers: HashMap::new() }
    }

    /// Hands `message` to the handler registered for its route and returns
    /// the reply: the answer of the handler, or the acknowledgment where
    /// the handler gives no answer and `message` asks for one. An envelope
    /// for a route without handler is dropped.
    pub fn parse_message(&self, message: &Message) -> (reply: Option<Message>)
        ensures
            dispatches(self@, *message, view_of(reply)),
    {
        broadcast use vstd::std_specs::hash::group_hash_axioms;

        let parser_id: u32 = message.get_parser_id();
        match self.parsers.get(&parser_id) {
            Some(f) => {
                let result = f.parse_message(message);
                assert(answers(self@[parser_id], *message, result));
                acknowledge(message, result)
            },
            None => None,
        }
    }

    /// Registers `parser` for the route `parser_id`, unless the route is
    /// taken: then the registry stays as it is. Returns whether `parser`
    /// was registered.
    pub fn register(&mut self, parser_id: u32, parser: P) -> (registered: bool)
        ensures
            registered == accepts(old(self)@, parser_id),
            final(self)@ == self::registered(old(self)@, parser_id, parser),
    {
        broadcast use vstd::std_specs::hash::group_hash_axioms;

        if self.parsers.contains_key(&parser_id) {
            return false;
        }
        self.parsers.insert(parser_id, parser);
        true
    }

    /// Registers `parser` for the route id that it gives for itself. Returns
    /// whether it was registered: it is not where the route is taken.
    pub fn register_parser(&mut self, parser: P) -> (registered: bool)
        ensures
            exists|parser_id: u32| #[trigger]
                gives_id(parser, parser_id) && registered == accepts(old(self)@, parser_id)
                    && final(self)@ == self::registered(old(self)@, parser_id, parser),
    {
        let parser_id: u32 = parser.get_id();
        assert(gives_id(parser, parser_id));
        self.register(parser_id, parser)
    }
}

/// Of two handlers offered for one route, the first is registered and the
/// second refused, and an envelope for that route is answered by the first:
/// what the registry returns for it is an acknowledged answer of the first.
pub proof fn lemma_first_registration_wins<P: Parser>(
    parsers: Map<u32, P>,
    parser_id: u32,
    first: P,
    second: P,
    message: Message,
    reply: Option<MessageView>,
)
    requires
        accepts(parsers, parser_id),
        message@.p_id == parser_id,
    ensures
        accepts(parsers, parser_id),
        !accepts(registered(parsers, parser_id, first), parser_id),
        registered(registered(parsers, parser_id, first), parser_id, second) == registered(
            parsers,
            parser_id,
            first,
        ),
        registered(registered(parsers, parser_id, first), parser_id, second)[parser_id] == first,
        dispatches(
            registered(registered(parsers, parser_id, first), parser_id, second),
            message,
            reply,
        ) <==> exists|answer: Option<Message>| #[trigger]
            answers(first, message, answer) && reply == acknowledged(message@, view_of(answer)),
{
}

/// A boxed handler stands for the handler in the box: what it may answer
/// to an envelope is an answer of that handler to the same envelope, and
/// the route id it may give is one that that handler gives.
pub proof fn lemma_boxed_handler_stands_for_its_content<'a>(
    parser: Box<dyn Parser + 'a>,
    message: Message,
    answer: Option<Message>,
    parser_id: u32,
)
    ensures
        answers(parser, message, answer) ==> answers_of::<dyn Parser + 'a>(
            &*parser,
            message,
            answer,
        ),
        gives_id(parser, parser_id) ==> gives_id_of::<dyn Parser + 'a>(&*parser, parser_id),
{
}

/// An envelope for a route without handler gets no reply, whether or not
/// it asks for an acknowledgment.
pub proof fn lemma_unroutable_dropped<P: Parser>(
    parsers: Map<u32, P>,
    message: Message,
    reply: Option<MessageView>,
)
    requires
        !parsers.contains_key(message@.p_id),
    ensures
        dispatches(parsers, message, reply) <==> reply is None,
{
}

/// An envelope that asks for an acknowledgment and whose handler gives no
/// answer gets exactly the acknowledgment: a reply with the correlation id
/// of the envelope and the reserved route id.
pub proof fn lemma_auto_acknowledgment<P: Parser>(parsers: Map<u32, P>, message: Message)
    requires
        parsers.contains_key(message@.p_id),
        answers(parsers[message@.p_id], message, None),
        message@.ack,
    ensures
        dispatches(parsers, message, Some(acknowledgment(message@))),
        acknowledged(message@, None) == Some(acknowledgment(message@)),
        acknowledgment(message@).m_id == message@.m_id,
        acknowledgment(message@).p_id == REPLY_MESSAGE_PARSER_ID,
{
}

/// Every envelope that asks for an acknowledgment and has a handler gets a
/// reply, whatever the handler answers.
pub proof fn lemma_acknowledgment_requested_is_answered<P: Parser>(
    parsers: Map<u32, P>,
    message: Message,
    reply: Option<MessageView>,
)
    requires
        parsers.contains_key(message@.p_id),
        message@.ack,
        dispatches(parsers, message, reply),
    ensures
        reply is Some,
{
}

} // verus!

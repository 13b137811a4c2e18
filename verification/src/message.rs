//! The envelope that travels inside a frame, and the source of its
//! correlation ids.

use vstd::prelude::*;

verus! {

/// Route id of every reply. It never selects a handler of the application.
pub const REPLY_MESSAGE_PARSER_ID: u32 = 0;

/// What an envelope is, as plain values.
pub struct MessageView {
    /// Whether the receiver has to acknowledge the envelope.
    pub ack: bool,
    /// The correlation id; in a reply, the id of the envelope replied to.
    pub m_id: u32,
    /// The route id.
    pub p_id: u32,
    /// The payload, already encoded.
    pub message: Seq<char>,
}

/// The correlation id that is handed out `n` draws after `first` was: the
/// counter goes up by one with each draw and wraps at the end of `u32`.
pub open spec fn id_after(first: u32, n: nat) -> u32 {
    ((first + n) % 0x1_0000_0000) as u32
}

/// Hands out correlation ids in increasing order, starting again at zero
/// after `u32::MAX`.
#[derive(Debug)]
pub struct IdGenerator {
    next: u32,
}

impl View for IdGenerator {
    type V = u32;

    /// The id that the next draw returns.
    closed spec fn view(&self) -> u32 {
        self.next
    }
}

impl IdGenerator {
    /// A generator whose first id is zero.
    pub fn new() -> (ids: IdGenerator)
        ensures
            ids@ == 0,
    {
        IdGenerator { next: 0 }
    }

    /// A generator whose first id is `first`.
    pub fn starting_at(first: u32) -> (ids: IdGenerator)
        ensures
            ids@ == first,
    {
        IdGenerator { next: first }
    }
}

/// An envelope: acknowledgment flag, correlation id, route id and payload.
#[derive(Debug, PartialEq, Eq)]
pub struct Message {
    ack: bool,
    m_id: u32,
    p_id: u32,
    message: String,
}

impl View for Message {
    type V = MessageView;

    closed spec fn view(&self) -> MessageView {
        MessageView { ack: self.ack, m_id: self.m_id, p_id: self.p_id, message: self.message@ }
    }
}

/// The view of an envelope that may be there or not.
pub open spec fn view_of(message: Option<Message>) -> Option<MessageView> {
    match message {
        Some(m) => Some(m@),
        None => None,
    }
}

impl Clone for Message {
    /// A copy that is equal to the envelope in every field, the correlation
    /// id included.
    fn clone(&self) -> (copy: Message)
        ensures
            copy@ == self@,
    {
        Message { ack: self.ack, m_id: self.m_id, p_id: self.p_id, message: self.message.clone() }
    }
}

impl Message {
    /// An envelope with a fresh correlation id, the reserved route id, no
    /// acknowledgment requested and an empty payload.
    pub fn new(ids: &mut IdGenerator) -> (m: Message)
        ensures
            m@ == (MessageView {
                ack: false,
                m_id: old(ids)@,
                p_id: REPLY_MESSAGE_PARSER_ID,
                message: Seq::empty(),
            }),
            final(ids)@ == id_after(old(ids)@, 1),
    {
        Message {
            ack: false,
            m_id: Message::next_id(ids),
            p_id: REPLY_MESSAGE_PARSER_ID,
            message: String::new(),
        }
    }

    /// A reply to the envelope whose correlation id is `message_id`: it
    /// carries that id and the reserved route id.
    pub fn with_reply(message: String, message_id: u32) -> (m: Message)
        ensures
            m@ == (MessageView {
                ack: false,
                m_id: message_id,
                p_id: REPLY_MESSAGE_PARSER_ID,
                message: message@,
            }),
    {
        Message { ack: false, m_id: message_id, p_id: REPLY_MESSAGE_PARSER_ID, message }
    }

    /// A fresh envelope for route `parser_id`, with a new correlation id.
    pub fn with_message(message: String, parser_id: u32, ids: &mut IdGenerator) -> (m: Message)
        ensures
            m@ == (MessageView {
                ack: false,
                m_id: old(ids)@,
                p_id: parser_id,
                message: message@,
            }),
            final(ids)@ == id_after(old(ids)@, 1),
    {
        Message { ack: false, m_id: Message::next_id(ids), p_id: parser_id, message }
    }

    /// The payload.
    pub fn get_message(&self) -> (payload: &String)
        ensures
            payload@ == self@.message,
    {
        &self.message
    }

    /// Whether an acknowledgment is requested.
    pub fn get_ack(&self) -> (ack: bool)
        ensures
            ack == self@.ack,
    {
        self.ack
    }

    /// The correlation id.
    pub fn get_message_id(&self) -> (id: u32)
        ensures
            id == self@.m_id,
    {
        self.m_id
    }

    /// The route id.
    pub fn get_parser_id(&self) -> (id: u32)
        ensures
            id == self@.p_id,
    {
        self.p_id
    }

    /// Replaces the acknowledgment flag.
    pub fn set_ack(&mut self, ack: bool)
        ensures
            final(self)@ == (MessageView { ack, ..old(self)@ }),
    {
        self.ack = ack;
    }

    /// Replaces the payload.
    pub fn set_message(&mut self, message: String)
        ensures
            final(self)@ == (MessageView { message: message@, ..old(self)@ }),
    {
        self.message = message;
    }

    /// Replaces the route id.
    pub fn set_parser_id(&mut self, parser_id: u32)
        ensures
            final(self)@ == (MessageView { p_id: parser_id, ..old(self)@ }),
    {
        self.p_id = parser_id;
    }

    /// Draws the next correlation id.
    pub fn next_id(ids: &mut IdGenerator) -> (id: u32)
        ensures
            id == old(ids)@,
            final(ids)@ == id_after(old(ids)@, 1),
    {
        let id: u32 = ids.next;
        ids.next = id.wrapping_add(1);
        id
    }
}

/// Drawing `a` ids and then `b` more leaves the generator where drawing
/// `a + b` ids leaves it.
pub proof fn lemma_id_after_sum(first: u32, a: nat, b: nat)
    ensures
        id_after(id_after(first, a), b) == id_after(first, a + b),
{
    let m: int = 0x1_0000_0000;
    let x: int = first + a;
    assert(((x % m) + b) % m == (x + b) % m) by {
        vstd::arithmetic::div_mod::lemma_add_mod_noop(x, b as int, m);
        vstd::arithmetic::div_mod::lemma_add_mod_noop(x % m, b as int, m);
        vstd::arithmetic::div_mod::lemma_mod_twice(x, m);
    }
}

/// Correlation ids are unique until the counter has gone once round: two
/// draws less than 2^32 apart never return the same id.
pub proof fn lemma_ids_unique(first: u32, i: nat, j: nat)
    requires
        i < j,
        j - i < 0x1_0000_0000,
    ensures
        id_after(first, i) != id_after(first, j),
{
    let m: int = 0x1_0000_0000;
    let x: int = first + i;
    let y: int = first + j;
    if x % m == y % m {
        vstd::arithmetic::div_mod::lemma_fundamental_div_mod(x, m);
        vstd::arithmetic::div_mod::lemma_fundamental_div_mod(y, m);
        let turns = y / m - x / m;
        assert(y - x == m * turns) by (nonlinear_arith)
            requires
                x == m * (x / m) + x % m,
                y == m * (y / m) + y % m,
                x % m == y % m,
                turns == y / m - x / m,
        ;
        assert(turns <= 0 ==> m * turns <= 0) by (nonlinear_arith)
            requires
                m > 0,
        ;
        assert(turns >= 1 ==> m * turns >= m) by (nonlinear_arith)
            requires
                m > 0,
        ;
    }
}

} // verus!

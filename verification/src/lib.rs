//! A small message bus: length-prefixed frames carry envelopes between
//! clients and a broker, which routes each inbound envelope to the handler
//! registered for its route id and can broadcast an envelope to every live
//! connection.
//!
//! The crate holds the rules of the bus as verified functions over plain
//! values. Sockets, threads and the encoding of envelopes into text are the
//! caller's business: the caller reads and writes bytes and hands them over.

pub mod core_messages;
pub mod message;
pub mod messenger;
pub mod parser;
pub mod ping;
pub mod server;

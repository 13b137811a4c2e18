use piserverrust::message::{IdGenerator, Message};
use piserverrust::parser::{acknowledge, Parser, ParserManager};

/// Answers the envelopes of one route as its `kind` says.
struct Handler {
    route: u32,
    kind: Kind,
}

enum Kind {
    /// Answers an envelope whose payload is a number with twice that number.
    Double,
    /// Answers with a fixed payload.
    Say(&'static str),
    /// Gives no answer.
    Silent,
}

impl Parser for Handler {
    fn parse_message(&self, message: &Message) -> Option<Message> {
        match self.kind {
            Kind::Double => {
                let n: u32 = message.get_message().parse().unwrap();
                Some(Message::with_reply(format!("{}", n * 2), message.get_message_id()))
            }
            Kind::Say(text) => {
                Some(Message::with_reply(text.to_string(), message.get_message_id()))
            }
            Kind::Silent => None,
        }
    }

    fn get_id(&self) -> u32 {
        self.route
    }
}

#[test]
fn doubling_handler_replies_to_sender() {
    let mut ids = IdGenerator::starting_at(77);
    let mut manager = ParserManager::new();
    assert!(manager.register_parser(Handler { route: 5, kind: Kind::Double }));
    let request = Message::with_message("21".to_string(), 5, &mut ids);
    let reply = manager.parse_message(&request).unwrap();
    assert_eq!(reply.get_parser_id(), 0);
    assert_eq!(reply.get_message_id(), 77);
    assert_eq!(reply.get_message(), "42");
    assert!(!reply.get_ack());
}

#[test]
fn first_registration_wins() {
    let mut ids = IdGenerator::new();
    let mut manager = ParserManager::new();
    assert!(manager.register_parser(Handler { route: 9, kind: Kind::Say("first") }));
    assert!(!manager.register_parser(Handler { route: 9, kind: Kind::Say("second") }));
    let request = Message::with_message(String::new(), 9, &mut ids);
    let reply = manager.parse_message(&request).unwrap();
    assert_eq!(reply.get_message(), "first");
}

#[test]
fn register_under_a_given_route() {
    let mut ids = IdGenerator::new();
    let mut manager = ParserManager::new();
    assert!(manager.register(3, Handler { route: 1, kind: Kind::Say("three") }));
    assert!(manager.register(4, Handler { route: 1, kind: Kind::Say("four") }));
    assert!(!manager.register(3, Handler { route: 1, kind: Kind::Say("late") }));
    let to_three = Message::with_message(String::new(), 3, &mut ids);
    let to_four = Message::with_message(String::new(), 4, &mut ids);
    let to_one = Message::with_message(String::new(), 1, &mut ids);
    assert_eq!(manager.parse_message(&to_three).unwrap().get_message(), "three");
    assert_eq!(manager.parse_message(&to_four).unwrap().get_message(), "four");
    assert_eq!(manager.parse_message(&to_one), None);
}

#[test]
fn unroutable_envelope_is_dropped() {
    let mut ids = IdGenerator::new();
    let mut manager = ParserManager::new();
    assert!(manager.register_parser(Handler { route: 5, kind: Kind::Double }));
    let request = Message::with_message("21".to_string(), 6, &mut ids);
    assert_eq!(manager.parse_message(&request), None);
}

#[test]
fn unroutable_envelope_is_dropped_even_if_it_asks_for_an_acknowledgment() {
    let mut ids = IdGenerator::new();
    let manager: ParserManager<Handler> = ParserManager::new();
    let mut request = Message::with_message("21".to_string(), 6, &mut ids);
    request.set_ack(true);
    assert_eq!(manager.parse_message(&request), None);
}

#[test]
fn silent_handler_is_acknowledged_on_request() {
    let mut ids = IdGenerator::starting_at(1234);
    let mut manager = ParserManager::new();
    assert!(manager.register_parser(Handler { route: 8, kind: Kind::Silent }));
    let mut request = Message::with_message("x".to_string(), 8, &mut ids);
    request.set_ack(true);
    let reply = manager.parse_message(&request).unwrap();
    assert_eq!(reply.get_message_id(), 1234);
    assert_eq!(reply.get_parser_id(), 0);
    assert!(!reply.get_ack());
    assert_eq!(reply.get_message(), "null");
}

#[test]
fn silent_handler_without_request_gives_no_reply() {
    let mut ids = IdGenerator::new();
    let mut manager = ParserManager::new();
    assert!(manager.register_parser(Handler { route: 8, kind: Kind::Silent }));
    let request = Message::with_message("x".to_string(), 8, &mut ids);
    assert_eq!(manager.parse_message(&request), None);
}

#[test]
fn answer_of_the_handler_stands_in_for_the_acknowledgment() {
    let mut ids = IdGenerator::starting_at(5);
    let mut manager = ParserManager::new();
    assert!(manager.register_parser(Handler { route: 2, kind: Kind::Say("done") }));
    let mut request = Message::with_message("x".to_string(), 2, &mut ids);
    request.set_ack(true);
    let reply = manager.parse_message(&request).unwrap();
    assert_eq!(reply.get_message(), "done");
    assert_eq!(reply.get_message_id(), 5);
}

#[test]
fn acknowledge_completes_a_missing_answer() {
    let mut request = Message::with_reply("q".to_string(), 31);
    request.set_parser_id(4);
    assert_eq!(acknowledge(&request, None), None);
    let answer = Message::with_reply("a".to_string(), 31);
    assert_eq!(acknowledge(&request, Some(answer.clone())), Some(answer.clone()));
    request.set_ack(true);
    assert_eq!(acknowledge(&request, Some(answer.clone())), Some(answer));
    assert_eq!(acknowledge(&request, None), Some(Message::with_reply("null".to_string(), 31)));
}

/// Answers every envelope with the length of its payload.
struct Length;

impl Parser for Length {
    fn parse_message(&self, message: &Message) -> Option<Message> {
        let length = message.get_message().len();
        Some(Message::with_reply(format!("{}", length), message.get_message_id()))
    }

    fn get_id(&self) -> u32 {
        11
    }
}

#[test]
fn handlers_of_different_types_share_a_registry() {
    let mut ids = IdGenerator::starting_at(3);
    let mut manager: ParserManager<Box<dyn Parser>> = ParserManager::new();
    assert!(manager.register_parser(Box::new(Handler { route: 5, kind: Kind::Double })));
    assert!(manager.register_parser(Box::new(Length)));
    assert!(!manager.register_parser(Box::new(Handler { route: 11, kind: Kind::Silent })));
    let to_double = Message::with_message("8".to_string(), 5, &mut ids);
    let to_length = Message::with_message("four".to_string(), 11, &mut ids);
    assert_eq!(manager.parse_message(&to_double), Some(Message::with_reply("16".to_string(), 3)));
    assert_eq!(manager.parse_message(&to_length), Some(Message::with_reply("4".to_string(), 4)));
}

#[test]
fn boxed_handler_answers_as_the_handler_in_the_box() {
    let mut ids = IdGenerator::starting_at(20);
    let plain = Handler { route: 5, kind: Kind::Double };
    let boxed: Box<dyn Parser> = Box::new(Handler { route: 5, kind: Kind::Double });
    assert_eq!(boxed.get_id(), 5);
    assert_eq!(boxed.get_id(), plain.get_id());
    let request = Message::with_message("21".to_string(), 5, &mut ids);
    assert_eq!(boxed.parse_message(&request), Some(Message::with_reply("42".to_string(), 20)));
    assert_eq!(boxed.parse_message(&request), plain.parse_message(&request));
    let silent: Box<dyn Parser> = Box::new(Handler { route: 9, kind: Kind::Silent });
    assert_eq!(silent.get_id(), 9);
    assert_eq!(silent.parse_message(&request), None);
}

use piserverrust::message::{IdGenerator, Message, REPLY_MESSAGE_PARSER_ID};

#[test]
fn new_envelope_has_defaults_and_a_fresh_id() {
    let mut ids = IdGenerator::new();
    let first = Message::new(&mut ids);
    let second = Message::new(&mut ids);
    assert!(!first.get_ack());
    assert_eq!(first.get_message_id(), 0);
    assert_eq!(first.get_parser_id(), 0);
    assert_eq!(first.get_message(), "");
    assert_eq!(second.get_message_id(), 1);
}

#[test]
fn routed_envelope_carries_route_and_payload() {
    let mut ids = IdGenerator::starting_at(40);
    let m = Message::with_message("{\"x\":1}".to_string(), 7, &mut ids);
    assert!(!m.get_ack());
    assert_eq!(m.get_message_id(), 40);
    assert_eq!(m.get_parser_id(), 7);
    assert_eq!(m.get_message(), "{\"x\":1}");
    assert_eq!(Message::next_id(&mut ids), 41);
}

#[test]
fn reply_carries_the_id_replied_to_and_the_reserved_route() {
    let reply = Message::with_reply("42".to_string(), 9);
    assert_eq!(REPLY_MESSAGE_PARSER_ID, 0);
    assert!(!reply.get_ack());
    assert_eq!(reply.get_message_id(), 9);
    assert_eq!(reply.get_parser_id(), REPLY_MESSAGE_PARSER_ID);
    assert_eq!(reply.get_message(), "42");
}

#[test]
fn ids_are_handed_out_in_order() {
    let mut ids = IdGenerator::new();
    for expected in 0..1000u32 {
        assert_eq!(Message::next_id(&mut ids), expected);
    }
}

#[test]
fn ids_wrap_at_the_end_of_the_counter() {
    let mut ids = IdGenerator::starting_at(u32::MAX - 1);
    assert_eq!(Message::next_id(&mut ids), u32::MAX - 1);
    assert_eq!(Message::next_id(&mut ids), u32::MAX);
    assert_eq!(Message::next_id(&mut ids), 0);
    assert_eq!(Message::next_id(&mut ids), 1);
}

#[test]
fn setters_replace_one_field_each() {
    let mut m = Message::with_reply("a".to_string(), 3);
    m.set_ack(true);
    assert!(m.get_ack());
    assert_eq!((m.get_message_id(), m.get_parser_id()), (3, 0));
    assert_eq!(m.get_message(), "a");
    m.set_parser_id(12);
    assert_eq!(m.get_parser_id(), 12);
    assert!(m.get_ack());
    assert_eq!(m.get_message_id(), 3);
    m.set_message("b".to_string());
    assert_eq!(m.get_message(), "b");
    assert_eq!((m.get_ack(), m.get_message_id(), m.get_parser_id()), (true, 3, 12));
    m.set_ack(false);
    assert!(!m.get_ack());
}

#[test]
fn copy_equals_the_envelope() {
    let mut ids = IdGenerator::starting_at(17);
    let mut m = Message::with_message("payload".to_string(), 4, &mut ids);
    m.set_ack(true);
    let copy = m.clone();
    assert_eq!(copy, m);
    assert_eq!(copy.get_message_id(), 17);
    assert_eq!(copy.get_parser_id(), 4);
    assert!(copy.get_ack());
    assert_eq!(copy.get_message(), "payload");
}

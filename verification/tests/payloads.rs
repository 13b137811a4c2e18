use piserverrust::core_messages::Ping;

#[test]
fn new_ping_is_not_relayed() {
    let ping = Ping::new();
    assert_eq!((ping.relay_count(), ping.total_relays(), ping.delay_ms()), (0, 0, 0));
}

#[test]
fn ping_with_relay_keeps_its_plan() {
    let ping = Ping::with_relay(3, 250);
    assert_eq!((ping.relay_count(), ping.total_relays(), ping.delay_ms()), (0, 3, 250));
    assert_eq!(ping, Ping::with_relay(3, 250));
    assert_ne!(ping, Ping::new());
}

use kite_connect::ticker::{
    next_action, KiteTicker, Scaled, TickerAction, TickerCommand, TickerEvent, WS_URL,
};

#[test]
fn connection_url_carries_credentials() {
    let t = KiteTicker::new("key123", "tok456");
    assert_eq!(WS_URL, "wss://ws.kite.trade");
    assert_eq!(
        t.connection_url(),
        "wss://ws.kite.trade?api_key=key123&access_token=tok456"
    );
}

#[test]
fn new_ticker_sends_nothing_first() {
    let t = KiteTicker::new("k", "t");
    assert!(t.initial_messages().is_empty());
}

#[test]
fn subscribe_message_is_compact_json() {
    let cmd = TickerCommand::Subscribe(vec![53496579, 53496071]);
    assert_eq!(cmd.message(), r#"{"a":"subscribe","v":[53496579,53496071]}"#);
}

#[test]
fn unsubscribe_message_is_compact_json() {
    let cmd = TickerCommand::Unsubscribe(vec![1]);
    assert_eq!(cmd.message(), r#"{"a":"unsubscribe","v":[1]}"#);
}

#[test]
fn mode_message_pairs_mode_with_tokens() {
    let cmd = TickerCommand::SetMode("full".to_string(), vec![5, 6]);
    assert_eq!(cmd.message(), r#"{"a":"mode","v":["full",[5,6]]}"#);
    let empty = TickerCommand::SetMode("ltp".to_string(), vec![]);
    assert_eq!(empty.message(), r#"{"a":"mode","v":["ltp",[]]}"#);
}

#[test]
fn binary_frames_are_decoded_and_delivered() {
    let mut data = vec![0, 1, 0, 8];
    data.extend_from_slice(&0x0000_0101i32.to_be_bytes());
    data.extend_from_slice(&4321i32.to_be_bytes());
    match next_action(&TickerEvent::Binary(data)) {
        TickerAction::Deliver(ticks) => {
            assert_eq!(ticks.len(), 1);
            assert_eq!(ticks[0].last_price, Scaled { raw: 4321, divisor: 100 });
        }
        _ => panic!("expected ticks"),
    }
}

#[test]
fn short_or_empty_frames_are_ignored() {
    assert!(matches!(next_action(&TickerEvent::Binary(vec![0, 1])), TickerAction::Ignore));
    // A heartbeat-like frame announcing no packets.
    assert!(matches!(next_action(&TickerEvent::Binary(vec![0, 0, 0])), TickerAction::Ignore));
}

#[test]
fn unacceptable_frames_abort() {
    assert!(matches!(
        next_action(&TickerEvent::Binary(vec![0xFF, 0xFF, 0])),
        TickerAction::Abort
    ));
}

#[test]
fn other_events() {
    assert!(matches!(
        next_action(&TickerEvent::Text("{\"type\":\"order\"}".to_string())),
        TickerAction::Log
    ));
    assert!(matches!(next_action(&TickerEvent::Close), TickerAction::Reconnect));
    assert!(matches!(next_action(&TickerEvent::Failure), TickerAction::Reconnect));
    assert!(matches!(next_action(&TickerEvent::Other), TickerAction::Ignore));
    assert!(matches!(next_action(&TickerEvent::ConnectFailure), TickerAction::RetryAfter(1000)));
}

#[test]
fn recorded_subscriptions_are_renewed() {
    let mut t = KiteTicker::new("k", "t");
    t.record(&TickerCommand::Subscribe(vec![5]));
    t.record(&TickerCommand::SetMode("full".to_string(), vec![5]));
    let msgs = t.initial_messages();
    assert_eq!(
        msgs,
        vec![r#"{"a":"subscribe","v":[5]}"#.to_string(), r#"{"a":"mode","v":["quote",[5]]}"#.to_string()]
    );
    t.record(&TickerCommand::Subscribe(vec![7, 8]));
    let msgs = t.initial_messages();
    assert_eq!(msgs.len(), 2);
    for token in ["5", "7", "8"] {
        assert!(msgs[0].contains(token));
        assert!(msgs[1].contains(token));
    }
    t.record(&TickerCommand::Unsubscribe(vec![5, 7, 8, 9]));
    assert!(t.initial_messages().is_empty());
    assert_eq!(t.connection_url(), "wss://ws.kite.trade?api_key=k&access_token=t");
}

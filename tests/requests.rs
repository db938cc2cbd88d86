use agg_ws::app::{App, Outcome};
use agg_ws::client::{Channel, ChannelType, ClientReq, ClientResp, Exchange};
use agg_ws::error::Error;

fn channel(exchange: Exchange, kind: ChannelType, market: &str) -> Channel {
    Channel { exchange, channel: kind, market: market.to_string() }
}

#[test]
fn start_twice_fails() {
    let mut app = App::new();
    let c = channel(Exchange::Kraken, ChannelType::Tape, "XBT/USD");
    assert!(matches!(app.handle_client_req(ClientReq::Start { channel: c.clone() }), Outcome::Connect(_)));
    app.insert_socket(c.clone());
    let second = app.handle_client_req(ClientReq::Start { channel: c.clone() });
    assert!(matches!(second, Outcome::Reply(Err(Error::ChannelAlreadySubscribed))));
    let book = channel(Exchange::Kraken, ChannelType::Book, "XBT/USD");
    assert!(matches!(app.handle_client_req(ClientReq::Start { channel: book.clone() }), Outcome::Connect(_)));
    let again = app.handle_client_req(ClientReq::Start { channel: book });
    assert!(matches!(again, Outcome::Reply(Err(Error::ChannelAlreadySubscribed))));
}

#[test]
fn never_started_channel_fails() {
    let mut app = App::new();
    let c = channel(Exchange::Gdax, ChannelType::Tape, "BTC-USD");
    let r = app.handle_client_req(ClientReq::Tape { channel: c.clone() });
    assert!(matches!(r, Outcome::Reply(Err(Error::ChannelDoesNotExist))));
    let r = app.handle_client_req(ClientReq::Book { channel: c.clone() });
    assert!(matches!(r, Outcome::Reply(Err(Error::ChannelDoesNotExist))));
    let r = app.handle_client_req(ClientReq::Last { channel: c.clone() });
    assert!(matches!(r, Outcome::Reply(Err(Error::SocketDoesNotExist))));
    let r = app.handle_client_req(ClientReq::Stop { channel: c });
    assert!(matches!(r, Outcome::Reply(Err(Error::SocketDoesNotExist))));
}

#[test]
fn stop_keeps_state_and_drops_connection() {
    let mut app = App::new();
    let c = channel(Exchange::Gdax, ChannelType::Tape, "BTC-USD");
    app.handle_client_req(ClientReq::Start { channel: c.clone() });
    app.insert_socket(c.clone());
    assert!(matches!(
        app.handle_client_req(ClientReq::Last { channel: c.clone() }),
        Outcome::Reply(Ok(ClientResp::Last(_)))
    ));
    match app.handle_client_req(ClientReq::Stop { channel: c.clone() }) {
        Outcome::Disconnect(ch, text) => {
            assert_eq!(ch, c);
            assert_eq!(
                text,
                r#"{"channels":[{"name":"ticker","product_ids":["BTC-USD"]}],"type":"unsubscribe"}"#
            );
        },
        other => panic!("unexpected {:?}", other),
    }
    let r = app.handle_client_req(ClientReq::Last { channel: c.clone() });
    assert!(matches!(r, Outcome::Reply(Err(Error::SocketDoesNotExist))));
    let r = app.handle_client_req(ClientReq::Tape { channel: c.clone() });
    assert!(matches!(r, Outcome::Reply(Ok(ClientResp::Tape(_)))));
    let r = app.handle_client_req(ClientReq::Stop { channel: c.clone() });
    assert!(matches!(r, Outcome::Reply(Err(Error::SocketDoesNotExist))));
    let r = app.handle_client_req(ClientReq::Start { channel: c });
    assert!(matches!(r, Outcome::Reply(Err(Error::ChannelAlreadySubscribed))));
}

#[test]
fn last_moves_forward_on_frames() {
    let mut app = App::new();
    let c = channel(Exchange::Gdax, ChannelType::Book, "BTC-USD");
    app.handle_client_req(ClientReq::Start { channel: c.clone() });
    app.insert_socket(c.clone());
    let first = match app.handle_client_req(ClientReq::Last { channel: c.clone() }) {
        Outcome::Reply(Ok(ClientResp::Last(t))) => t,
        other => panic!("unexpected {:?}", other),
    };
    assert!(first.secs > 1_600_000_000);
    assert!(app.update_last(c.clone()).is_ok());
    let second = match app.handle_client_req(ClientReq::Last { channel: c.clone() }) {
        Outcome::Reply(Ok(ClientResp::Last(t))) => t,
        other => panic!("unexpected {:?}", other),
    };
    assert!((second.secs, second.nanos) >= (first.secs, first.nanos));
}

#[test]
fn subscribe_messages() {
    let c = channel(Exchange::Gdax, ChannelType::Book, "BTC-USD");
    assert_eq!(
        c.subscribe_message(),
        r#"{"channels":[{"name":"level2_batch","product_ids":["BTC-USD"]}],"type":"subscribe"}"#
    );
    let c = channel(Exchange::Kraken, ChannelType::Book, "XBT/USD");
    assert_eq!(
        c.subscribe_message(),
        r#"{"event":"subscribe","pair":["XBT/USD"],"subscription":{"depth":100,"name":"book"}}"#
    );
    let c = channel(Exchange::Kraken, ChannelType::Tape, "XBT/USD");
    assert_eq!(
        c.subscribe_message(),
        r#"{"event":"subscribe","pair":["XBT/USD"],"subscription":{"name":"trade"}}"#
    );
    let c = channel(Exchange::Hyperliquid, ChannelType::Tape, "BTC");
    assert_eq!(
        c.subscribe_message(),
        r#"{"method":"subscribe","subscription":{"coin":"BTC","type":"trades"}}"#
    );
    let c = channel(Exchange::Hyperliquid, ChannelType::Book, "BTC");
    assert_eq!(
        c.subscribe_message(),
        r#"{"method":"subscribe","subscription":{"coin":"BTC","type":"l2Book"}}"#
    );
    let c = channel(Exchange::Gdax, ChannelType::Tape, "ETH-USD");
    assert_eq!(
        c.subscribe_message_tape(),
        r#"{"channels":[{"name":"ticker","product_ids":["ETH-USD"]}],"type":"subscribe"}"#
    );
}

#[test]
fn unsubscribe_messages() {
    let c = channel(Exchange::Kraken, ChannelType::Book, "XBT/USD");
    assert_eq!(
        c.unsubscribe_message(),
        r#"{"event":"unsubscribe","pair":["XBT/USD"],"subscription":{"depth":100,"name":"book"}}"#
    );
    let c = channel(Exchange::Hyperliquid, ChannelType::Book, "BTC");
    assert_eq!(
        c.unsubscribe_message(),
        r#"{"method":"unsubscribe","subscription":{"coin":"BTC","type":"l2Book"}}"#
    );
    let c = channel(Exchange::Hyperliquid, ChannelType::Tape, "BTC");
    assert_eq!(
        c.unsubscribe_message_tape(),
        r#"{"method":"unsubscribe","subscription":{"coin":"BTC","type":"trades"}}"#
    );
    let c = channel(Exchange::Gdax, ChannelType::Book, "BTC-USD");
    assert_eq!(
        c.unsubscribe_message_book(),
        r#"{"channels":[{"name":"level2_batch","product_ids":["BTC-USD"]}],"type":"unsubscribe"}"#
    );
}

#[test]
fn market_is_escaped_as_json() {
    let c = channel(Exchange::Hyperliquid, ChannelType::Tape, "B\"T\\C");
    assert_eq!(
        c.subscribe_message(),
        r#"{"method":"subscribe","subscription":{"coin":"B\"T\\C","type":"trades"}}"#
    );
}

#[test]
fn exchange_display_names() {
    assert_eq!(Exchange::Gdax.as_display(), "Coinbase");
    assert_eq!(Exchange::Kraken.as_display(), "Kraken");
    assert_eq!(Exchange::Hyperliquid.as_display(), "Hyperliquid");
}

#[test]
fn decimals_outside_range_are_refused() {
    assert!(agg_ws::decimal::Dec::new(1, 29).is_none());
    assert!(agg_ws::decimal::Dec::new(1i128 << 96, 0).is_none());
    assert!(agg_ws::decimal::Dec::new(-(1i128 << 96) + 1, 28).is_some());
}

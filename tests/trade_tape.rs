use std::str::FromStr;

use agg_ws::app::{App, Frame, Outcome, Payload};
use agg_ws::app::TradeSide;
use agg_ws::client::{Channel, ChannelType, ClientReq, ClientResp, Exchange};
use agg_ws::decimal::Dec;
use agg_ws::error::Error;
use agg_ws::gdax;
use agg_ws::hyperliquid;
use agg_ws::kraken;
use agg_ws::timestamp::UtcTime;
use agg_ws::trades::{Tape, Trade};

fn dec(s: &str) -> Dec {
    let d = rust_decimal::Decimal::from_str(s).unwrap();
    Dec::new(d.mantissa(), d.scale()).unwrap()
}

fn channel(exchange: Exchange, kind: ChannelType) -> Channel {
    Channel { exchange, channel: kind, market: "BTC-USD".to_string() }
}

fn started(exchange: Exchange, kind: ChannelType) -> (App, Channel) {
    let mut app = App::new();
    let c = channel(exchange, kind);
    match app.handle_client_req(ClientReq::Start { channel: c.clone() }) {
        Outcome::Connect(ch) => assert_eq!(ch, c),
        other => panic!("unexpected {:?}", other),
    }
    app.insert_socket(c.clone());
    (app, c)
}

fn tape_of(app: &mut App, c: &Channel) -> Vec<Trade> {
    match app.handle_client_req(ClientReq::Tape { channel: c.clone() }) {
        Outcome::Reply(Ok(ClientResp::Tape(q))) => q.into_iter().collect(),
        other => panic!("unexpected {:?}", other),
    }
}

fn ticker(price: &str, time: &str) -> gdax::Ticker {
    gdax::Ticker {
        sequence: 37475248783,
        product_id: "BTC-USD".to_string(),
        price: price.to_string(),
        side: TradeSide::Buy,
        time: time.to_string(),
        size: "11.4396987".to_string(),
    }
}

fn gdax_frame(r: gdax::Response) -> Result<Frame<Payload>, Error> {
    Ok(Frame::Text(String::new(), Ok(Payload::Gdax(r))))
}

fn ws_trade(price: &str, volume: &str, time: &str) -> kraken::WsTrade {
    kraken::WsTrade {
        price: dec(price),
        volume: dec(volume),
        time: dec(time),
        side: "b".to_string(),
        order_type: "l".to_string(),
        misc: String::new(),
    }
}

fn hl_trade(px: &str, time: i64) -> hyperliquid::Trade {
    hyperliquid::Trade {
        coin: "BTC".to_string(),
        side: "A".to_string(),
        px: px.to_string(),
        sz: "0.03019".to_string(),
        time,
        hash: "0x92c9".to_string(),
    }
}

fn numbered(i: i64) -> Trade {
    Trade {
        price: format!("{}", i),
        size: "1".to_string(),
        dt: UtcTime::from_millis(i),
        exchange: Exchange::Hyperliquid,
    }
}

#[test]
fn tape_keeps_the_last_hundred_in_order() {
    let mut tape = Tape::new();
    for i in 0..101 {
        tape.push(numbered(i));
    }
    let kept: Vec<String> = tape.to_deque().iter().map(|t| t.price.clone()).collect();
    let expected: Vec<String> = (1..101).map(|i| format!("{}", i)).collect();
    assert_eq!(kept, expected);
}

#[test]
fn tape_channel_keeps_the_last_hundred_trades() {
    let (mut app, c) = started(Exchange::Hyperliquid, ChannelType::Tape);
    let trades: Vec<hyperliquid::Trade> =
        (0..101).map(|i| hl_trade(&format!("{}.0", 26000 + i), 1686270368980 + i)).collect();
    let msg = Ok(Frame::Text(
        String::new(),
        Ok(Payload::Hyperliquid(hyperliquid::Response::Trades(trades))),
    ));
    assert!(app.handle_ws_msg(c.clone(), msg).is_ok());
    let tape = tape_of(&mut app, &c);
    assert_eq!(tape.len(), 100);
    assert_eq!(tape[0].price, "26001.0");
    assert_eq!(tape[99].price, "26100.0");
}

#[test]
fn three_gdax_trades_arrive_in_order() {
    let (mut app, c) = started(Exchange::Gdax, ChannelType::Tape);
    for price in ["100.0", "100.5", "101.0"] {
        let msg = gdax_frame(gdax::Response::Ticker(ticker(price, "2022-10-19T23:28:22.061769Z")));
        assert!(app.handle_ws_msg(c.clone(), msg).is_ok());
    }
    let tape = tape_of(&mut app, &c);
    let prices: Vec<&str> = tape.iter().map(|t| t.price.as_str()).collect();
    assert_eq!(prices, vec!["100.0", "100.5", "101.0"]);
    assert!(tape.iter().all(|t| t.exchange == Exchange::Gdax));
    assert!(tape.iter().all(|t| t.size == "11.4396987"));
}

#[test]
fn times_normalize_to_utc_for_each_exchange() {
    let (mut app, c) = started(Exchange::Gdax, ChannelType::Tape);
    let msg = gdax_frame(gdax::Response::Ticker(ticker("1285.22", "2022-10-19T23:28:22.061769Z")));
    assert!(app.handle_ws_msg(c.clone(), msg).is_ok());
    let g = tape_of(&mut app, &c);
    assert_eq!(g[0].dt, UtcTime { secs: 1666222102, nanos: 61769000 });

    let (mut app, c) = started(Exchange::Kraken, ChannelType::Tape);
    let trade = kraken::Trade {
        channel_id: 337,
        trades: vec![ws_trade("25782.90000", "0.01", "1685895944.62050")],
        channel_name: "trade".to_string(),
        pair: "XBT/USD".to_string(),
    };
    let msg = Ok(Frame::Text(String::new(), Ok(Payload::Kraken(kraken::Response::Trade(trade)))));
    assert!(app.handle_ws_msg(c.clone(), msg).is_ok());
    let k = tape_of(&mut app, &c);
    assert_eq!(k[0].dt, UtcTime { secs: 1685895944, nanos: 620500000 });
    assert_eq!(k[0].price, "25782.90000");
    assert_eq!(k[0].size, "0.01");
    assert_eq!(k[0].exchange, Exchange::Kraken);

    let (mut app, c) = started(Exchange::Hyperliquid, ChannelType::Tape);
    let msg = Ok(Frame::Text(
        String::new(),
        Ok(Payload::Hyperliquid(hyperliquid::Response::Trades(vec![hl_trade(
            "26433.0",
            1686270879026,
        )]))),
    ));
    assert!(app.handle_ws_msg(c.clone(), msg).is_ok());
    let h = tape_of(&mut app, &c);
    assert_eq!(h[0].dt, UtcTime { secs: 1686270879, nanos: 26000000 });
    assert_eq!(h[0].price, "26433.0");
    assert_eq!(h[0].exchange, Exchange::Hyperliquid);
}

#[test]
fn convert_kraken_date() {
    let t = UtcTime::from_decimal_seconds(&dec("1685895944.62050")).unwrap();
    assert_eq!(t, UtcTime { secs: 1685895944, nanos: 620500000 });
}

#[test]
fn convert_hyperliquid_date() {
    let t = UtcTime::from_millis(1686270368980);
    assert_eq!(t, UtcTime { secs: 1686270368, nanos: 980000000 });
}

#[test]
fn times_before_1970_count_back() {
    assert_eq!(UtcTime::from_millis(-1), UtcTime { secs: -1, nanos: 999000000 });
    assert_eq!(UtcTime::from_nanos(-1), UtcTime { secs: -1, nanos: 999999999 });
    let t = UtcTime::from_decimal_seconds(&dec("-1.5")).unwrap();
    assert_eq!(t, UtcTime { secs: -2, nanos: 500000000 });
}

#[test]
fn kraken_time_out_of_range_is_none() {
    assert!(UtcTime::from_decimal_seconds(&dec("10000000000000")).is_none());
}

#[test]
fn trade_on_book_channel_is_a_mismatch() {
    let (mut app, c) = started(Exchange::Gdax, ChannelType::Book);
    let snapshot = gdax::Snapshot {
        product_id: "BTC-USD".to_string(),
        bids: vec![agg_ws::book::Level { price: dec("10"), size: dec("1") }],
        asks: vec![],
    };
    app.insert_gdax_snapshot(c.clone(), snapshot);
    let msg = gdax_frame(gdax::Response::Ticker(ticker("100.0", "2022-10-19T23:28:22.061769Z")));
    let r = app.handle_ws_msg(c.clone(), msg);
    assert!(matches!(r, Err(Error::ChannelResponseMismatch)));
    match app.handle_client_req(ClientReq::Book { channel: c.clone() }) {
        Outcome::Reply(Ok(ClientResp::Book(b))) => {
            assert_eq!(b.bids.len(), 1);
            assert_eq!(b.bids[0].price, dec("10"));
            assert!(b.asks.is_empty());
        },
        other => panic!("unexpected {:?}", other),
    }
    let kraken_trade = kraken::Trade {
        channel_id: 1,
        trades: vec![ws_trade("1", "1", "1")],
        channel_name: "trade".to_string(),
        pair: "XBT/USD".to_string(),
    };
    let r = app.handle_ws_response_kraken(c.clone(), kraken::Response::Trade(kraken_trade));
    assert!(matches!(r, Err(Error::ChannelResponseMismatch)));
    let r = app.handle_ws_response_hyperliquid(
        c.clone(),
        hyperliquid::Response::Trades(vec![hl_trade("1.0", 1)]),
    );
    assert!(matches!(r, Err(Error::ChannelResponseMismatch)));
}

#[test]
fn payload_of_another_exchange_is_a_mismatch() {
    let (mut app, c) = started(Exchange::Kraken, ChannelType::Tape);
    let msg = gdax_frame(gdax::Response::Ticker(ticker("1.0", "2022-10-19T23:28:22Z")));
    assert!(matches!(app.handle_ws_msg(c.clone(), msg), Err(Error::ChannelResponseMismatch)));
    assert!(tape_of(&mut app, &c).is_empty());
}

#[test]
fn bad_ticker_time_is_a_decode_error() {
    let (mut app, c) = started(Exchange::Gdax, ChannelType::Tape);
    let msg = gdax_frame(gdax::Response::Ticker(ticker("1.0", "yesterday")));
    assert!(matches!(app.handle_ws_msg(c.clone(), msg), Err(Error::Decode(_))));
    assert!(tape_of(&mut app, &c).is_empty());
}

#[test]
fn kraken_batch_stops_at_first_bad_time() {
    let (mut app, c) = started(Exchange::Kraken, ChannelType::Tape);
    let trade = kraken::Trade {
        channel_id: 337,
        trades: vec![
            ws_trade("1.0", "1", "1685895944.1"),
            ws_trade("2.0", "1", "99999999999999"),
            ws_trade("3.0", "1", "1685895944.3"),
        ],
        channel_name: "trade".to_string(),
        pair: "XBT/USD".to_string(),
    };
    let r = app.handle_ws_response_kraken(c.clone(), kraken::Response::Trade(trade));
    assert!(matches!(r, Err(Error::Decode(_))));
    let tape = tape_of(&mut app, &c);
    assert_eq!(tape.len(), 1);
    assert_eq!(tape[0].price, "1.0");
}

#[test]
fn decode_and_transport_failures_pass_through() {
    let (mut app, c) = started(Exchange::Gdax, ChannelType::Tape);
    let r = app.handle_ws_msg(c.clone(), Err(Error::Transport("reset".to_string())));
    assert!(matches!(r, Err(Error::Transport(_))));
    let r = app.handle_ws_msg(c.clone(), Ok(Frame::Text("{".to_string(), Err(Error::Decode("eof".to_string())))));
    assert!(matches!(r, Err(Error::Decode(_))));
    assert!(app.handle_ws_msg(c.clone(), Ok(Frame::Other)).is_ok());
}

#[test]
fn hyperliquid_greeting_is_accepted() {
    let (mut app, c) = started(Exchange::Hyperliquid, ChannelType::Tape);
    let msg = Ok(Frame::Text(
        "Websocket connection established.".to_string(),
        Err(Error::Decode("expected value".to_string())),
    ));
    assert!(app.handle_ws_msg(c.clone(), msg).is_ok());
    let msg = Ok(Frame::Text(
        "something else".to_string(),
        Err(Error::Decode("expected value".to_string())),
    ));
    assert!(matches!(app.handle_ws_msg(c.clone(), msg), Err(Error::Decode(_))));
}

#[test]
fn informational_messages_change_nothing() {
    let (mut app, c) = started(Exchange::Kraken, ChannelType::Tape);
    let r = app.handle_ws_response_kraken(
        c.clone(),
        kraken::Response::TaggedResp(kraken::TaggedResp::Heartbeat),
    );
    assert!(r.is_ok());
    let hb = gdax::Heartbeat {
        time: "2014-11-07T08:19:28.464459Z".to_string(),
        product_id: "BTC-USD".to_string(),
        sequence: 90,
        last_trade_id: 20,
    };
    assert!(app.handle_ws_response_gdax(c.clone(), gdax::Response::Heartbeat(hb)).is_ok());
    assert!(tape_of(&mut app, &c).is_empty());
}

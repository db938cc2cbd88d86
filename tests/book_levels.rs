use std::str::FromStr;

use agg_ws::app::{App, Frame, Outcome, Payload, TradeSide};
use agg_ws::book::{set_level, set_levels, Book, Level};
use agg_ws::client::{Channel, ChannelType, ClientReq, ClientResp, Exchange};
use agg_ws::decimal::Dec;
use agg_ws::gdax;
use agg_ws::hyperliquid;
use agg_ws::kraken;

fn dec(s: &str) -> Dec {
    let d = rust_decimal::Decimal::from_str(s).unwrap();
    Dec::new(d.mantissa(), d.scale()).unwrap()
}

fn level(price: &str, size: &str) -> Level {
    Level { price: dec(price), size: dec(size) }
}

fn pairs(side: &[Level]) -> Vec<(String, String)> {
    side.iter()
        .map(|l| {
            (
                rust_decimal::Decimal::from_i128_with_scale(l.price.mantissa, l.price.scale)
                    .to_string(),
                rust_decimal::Decimal::from_i128_with_scale(l.size.mantissa, l.size.scale)
                    .to_string(),
            )
        })
        .collect()
}

fn p(a: &str, b: &str) -> (String, String) {
    (a.to_string(), b.to_string())
}

fn book_channel(exchange: Exchange) -> Channel {
    Channel { exchange, channel: ChannelType::Book, market: "BTC-USD".to_string() }
}

fn started_book(exchange: Exchange) -> (App, Channel) {
    let mut app = App::new();
    let c = book_channel(exchange);
    match app.handle_client_req(ClientReq::Start { channel: c.clone() }) {
        Outcome::Connect(ch) => assert_eq!(ch, c),
        other => panic!("unexpected {:?}", other),
    }
    app.insert_socket(c.clone());
    (app, c)
}

fn book_of(app: &mut App, c: &Channel) -> Book {
    match app.handle_client_req(ClientReq::Book { channel: c.clone() }) {
        Outcome::Reply(Ok(ClientResp::Book(b))) => b,
        other => panic!("unexpected {:?}", other),
    }
}

#[test]
fn levels_are_kept_in_price_order() {
    let mut side = Vec::new();
    set_level(&mut side, level("11", "2"));
    set_level(&mut side, level("9.5", "1"));
    set_level(&mut side, level("10", "3"));
    assert_eq!(pairs(&side), vec![p("9.5", "1"), p("10", "3"), p("11", "2")]);
}

#[test]
fn zero_size_removes_existing_price() {
    let mut side = Vec::new();
    set_level(&mut side, level("10", "1"));
    set_level(&mut side, level("11", "2"));
    set_level(&mut side, level("10", "0"));
    assert_eq!(pairs(&side), vec![p("11", "2")]);
}

#[test]
fn zero_size_for_absent_price_is_a_no_op() {
    let mut side = Vec::new();
    set_level(&mut side, level("10", "1"));
    set_level(&mut side, level("12", "0"));
    assert_eq!(pairs(&side), vec![p("10", "1")]);
}

#[test]
fn nonzero_size_overwrites_rather_than_accumulates() {
    let mut side = Vec::new();
    set_level(&mut side, level("10", "1"));
    set_level(&mut side, level("10", "5"));
    assert_eq!(pairs(&side), vec![p("10", "5")]);
}

#[test]
fn equal_prices_at_other_scales_are_one_level() {
    let mut side = Vec::new();
    set_level(&mut side, level("10.0", "1"));
    set_level(&mut side, level("10.00", "4"));
    assert_eq!(pairs(&side), vec![p("10.0", "4")]);
    set_level(&mut side, level("10", "0.000"));
    assert!(side.is_empty());
}

#[test]
fn last_write_per_price_wins_in_one_batch() {
    let mut side = Vec::new();
    let updates = vec![level("10", "1"), level("10", "2"), level("12", "0"), level("11", "3")];
    set_levels(&mut side, &updates);
    assert_eq!(pairs(&side), vec![p("10", "2"), p("11", "3")]);
}

#[test]
fn snapshot_replaces_whole_book() {
    let (mut app, c) = started_book(Exchange::Gdax);
    let first = gdax::Snapshot {
        product_id: "BTC-USD".to_string(),
        bids: vec![level("10", "1"), level("11", "2")],
        asks: vec![level("13", "1")],
    };
    app.insert_gdax_snapshot(c.clone(), first);
    let b = book_of(&mut app, &c);
    assert_eq!(pairs(&b.bids), vec![p("10", "1"), p("11", "2")]);
    let second = gdax::Snapshot {
        product_id: "BTC-USD".to_string(),
        bids: vec![level("12", "3")],
        asks: vec![],
    };
    app.insert_gdax_snapshot(c.clone(), second);
    let b = book_of(&mut app, &c);
    assert_eq!(pairs(&b.bids), vec![p("12", "3")]);
    assert!(b.asks.is_empty());
}

#[test]
fn gdax_l2update_applies_changes_by_side() {
    let (mut app, c) = started_book(Exchange::Gdax);
    let update = gdax::L2update {
        product_id: "BTC-USD".to_string(),
        time: "2022-10-19T23:28:22.061769Z".to_string(),
        changes: vec![
            (TradeSide::Buy, dec("10"), dec("1")),
            (TradeSide::Sell, dec("12"), dec("2")),
            (TradeSide::Buy, dec("10"), dec("0")),
            (TradeSide::Buy, dec("9"), dec("4")),
        ],
    };
    let msg = Ok(Frame::Text(String::new(), Ok(Payload::Gdax(gdax::Response::L2update(update)))));
    assert!(app.handle_ws_msg(c.clone(), msg).is_ok());
    let b = book_of(&mut app, &c);
    assert_eq!(pairs(&b.bids), vec![p("9", "4")]);
    assert_eq!(pairs(&b.asks), vec![p("12", "2")]);
}

fn kraken_level(price: &str, volume: &str) -> kraken::Level {
    kraken::Level {
        price: dec(price),
        volume: dec(volume),
        timestamp: dec("1686499924.936167"),
        update_type: None,
    }
}

#[test]
fn kraken_snapshot_and_updates() {
    let (mut app, c) = started_book(Exchange::Kraken);
    let snapshot = kraken::Snapshot {
        channel_id: 336,
        snapshot: kraken::BidAsks {
            asks: vec![kraken_level("25783.0", "1.5")],
            bs: vec![kraken_level("25780.0", "2.0"), kraken_level("25779.0", "1.0")],
        },
        channel_name: "book-100".to_string(),
        pair: "XBT/USD".to_string(),
    };
    let r = app.handle_ws_response_kraken(c.clone(), kraken::Response::Snapshot(snapshot));
    assert!(r.is_ok());
    let ask = kraken::L2updateAsk {
        channel_id: 336,
        ask: kraken::Asks {
            update: vec![kraken_level("25782.90000", "1.17100399")],
            c: Some("3184832790".to_string()),
        },
        channel_name: "book-100".to_string(),
        pair: "XBT/USD".to_string(),
    };
    assert!(app.handle_ws_response_kraken(c.clone(), kraken::Response::L2updateAsk(ask)).is_ok());
    let both = kraken::L2updateBoth {
        channel_id: 336,
        ask: kraken::Asks { update: vec![kraken_level("25783.0", "0")], c: None },
        bid: kraken::Bids { update: vec![kraken_level("25779.0", "0.0")], c: None },
        channel_name: "book-100".to_string(),
        pair: "XBT/USD".to_string(),
    };
    assert!(app.handle_ws_response_kraken(c.clone(), kraken::Response::L2updateBoth(both)).is_ok());
    let b = book_of(&mut app, &c);
    assert_eq!(pairs(&b.bids), vec![p("25780.0", "2.0")]);
    assert_eq!(pairs(&b.asks), vec![p("25782.90000", "1.17100399")]);
}

#[test]
fn hyperliquid_book_is_a_snapshot() {
    let (mut app, c) = started_book(Exchange::Hyperliquid);
    let book = hyperliquid::L2Book {
        coin: "BTC".to_string(),
        time: 1686537736732,
        levels: hyperliquid::Levels {
            bids: vec![
                hyperliquid::Level { n: 2, px: dec("25748.0"), sz: dec("0.07332") },
                hyperliquid::Level { n: 2, px: dec("25745.0"), sz: dec("1.58759") },
            ],
            asks: vec![hyperliquid::Level { n: 2, px: dec("25775.0"), sz: dec("0.03637") }],
        },
    };
    let msg = Ok(Frame::Text(
        String::new(),
        Ok(Payload::Hyperliquid(hyperliquid::Response::L2Book(book))),
    ));
    assert!(app.handle_ws_msg(c.clone(), msg).is_ok());
    let b = book_of(&mut app, &c);
    assert_eq!(pairs(&b.bids), vec![p("25745.0", "1.58759"), p("25748.0", "0.07332")]);
    assert_eq!(pairs(&b.asks), vec![p("25775.0", "0.03637")]);
}

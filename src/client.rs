use std::collections::VecDeque;
use vstd::prelude::*;

use crate::book::Book;
use crate::channels::ChannelMap;
use crate::trades::{Tape, Trade};
use crate::timestamp::UtcTime;

verus! {

/// The exchanges whose feeds are aggregated.
#[derive(Debug, Clone, Copy, PartialEq, Eq, Hash, Structural)]
pub enum Exchange {
    Gdax,
    Kraken,
    Hyperliquid,
}

/// The name under which an exchange is shown to people.
pub open spec fn display_name(e: Exchange) -> Seq<char> {
    match e {
        Exchange::Gdax => "Coinbase"@,
        Exchange::Kraken => "Kraken"@,
        Exchange::Hyperliquid => "Hyperliquid"@,
    }
}

impl Exchange {
    pub fn as_display(&self) -> (r: &'static str)
        ensures
            r@ == display_name(*self),
    {
        match self {
            Exchange::Gdax => "Coinbase",
            Exchange::Kraken => "Kraken",
            Exchange::Hyperliquid => "Hyperliquid",
        }
    }
}

/// What a channel carries: order book levels or trade prints.
#[derive(Debug, Clone, Copy, PartialEq, Eq, Hash, Structural)]
pub enum ChannelType {
    Book,
    Tape,
}

/// A subscription key: one kind of data for one market of one exchange.
#[derive(Debug, Hash)]
pub struct Channel {
    pub exchange: Exchange,
    pub channel: ChannelType,
    pub market: String,
}

/// The mathematical value of a channel key.
pub type ChannelKey = (Exchange, ChannelType, Seq<char>);

impl View for Channel {
    type V = ChannelKey;

    open spec fn view(&self) -> ChannelKey {
        (self.exchange, self.channel, self.market@)
    }
}

impl Clone for Channel {
    fn clone(&self) -> (r: Channel)
        ensures
            r == *self,
    {
        Channel { exchange: self.exchange, channel: self.channel, market: self.market.clone() }
    }
}

impl PartialEq for Channel {
    fn eq(&self, other: &Channel) -> (r: bool)
        ensures
            r == (self@ == other@),
    {
        self.exchange == other.exchange && self.channel == other.channel && self.market
            == other.market
    }
}

impl Eq for Channel {

}

impl vstd::std_specs::cmp::PartialEqSpecImpl for Channel {
    open spec fn obeys_eq_spec() -> bool {
        true
    }

    open spec fn eq_spec(&self, other: &Channel) -> bool {
        self@ == other@
    }
}

/// The tapes and books of all channels.
#[derive(Debug)]
pub struct State {
    /// The latest trades of each tape channel.
    pub tapes: ChannelMap<Tape>,
    /// The book of each book channel.
    pub books: ChannelMap<Book>,
}

impl State {
    pub open spec fn wf(&self) -> bool {
        self.tapes.wf() && self.books.wf()
    }

    /// No tapes and no books.
    pub fn new() -> (r: State)
        ensures
            r.wf(),
            r.tapes@ == Map::<ChannelKey, Seq<crate::trades::TradeView>>::empty(),
            r.books@ == Map::<ChannelKey, crate::book::BookView>::empty(),
    {
        State { tapes: ChannelMap::new(), books: ChannelMap::new() }
    }
}

impl Default for State {
    fn default() -> (r: State)
        ensures
            r.wf(),
            r.tapes@ == Map::<ChannelKey, Seq<crate::trades::TradeView>>::empty(),
            r.books@ == Map::<ChannelKey, crate::book::BookView>::empty(),
    {
        State::new()
    }
}

/// A client's request, for one channel.
#[derive(Debug)]
pub enum ClientReq {
    /// Create the channel's tape or book and open its connection.
    Start { channel: Channel },
    /// Unsubscribe and close the channel's connection.
    Stop { channel: Channel },
    /// A copy of the channel's tape.
    Tape { channel: Channel },
    /// A copy of the channel's book.
    Book { channel: Channel },
    /// When the channel's connection last received a frame.
    Last { channel: Channel },
}

/// A reply, tagged with its channel, as the concurrent client receives it.
#[derive(Debug)]
pub struct ClientRespMsg {
    pub channel: Channel,
    pub resp: ClientResp,
}

/// What a successful request returns.
#[derive(Debug)]
pub enum ClientResp {
    Subscribed,
    Unsubscribed,
    Tape(VecDeque<Trade>),
    Book(Book),
    Last(UtcTime),
}

/// The text of a JSON string literal, as serde_json writes it.
pub uninterp spec fn json_quoted(s: Seq<char>) -> Seq<char>;

/// Relies on serde_json's `to_string` of a `str`: the JSON string literal,
/// quoted and escaped. It writes into a `Vec`, which cannot fail.
#[verifier::external_body]
fn json_string(s: &str) -> (r: String)
    ensures
        r@ == json_quoted(s@),
{
    serde_json::to_string(s).unwrap_or_default()
}

/// `prefix`, then `market` as a JSON string literal, then `suffix`.
fn framed(prefix: &str, market: &String, suffix: &str) -> (r: String)
    ensures
        r@ == prefix@ + json_quoted(market@) + suffix@,
{
    let quoted = json_string(market.as_str());
    let mut r = String::new();
    r.append(prefix);
    r.append(quoted.as_str());
    r.append(suffix);
    proof {
        assert(r@ =~= prefix@ + json_quoted(market@) + suffix@);
    }
    r
}

/// The message that subscribes to a channel's book, as compact JSON with
/// keys in order.
pub open spec fn subscribe_book_text(e: Exchange, market: Seq<char>) -> Seq<char> {
    let q = json_quoted(market);
    match e {
        Exchange::Gdax => "{\"channels\":[{\"name\":\"level2_batch\",\"product_ids\":["@ + q
            + "]}],\"type\":\"subscribe\"}"@,
        Exchange::Kraken => "{\"event\":\"subscribe\",\"pair\":["@ + q
            + "],\"subscription\":{\"depth\":100,\"name\":\"book\"}}"@,
        Exchange::Hyperliquid => "{\"method\":\"subscribe\",\"subscription\":{\"coin\":"@ + q
            + ",\"type\":\"l2Book\"}}"@,
    }
}

/// The message that subscribes to a channel's trades.
pub open spec fn subscribe_tape_text(e: Exchange, market: Seq<char>) -> Seq<char> {
    let q = json_quoted(market);
    match e {
        Exchange::Gdax => "{\"channels\":[{\"name\":\"ticker\",\"product_ids\":["@ + q
            + "]}],\"type\":\"subscribe\"}"@,
        Exchange::Kraken => "{\"event\":\"subscribe\",\"pair\":["@ + q
            + "],\"subscription\":{\"name\":\"trade\"}}"@,
        Exchange::Hyperliquid => "{\"method\":\"subscribe\",\"subscription\":{\"coin\":"@ + q
            + ",\"type\":\"trades\"}}"@,
    }
}

/// The message that unsubscribes from a channel's book.
pub open spec fn unsubscribe_book_text(e: Exchange, market: Seq<char>) -> Seq<char> {
    let q = json_quoted(market);
    match e {
        Exchange::Gdax => "{\"channels\":[{\"name\":\"level2_batch\",\"product_ids\":["@ + q
            + "]}],\"type\":\"unsubscribe\"}"@,
        Exchange::Kraken => "{\"event\":\"unsubscribe\",\"pair\":["@ + q
            + "],\"subscription\":{\"depth\":100,\"name\":\"book\"}}"@,
        Exchange::Hyperliquid => "{\"method\":\"unsubscribe\",\"subscription\":{\"coin\":"@ + q
            + ",\"type\":\"l2Book\"}}"@,
    }
}

/// The message that unsubscribes from a channel's trades.
pub open spec fn unsubscribe_tape_text(e: Exchange, market: Seq<char>) -> Seq<char> {
    let q = json_quoted(market);
    match e {
        Exchange::Gdax => "{\"channels\":[{\"name\":\"ticker\",\"product_ids\":["@ + q
            + "]}],\"type\":\"unsubscribe\"}"@,
        Exchange::Kraken => "{\"event\":\"unsubscribe\",\"pair\":["@ + q
            + "],\"subscription\":{\"name\":\"trade\"}}"@,
        Exchange::Hyperliquid => "{\"method\":\"unsubscribe\",\"subscription\":{\"coin\":"@ + q
            + ",\"type\":\"trades\"}}"@,
    }
}

/// The subscribe message of a channel.
pub open spec fn subscribe_text(c: ChannelKey) -> Seq<char> {
    match c.1 {
        ChannelType::Tape => subscribe_tape_text(c.0, c.2),
        ChannelType::Book => subscribe_book_text(c.0, c.2),
    }
}

/// The unsubscribe message of a channel.
pub open spec fn unsubscribe_text(c: ChannelKey) -> Seq<char> {
    match c.1 {
        ChannelType::Tape => unsubscribe_tape_text(c.0, c.2),
        ChannelType::Book => unsubscribe_book_text(c.0, c.2),
    }
}

impl Channel {
    /// The JSON text that subscribes to this channel.
    pub fn subscribe_message(&self) -> (r: String)
        ensures
            r@ == subscribe_text(self@),
    {
        match self.channel {
            ChannelType::Tape => self.subscribe_message_tape(),
            ChannelType::Book => self.subscribe_message_book(),
        }
    }

    /// The JSON text that subscribes to this market's book.
    pub fn subscribe_message_book(&self) -> (r: String)
        ensures
            r@ == subscribe_book_text(self.exchange, self.market@),
    {
        match self.exchange {
            Exchange::Gdax => framed(
                "{\"channels\":[{\"name\":\"level2_batch\",\"product_ids\":[",
                &self.market,
                "]}],\"type\":\"subscribe\"}",
            ),
            Exchange::Kraken => framed(
                "{\"event\":\"subscribe\",\"pair\":[",
                &self.market,
                "],\"subscription\":{\"depth\":100,\"name\":\"book\"}}",
            ),
            Exchange::Hyperliquid => framed(
                "{\"method\":\"subscribe\",\"subscription\":{\"coin\":",
                &self.market,
                ",\"type\":\"l2Book\"}}",
            ),
        }
    }

    /// The JSON text that subscribes to this market's trades.
    pub fn subscribe_message_tape(&self) -> (r: String)
        ensures
            r@ == subscribe_tape_text(self.exchange, self.market@),
    {
        match self.exchange {
            Exchange::Gdax => framed(
                "{\"channels\":[{\"name\":\"ticker\",\"product_ids\":[",
                &self.market,
                "]}],\"type\":\"subscribe\"}",
            ),
            Exchange::Kraken => framed(
                "{\"event\":\"subscribe\",\"pair\":[",
                &self.market,
                "],\"subscription\":{\"name\":\"trade\"}}",
            ),
            Exchange::Hyperliquid => framed(
                "{\"method\":\"subscribe\",\"subscription\":{\"coin\":",
                &self.market,
                ",\"type\":\"trades\"}}",
            ),
        }
    }

    /// The JSON text that unsubscribes from this channel.
    pub fn unsubscribe_message(&self) -> (r: String)
        ensures
            r@ == unsubscribe_text(self@),
    {
        match self.channel {
            ChannelType::Tape => self.unsubscribe_message_tape(),
            ChannelType::Book => self.unsubscribe_message_book(),
        }
    }

    /// The JSON text that unsubscribes from this market's book.
    pub fn unsubscribe_message_book(&self) -> (r: String)
        ensures
            r@ == unsubscribe_book_text(self.exchange, self.market@),
    {
        match self.exchange {
            Exchange::Gdax => framed(
                "{\"channels\":[{\"name\":\"level2_batch\",\"product_ids\":[",
                &self.market,
                "]}],\"type\":\"unsubscribe\"}",
            ),
            Exchange::Kraken => framed(
                "{\"event\":\"unsubscribe\",\"pair\":[",
                &self.market,
                "],\"subscription\":{\"depth\":100,\"name\":\"book\"}}",
            ),
            Exchange::Hyperliquid => framed(
                "{\"method\":\"unsubscribe\",\"subscription\":{\"coin\":",
                &self.market,
                ",\"type\":\"l2Book\"}}",
            ),
        }
    }

    /// The JSON text that unsubscribes from this market's trades.
    pub fn unsubscribe_message_tape(&self) -> (r: String)
        ensures
            r@ == unsubscribe_tape_text(self.exchange, self.market@),
    {
        match self.exchange {
            Exchange::Gdax => framed(
                "{\"channels\":[{\"name\":\"ticker\",\"product_ids\":[",
                &self.market,
                "]}],\"type\":\"unsubscribe\"}",
            ),
            Exchange::Kraken => framed(
                "{\"event\":\"unsubscribe\",\"pair\":[",
                &self.market,
                "],\"subscription\":{\"name\":\"trade\"}}",
            ),
            Exchange::Hyperliquid => framed(
                "{\"method\":\"unsubscribe\",\"subscription\":{\"coin\":",
                &self.market,
                ",\"type\":\"trades\"}}",
            ),
        }
    }
}

} // verus!

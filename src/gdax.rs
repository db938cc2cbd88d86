use vstd::prelude::*;

use crate::app::{App, AppView, Frame, TradeSide};
use crate::book::{changes_wf, gdax_changes, levels_wf, snapshot_book, Level};
use crate::client::{Channel, ChannelKey, ChannelType};
use crate::decimal::Dec;
use crate::error::Error;
use crate::timestamp::UtcTime;
use crate::trades::{ticker_trade, Trade};

verus! {

/// The messages of the Coinbase feed, told apart by their `type` field.
#[derive(Debug)]
pub enum Response {
    Subscriptions(Subscriptions),
    Heartbeat(Heartbeat),
    Ticker(Ticker),
    Snapshot(Snapshot),
    L2update(L2update),
}

/// Acknowledges a subscription: the channels now served.
#[derive(Debug)]
pub struct Subscriptions {
    pub channels: Vec<GdaxChannel>,
}

/// One served channel and its products.
#[derive(Debug)]
pub struct GdaxChannel {
    pub name: String,
    pub product_ids: Vec<String>,
}

/// A liveness message.
#[derive(Debug)]
pub struct Heartbeat {
    pub time: String,
    pub product_id: String,
    pub sequence: i64,
    pub last_trade_id: i64,
}

/// A trade print; `time` is ISO 8601 text.
#[derive(Debug)]
pub struct Ticker {
    pub sequence: u64,
    pub product_id: String,
    pub price: String,
    pub side: TradeSide,
    pub time: String,
    pub size: String,
}

/// The whole book of a product.
#[derive(Debug)]
pub struct Snapshot {
    pub product_id: String,
    pub bids: Vec<Level>,
    pub asks: Vec<Level>,
}

/// Changes to the book: side, price and new size.
#[derive(Debug)]
pub struct L2update {
    pub product_id: String,
    pub time: String,
    pub changes: Vec<(TradeSide, Dec, Dec)>,
}

} // verus!

verus! {

impl Response {
    /// Every price and size in the message is well formed.
    pub open spec fn wf(&self) -> bool {
        match self {
            Response::Snapshot(s) => levels_wf(s.bids@) && levels_wf(s.asks@),
            Response::L2update(u) => changes_wf(u.changes@),
            _ => true,
        }
    }
}

/// What a Coinbase message does to state `m0` on channel `c`: trades go on a
/// tape channel's tape (elsewhere they fail with `ChannelResponseMismatch`),
/// snapshots replace the book, changes update it, the rest changes nothing.
pub open spec fn gdax_response_done(
    m0: AppView,
    c: ChannelKey,
    resp: Response,
    m1: AppView,
    r: Result<(), Error>,
) -> bool {
    match resp {
        Response::Subscriptions(_) => r is Ok && m1 == m0,
        Response::Heartbeat(_) => r is Ok && m1 == m0,
        Response::Ticker(t) => if c.1 != ChannelType::Tape {
            r == Err::<(), Error>(Error::ChannelResponseMismatch) && m1 == m0
        } else {
            match ticker_trade(t) {
                Some(tv) => r is Ok && m1 == m0.with_trades(c, seq![tv]),
                None => r matches Err(Error::Decode(_)) && m1 == m0,
            }
        },
        Response::Snapshot(s) => r is Ok && m1 == m0.with_book(
            c,
            snapshot_book(s.bids@, s.asks@),
        ),
        Response::L2update(u) => r is Ok && m1 == (if m0.books.contains_key(c) {
            m0.with_book(c, gdax_changes(m0.books[c], u.changes@))
        } else {
            m0
        }),
    }
}

/// What a frame from a Coinbase connection does: a transport failure
/// changes nothing; any frame marks the connection as heard from, then a
/// decoded message takes effect and a decoding failure is returned.
pub open spec fn gdax_msg_done(
    m0: AppView,
    c: ChannelKey,
    msg: Result<Frame<Response>, Error>,
    m1: AppView,
    r: Result<(), Error>,
) -> bool {
    match msg {
        Err(e) => r == Err::<(), Error>(e) && m1 == m0,
        Ok(Frame::Other) => r is Ok && exists|t: UtcTime| m1 == #[trigger] m0.touched(c, t),
        Ok(Frame::Text(_, Err(e))) => r == Err::<(), Error>(e) && exists|t: UtcTime|
            m1 == #[trigger] m0.touched(c, t),
        Ok(Frame::Text(_, Ok(resp))) => exists|t: UtcTime|
            gdax_response_done(#[trigger] m0.touched(c, t), c, resp, m1, r),
    }
}

impl App {
    /// Applies one decoded Coinbase message to the channel.
    pub fn handle_ws_response_gdax(&mut self, channel: Channel, response: Response) -> (r: Result<
        (),
        Error,
    >)
        requires
            old(self).wf(),
            response.wf(),
        ensures
            final(self).wf(),
            gdax_response_done(old(self)@, channel@, response, final(self)@, r),
    {
        match response {
            Response::Subscriptions(_) => Ok(()),
            Response::Heartbeat(_) => Ok(()),
            Response::Ticker(ticker) => {
                if channel.channel == ChannelType::Tape {
                    match Trade::from_ticker(ticker) {
                        Ok(trade) => self.insert_trade(channel, trade),
                        Err(e) => Err(e),
                    }
                } else {
                    Err(Error::ChannelResponseMismatch)
                }
            },
            Response::Snapshot(snapshot) => {
                self.insert_gdax_snapshot(channel, snapshot);
                Ok(())
            },
            Response::L2update(l2update) => {
                self.insert_gdax_l2update(channel, l2update);
                Ok(())
            },
        }
    }

    /// Handles one frame from the channel's Coinbase connection.
    pub fn handle_ws_msg_gdax(&mut self, channel: Channel, msg: Result<Frame<Response>, Error>) -> (r:
        Result<(), Error>)
        requires
            old(self).wf(),
            msg matches Ok(Frame::Text(_, Ok(resp))) ==> resp.wf(),
        ensures
            final(self).wf(),
            gdax_msg_done(old(self)@, channel@, msg, final(self)@, r),
    {
        match msg {
            Err(e) => Err(e),
            Ok(frame) => {
                let now = self.touch(&channel);
                let ghost touched = self@;
                let r = match frame {
                    Frame::Other => Ok(()),
                    Frame::Text(_, Err(e)) => Err(e),
                    Frame::Text(_, Ok(response)) => self.handle_ws_response_gdax(channel, response),
                };
                proof {
                    assert(touched == old(self)@.touched(channel@, now));
                }
                r
            },
        }
    }
}

} // verus!

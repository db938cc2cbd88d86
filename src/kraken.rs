use vstd::prelude::*;

use crate::app::{lemma_with_trades_push, App, AppView, Frame};
use crate::book::{kraken_levels, kraken_levels_wf, snapshot_book};
use crate::client::{Channel, ChannelKey, ChannelType};
use crate::decimal::Dec;
use crate::error::Error;
use crate::timestamp::UtcTime;
use crate::trades::{kraken_trade, ws_trade_wf, Trade as AppTrade, TradeView};

verus! {

/// The messages of the Kraken feed, told apart by their shape.
#[derive(Debug)]
pub enum Response {
    TaggedResp(TaggedResp),
    Trade(Trade),
    Snapshot(Snapshot),
    L2updateAsk(L2updateAsk),
    L2updateBid(L2updateBid),
    L2updateBoth(L2updateBoth),
}

/// The messages that carry an `event` field.
#[derive(Debug)]
pub enum TaggedResp {
    Heartbeat,
    SystemStatus(SystemStatus),
    SubscriptionStatus(SubscriptionStatus),
}

/// The subscription that a status message speaks of.
#[derive(Debug)]
pub struct Subscription {
    pub name: String,
    pub depth: Option<i64>,
    pub interval: Option<i64>,
    pub ratecounter: Option<bool>,
    pub snapshot: Option<bool>,
    pub token: Option<String>,
    pub consolidate_taker: Option<bool>,
}

/// The outcome of a subscribe or unsubscribe request.
#[derive(Debug)]
pub struct SubscriptionStatus {
    pub channel_name: String,
    pub pair: Option<String>,
    pub reqid: Option<i64>,
    pub status: String,
    pub subscription: Subscription,
    pub error_message: Option<String>,
    pub channel_id: Option<i32>,
}

/// The state of the exchange, sent on connecting.
#[derive(Debug)]
pub struct SystemStatus {
    pub connection_id: Option<i64>,
    pub status: String,
    pub version: String,
}

/// Trade prints for one pair.
#[derive(Debug)]
pub struct Trade {
    pub channel_id: i32,
    pub trades: Vec<WsTrade>,
    pub channel_name: String,
    pub pair: String,
}

/// One trade print; `time` is in seconds since 1970, with a fraction.
#[derive(Debug)]
pub struct WsTrade {
    pub price: Dec,
    pub volume: Dec,
    pub time: Dec,
    pub side: String,
    pub order_type: String,
    pub misc: String,
}

/// The whole book of a pair.
#[derive(Debug)]
pub struct Snapshot {
    pub channel_id: i32,
    pub snapshot: BidAsks,
    pub channel_name: String,
    pub pair: String,
}

/// Both sides of a snapshot.
#[derive(Debug)]
pub struct BidAsks {
    pub asks: Vec<Level>,
    pub bs: Vec<Level>,
}

/// Changes to the asks.
#[derive(Debug)]
pub struct L2updateAsk {
    pub channel_id: i32,
    pub ask: Asks,
    pub channel_name: String,
    pub pair: String,
}

/// Changes to the bids.
#[derive(Debug)]
pub struct L2updateBid {
    pub channel_id: i32,
    pub bid: Bids,
    pub channel_name: String,
    pub pair: String,
}

/// Changes to both sides in one message.
#[derive(Debug)]
pub struct L2updateBoth {
    pub channel_id: i32,
    pub ask: Asks,
    pub bid: Bids,
    pub channel_name: String,
    pub pair: String,
}

/// Ask changes, with the book's checksum text if sent.
#[derive(Debug)]
pub struct Asks {
    pub update: Vec<Level>,
    pub c: Option<String>,
}

/// Bid changes, with the book's checksum text if sent.
#[derive(Debug)]
pub struct Bids {
    pub update: Vec<Level>,
    pub c: Option<String>,
}

/// A price level as Kraken sends it.
#[derive(Debug)]
pub struct Level {
    pub price: Dec,
    pub volume: Dec,
    pub timestamp: Dec,
    pub update_type: Option<String>,
}

} // verus!

verus! {

impl Response {
    /// Every number in the message is well formed.
    pub open spec fn wf(&self) -> bool {
        match self {
            Response::Trade(t) => forall|i: int|
                0 <= i < t.trades@.len() ==> ws_trade_wf(#[trigger] t.trades@[i]),
            Response::Snapshot(s) => kraken_levels_wf(s.snapshot.bs@) && kraken_levels_wf(
                s.snapshot.asks@,
            ),
            Response::L2updateAsk(u) => kraken_levels_wf(u.ask.update@),
            Response::L2updateBid(u) => kraken_levels_wf(u.bid.update@),
            Response::L2updateBoth(u) => kraken_levels_wf(u.bid.update@) && kraken_levels_wf(
                u.ask.update@,
            ),
            Response::TaggedResp(_) => true,
        }
    }
}

/// The canonical trades of Kraken trade prints that all convert.
pub open spec fn kraken_trades(ws: Seq<WsTrade>) -> Seq<TradeView> {
    ws.map_values(|w: WsTrade| kraken_trade(w)->Some_0)
}

/// Kraken trade prints go on the tape in order until one fails to convert;
/// that one's failure is returned and the rest are dropped.
pub open spec fn kraken_trades_done(
    m0: AppView,
    c: ChannelKey,
    ws: Seq<WsTrade>,
    m1: AppView,
    r: Result<(), Error>,
) -> bool {
    exists|n: int|
        {
            &&& 0 <= n <= ws.len()
            &&& forall|j: int| 0 <= j < n ==> (#[trigger] kraken_trade(ws[j])) is Some
            &&& n < ws.len() ==> kraken_trade(ws[n]) is None && (r matches Err(Error::Decode(_)))
            &&& n == ws.len() ==> r is Ok
            &&& m1 == #[trigger] m0.with_trades(c, kraken_trades(ws.take(n)))
        }
}

/// What a Kraken message does to state `m0` on channel `c`: trades go on a
/// tape channel's tape (elsewhere they fail with `ChannelResponseMismatch`),
/// snapshots replace the book, updates change it, the rest changes nothing.
pub open spec fn kraken_response_done(
    m0: AppView,
    c: ChannelKey,
    resp: Response,
    m1: AppView,
    r: Result<(), Error>,
) -> bool {
    match resp {
        Response::TaggedResp(_) => r is Ok && m1 == m0,
        Response::Trade(t) => if c.1 != ChannelType::Tape {
            r == Err::<(), Error>(Error::ChannelResponseMismatch) && m1 == m0
        } else {
            kraken_trades_done(m0, c, t.trades@, m1, r)
        },
        Response::Snapshot(s) => r is Ok && m1 == m0.with_book(
            c,
            snapshot_book(kraken_levels(s.snapshot.bs@), kraken_levels(s.snapshot.asks@)),
        ),
        Response::L2updateAsk(u) => r is Ok && m1 == m0.with_book_updates(
            c,
            Seq::empty(),
            kraken_levels(u.ask.update@),
        ),
        Response::L2updateBid(u) => r is Ok && m1 == m0.with_book_updates(
            c,
            kraken_levels(u.bid.update@),
            Seq::empty(),
        ),
        Response::L2updateBoth(u) => r is Ok && m1 == m0.with_book_updates(
            c,
            kraken_levels(u.bid.update@),
            kraken_levels(u.ask.update@),
        ),
    }
}

/// What a frame from a Kraken connection does: a transport failure changes
/// nothing; any frame marks the connection as heard from, then a decoded
/// message takes effect and a decoding failure is returned.
pub open spec fn kraken_msg_done(
    m0: AppView,
    c: ChannelKey,
    msg: Result<Frame<Response>, Error>,
    m1: AppView,
    r: Result<(), Error>,
) -> bool {
    match msg {
        Err(e) => r == Err::<(), Error>(e) && m1 == m0,
        Ok(Frame::Other) => r is Ok && exists|t: UtcTime| m1 == #[trigger] m0.touched(c, t),
        Ok(Frame::Text(_, Err(e))) => r == Err::<(), Error>(e) && exists|t: UtcTime|
            m1 == #[trigger] m0.touched(c, t),
        Ok(Frame::Text(_, Ok(resp))) => exists|t: UtcTime|
            kraken_response_done(#[trigger] m0.touched(c, t), c, resp, m1, r),
    }
}

impl App {
    /// Adds Kraken trade prints to the channel's tape, in order, stopping at
    /// the first that does not convert.
    fn insert_kraken_trades(&mut self, channel: &Channel, trades: &Vec<WsTrade>) -> (r: Result<
        (),
        Error,
    >)
        requires
            old(self).wf(),
            forall|i: int| 0 <= i < trades@.len() ==> ws_trade_wf(#[trigger] trades@[i]),
        ensures
            final(self).wf(),
            kraken_trades_done(old(self)@, channel@, trades@, final(self)@, r),
    {
        let ghost m0 = self@;
        let ghost c = channel@;
        let ghost ws = trades@;
        let mut i: usize = 0;
        proof {
            assert(kraken_trades(ws.take(0)) =~= Seq::<TradeView>::empty());
            assert(m0.with_trades(c, Seq::<TradeView>::empty()) == m0) by {
                if m0.tapes.contains_key(c) {
                    assert(m0.tapes.insert(c, m0.tapes[c]) =~= m0.tapes);
                }
            }
        }
        while i < trades.len()
            invariant
                self.wf(),
                i <= ws.len(),
                ws == trades@,
                c == channel@,
                m0 == old(self)@,
                forall|j: int| 0 <= j < ws.len() ==> ws_trade_wf(#[trigger] ws[j]),
                forall|j: int| 0 <= j < i ==> (#[trigger] kraken_trade(ws[j])) is Some,
                self@ == m0.with_trades(c, kraken_trades(ws.take(i as int))),
            decreases ws.len() - i,
        {
            match AppTrade::from_kraken(&trades[i]) {
                Ok(trade) => {
                    let ghost tv = trade@;
                    let _ = self.insert_trade(channel.clone(), trade);
                    proof {
                        lemma_with_trades_push(m0, c, kraken_trades(ws.take(i as int)), tv);
                        assert(kraken_trades(ws.take(i as int + 1)) =~= kraken_trades(
                            ws.take(i as int),
                        ).push(tv));
                    }
                },
                Err(e) => {
                    let r: Result<(), Error> = Err(e);
                    proof {
                        let n = i as int;
                        assert(kraken_trade(ws[n]) is None);
                        assert(r matches Err(Error::Decode(_)));
                        assert(self@ == m0.with_trades(c, kraken_trades(ws.take(n))));
                        assert(kraken_trades_done(m0, c, ws, self@, r));
                    }
                    return r;
                },
            }
            i = i + 1;
        }
        proof {
            assert(ws.take(i as int) =~= ws);
        }
        Ok(())
    }

    /// Applies one decoded Kraken message to the channel.
    pub fn handle_ws_response_kraken(&mut self, channel: Channel, response: Response) -> (r:
        Result<(), Error>)
        requires
            old(self).wf(),
            response.wf(),
        ensures
            final(self).wf(),
            kraken_response_done(old(self)@, channel@, response, final(self)@, r),
    {
        match response {
            Response::Trade(trade) => {
                if channel.channel == ChannelType::Tape {
                    self.insert_kraken_trades(&channel, &trade.trades)
                } else {
                    Err(Error::ChannelResponseMismatch)
                }
            },
            Response::Snapshot(snapshot) => {
                self.insert_kraken_snapshot(channel, snapshot);
                Ok(())
            },
            Response::L2updateAsk(update) => {
                self.insert_kraken_update_ask(channel, update);
                Ok(())
            },
            Response::L2updateBid(update) => {
                self.insert_kraken_update_bid(channel, update);
                Ok(())
            },
            Response::L2updateBoth(update) => {
                self.insert_kraken_update_both(channel, update);
                Ok(())
            },
            Response::TaggedResp(_) => Ok(()),
        }
    }

    /// Handles one frame from the channel's Kraken connection.
    pub fn handle_ws_msg_kraken(&mut self, channel: Channel, msg: Result<Frame<Response>, Error>) -> (r:
        Result<(), Error>)
        requires
            old(self).wf(),
            msg matches Ok(Frame::Text(_, Ok(resp))) ==> resp.wf(),
        ensures
            final(self).wf(),
            kraken_msg_done(old(self)@, channel@, msg, final(self)@, r),
    {
        match msg {
            Err(e) => Err(e),
            Ok(frame) => {
                let now = self.touch(&channel);
                let ghost touched = self@;
                let r = match frame {
                    Frame::Other => Ok(()),
                    Frame::Text(_, Err(e)) => Err(e),
                    Frame::Text(_, Ok(response)) => self.handle_ws_response_kraken(
                        channel,
                        response,
                    ),
                };
                proof {
                    assert(touched == old(self)@.touched(channel@, now));
                }
                r
            },
        }
    }
}

} // verus!

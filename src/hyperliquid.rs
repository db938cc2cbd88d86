use vstd::prelude::*;

use crate::app::{lemma_with_trades_push, App, AppView, Frame};
use crate::book::{hyperliquid_levels, hyperliquid_levels_wf, snapshot_book};
use crate::client::{Channel, ChannelKey, ChannelType};
use crate::decimal::Dec;
use crate::error::Error;
use crate::timestamp::UtcTime;
use crate::trades::{hyperliquid_trade, Trade as AppTrade, TradeView};

verus! {

/// The messages of the Hyperliquid feed, told apart by their `channel` field.
#[derive(Debug)]
pub enum Response {
    SubscriptionResponse(Subscribe),
    Trades(Vec<Trade>),
    L2Book(L2Book),
}

/// Acknowledges a subscription.
#[derive(Debug)]
pub struct Subscribe {
    pub method: String,
    pub subscription: Subscription,
}

/// A subscription: its kind (`trades`, `l2Book`) and coin.
#[derive(Debug)]
pub struct Subscription {
    pub kind: String,
    pub coin: String,
}

/// One trade print; `time` is in milliseconds since 1970.
#[derive(Debug)]
pub struct Trade {
    pub coin: String,
    pub side: String,
    pub px: String,
    pub sz: String,
    pub time: i64,
    pub hash: String,
}

/// The whole book of a coin.
#[derive(Debug)]
pub struct L2Book {
    pub coin: String,
    pub time: i64,
    pub levels: Levels,
}

/// Both sides of a book.
#[derive(Debug)]
pub struct Levels {
    pub bids: Vec<Level>,
    pub asks: Vec<Level>,
}

/// A price level with the number of orders at it.
#[derive(Debug)]
pub struct Level {
    pub n: i8,
    pub px: Dec,
    pub sz: Dec,
}

} // verus!

verus! {

impl Response {
    /// Every price and size in the message is well formed.
    pub open spec fn wf(&self) -> bool {
        match self {
            Response::L2Book(b) => hyperliquid_levels_wf(b.levels.bids@) && hyperliquid_levels_wf(
                b.levels.asks@,
            ),
            _ => true,
        }
    }
}

/// The plain-text greeting that Hyperliquid sends when a connection opens.
pub open spec fn connection_notice() -> Seq<char> {
    "Websocket connection established."@
}

/// The canonical trades of Hyperliquid trade prints.
pub open spec fn hyperliquid_trades(ts: Seq<Trade>) -> Seq<TradeView> {
    ts.map_values(|t: Trade| hyperliquid_trade(t))
}

/// What a Hyperliquid message does to state `m0` on channel `c`: trades go
/// on a tape channel's tape (elsewhere they fail with
/// `ChannelResponseMismatch`), a book replaces the book, an acknowledgement
/// changes nothing.
pub open spec fn hyperliquid_response_done(
    m0: AppView,
    c: ChannelKey,
    resp: Response,
    m1: AppView,
    r: Result<(), Error>,
) -> bool {
    match resp {
        Response::SubscriptionResponse(_) => r is Ok && m1 == m0,
        Response::Trades(ts) => if c.1 != ChannelType::Tape {
            r == Err::<(), Error>(Error::ChannelResponseMismatch) && m1 == m0
        } else {
            r is Ok && m1 == m0.with_trades(c, hyperliquid_trades(ts@))
        },
        Response::L2Book(b) => r is Ok && m1 == m0.with_book(
            c,
            snapshot_book(hyperliquid_levels(b.levels.bids@), hyperliquid_levels(b.levels.asks@)),
        ),
    }
}

/// What a frame from a Hyperliquid connection does: a transport failure
/// changes nothing; any frame marks the connection as heard from; then the
/// greeting is accepted, a decoded message takes effect and a decoding
/// failure is returned.
pub open spec fn hyperliquid_msg_done(
    m0: AppView,
    c: ChannelKey,
    msg: Result<Frame<Response>, Error>,
    m1: AppView,
    r: Result<(), Error>,
) -> bool {
    match msg {
        Err(e) => r == Err::<(), Error>(e) && m1 == m0,
        Ok(Frame::Other) => r is Ok && exists|t: UtcTime| m1 == #[trigger] m0.touched(c, t),
        Ok(Frame::Text(text, decoded)) => if text@ == connection_notice() {
            r is Ok && exists|t: UtcTime| m1 == #[trigger] m0.touched(c, t)
        } else {
            match decoded {
                Err(e) => r == Err::<(), Error>(e) && exists|t: UtcTime|
                    m1 == #[trigger] m0.touched(c, t),
                Ok(resp) => exists|t: UtcTime|
                    hyperliquid_response_done(#[trigger] m0.touched(c, t), c, resp, m1, r),
            }
        },
    }
}

/// Whether the text is the connection greeting.
fn is_connection_notice(text: &String) -> (r: bool)
    ensures
        r == (text@ == connection_notice()),
{
    let mut notice = String::new();
    notice.append("Websocket connection established.");
    proof {
        assert(notice@ =~= connection_notice());
    }
    *text == notice
}

impl App {
    /// Adds Hyperliquid trade prints to the channel's tape, in order.
    fn insert_hyperliquid_trades(&mut self, channel: &Channel, trades: &Vec<Trade>)
        requires
            old(self).wf(),
        ensures
            final(self).wf(),
            final(self)@ == old(self)@.with_trades(channel@, hyperliquid_trades(trades@)),
    {
        let ghost m0 = self@;
        let ghost c = channel@;
        let ghost ts = trades@;
        let mut i: usize = 0;
        proof {
            assert(hyperliquid_trades(ts.take(0)) =~= Seq::<TradeView>::empty());
            assert(m0.with_trades(c, Seq::<TradeView>::empty()) == m0) by {
                if m0.tapes.contains_key(c) {
                    assert(m0.tapes.insert(c, m0.tapes[c]) =~= m0.tapes);
                }
            }
        }
        while i < trades.len()
            invariant
                self.wf(),
                i <= ts.len(),
                ts == trades@,
                c == channel@,
                m0 == old(self)@,
                self@ == m0.with_trades(c, hyperliquid_trades(ts.take(i as int))),
            decreases ts.len() - i,
        {
            let trade = AppTrade::from_hyperliquid(&trades[i]);
            let ghost tv = trade@;
            let _ = self.insert_trade(channel.clone(), trade);
            proof {
                lemma_with_trades_push(m0, c, hyperliquid_trades(ts.take(i as int)), tv);
                assert(hyperliquid_trades(ts.take(i as int + 1)) =~= hyperliquid_trades(
                    ts.take(i as int),
                ).push(tv));
            }
            i = i + 1;
        }
        proof {
            assert(ts.take(i as int) =~= ts);
        }
    }

    /// Applies one decoded Hyperliquid message to the channel.
    pub fn handle_ws_response_hyperliquid(&mut self, channel: Channel, response: Response) -> (r:
        Result<(), Error>)
        requires
            old(self).wf(),
            response.wf(),
        ensures
            final(self).wf(),
            hyperliquid_response_done(old(self)@, channel@, response, final(self)@, r),
    {
        match response {
            Response::Trades(trades) => {
                if channel.channel == ChannelType::Tape {
                    self.insert_hyperliquid_trades(&channel, &trades);
                    Ok(())
                } else {
                    Err(Error::ChannelResponseMismatch)
                }
            },
            Response::L2Book(book) => {
                self.insert_hyperliquid_snapshot(channel, book);
                Ok(())
            },
            Response::SubscriptionResponse(_) => Ok(()),
        }
    }

    /// Handles one frame from the channel's Hyperliquid connection.
    pub fn handle_ws_msg_hyperliquid(
        &mut self,
        channel: Channel,
        msg: Result<Frame<Response>, Error>,
    ) -> (r: Result<(), Error>)
        requires
            old(self).wf(),
            msg matches Ok(Frame::Text(_, Ok(resp))) ==> resp.wf(),
        ensures
            final(self).wf(),
            hyperliquid_msg_done(old(self)@, channel@, msg, final(self)@, r),
    {
        match msg {
            Err(e) => Err(e),
            Ok(frame) => {
                let now = self.touch(&channel);
                let ghost touched = self@;
                let r = match frame {
                    Frame::Other => Ok(()),
                    Frame::Text(text, decoded) => {
                        if is_connection_notice(&text) {
                            Ok(())
                        } else {
                            match decoded {
                                Err(e) => Err(e),
                                Ok(response) => self.handle_ws_response_hyperliquid(
                                    channel,
                                    response,
                                ),
                            }
                        }
                    },
                };
                proof {
                    assert(touched == old(self)@.touched(channel@, now));
                }
                r
            },
        }
    }
}

} // verus!

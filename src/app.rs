use vstd::prelude::*;

use crate::book::{BookView, Level};
use crate::channels::ChannelMap;
use crate::client::{
    unsubscribe_text, Channel, ChannelKey, ChannelType, ClientReq, ClientResp, Exchange, State,
};
use crate::error::Error;
use crate::gdax::{self, gdax_msg_done};
use crate::hyperliquid::{self, hyperliquid_msg_done};
use crate::kraken::{self, kraken_msg_done};
use crate::timestamp::{utc_now, UtcTime};
use crate::trades::{tape_extend, tape_push, trade_views, Tape, Trade, TradeView, TAPE_CAPACITY};

verus! {

/// The side of the book that an order or an update belongs to.
#[derive(Debug, Clone, Copy, PartialEq, Eq, Structural)]
pub enum TradeSide {
    /// Bids.
    Buy,
    /// Asks.
    Sell,
}

/// The single owner of all channel state: tapes, books, and the record of
/// live connections with the time each last received a frame.
///
/// Requests and inbound frames are applied one at a time. Where work has to
/// happen outside (opening or closing a connection), a request returns an
/// [`Outcome`] that says what to do.
#[derive(Debug)]
pub struct App {
    /// Channels with a live connection, and when each last received a frame.
    pub sockets: ChannelMap<UtcTime>,
    /// Tapes and books.
    pub state: State,
}

/// The state of an [`App`].
pub struct AppView {
    pub tapes: Map<ChannelKey, Seq<TradeView>>,
    pub books: Map<ChannelKey, BookView>,
    pub sockets: Map<ChannelKey, UtcTime>,
}

impl AppView {
    /// Tapes are bounded and books well formed.
    pub open spec fn wf(self) -> bool {
        &&& forall|k: ChannelKey| #[trigger]
            self.tapes.contains_key(k) ==> self.tapes[k].len() <= TAPE_CAPACITY
        &&& forall|k: ChannelKey| #[trigger] self.books.contains_key(k) ==> self.books[k].wf()
    }

    /// No channels at all.
    pub open spec fn empty() -> AppView {
        AppView { tapes: Map::empty(), books: Map::empty(), sockets: Map::empty() }
    }

    /// Whether the channel has the tape or book that its kind calls for.
    pub open spec fn has_state(self, c: ChannelKey) -> bool {
        match c.1 {
            ChannelType::Tape => self.tapes.contains_key(c),
            ChannelType::Book => self.books.contains_key(c),
        }
    }

    /// The channel has nothing: no tape, no book, no connection.
    pub open spec fn never_started(self, c: ChannelKey) -> bool {
        !self.tapes.contains_key(c) && !self.books.contains_key(c) && !self.sockets.contains_key(c)
    }

    /// An empty tape or book added for the channel, by its kind.
    pub open spec fn started(self, c: ChannelKey) -> AppView {
        match c.1 {
            ChannelType::Tape => AppView {
                tapes: self.tapes.insert(c, Seq::empty()),
                books: self.books,
                sockets: self.sockets,
            },
            ChannelType::Book => AppView {
                tapes: self.tapes,
                books: self.books.insert(c, BookView::empty()),
                sockets: self.sockets,
            },
        }
    }

    /// A connection recorded for the channel, last heard from at `t`.
    pub open spec fn with_socket(self, c: ChannelKey, t: UtcTime) -> AppView {
        AppView { tapes: self.tapes, books: self.books, sockets: self.sockets.insert(c, t) }
    }

    /// The channel's connection record dropped; tape and book stay.
    pub open spec fn without_socket(self, c: ChannelKey) -> AppView {
        AppView { tapes: self.tapes, books: self.books, sockets: self.sockets.remove(c) }
    }

    /// A frame received at `t` on the channel's connection, if it has one.
    pub open spec fn touched(self, c: ChannelKey, t: UtcTime) -> AppView {
        if self.sockets.contains_key(c) {
            self.with_socket(c, t)
        } else {
            self
        }
    }

    /// Trades added to the channel's tape, if it has one.
    pub open spec fn with_trades(self, c: ChannelKey, ts: Seq<TradeView>) -> AppView {
        if self.tapes.contains_key(c) {
            AppView {
                tapes: self.tapes.insert(c, tape_extend(self.tapes[c], ts)),
                books: self.books,
                sockets: self.sockets,
            }
        } else {
            self
        }
    }

    /// The channel's book set to `b`, whether or not it had one.
    pub open spec fn with_book(self, c: ChannelKey, b: BookView) -> AppView {
        AppView { tapes: self.tapes, books: self.books.insert(c, b), sockets: self.sockets }
    }

    /// Updates applied to the channel's book, if it has one.
    pub open spec fn with_book_updates(
        self,
        c: ChannelKey,
        bids: Seq<Level>,
        asks: Seq<Level>,
    ) -> AppView {
        if self.books.contains_key(c) {
            self.with_book(c, self.books[c].update_both(bids, asks))
        } else {
            self
        }
    }
}

/// The error a request fails with in state `m`, if it fails.
pub open spec fn request_error(m: AppView, req: ClientReq) -> Option<Error> {
    match req {
        ClientReq::Start { channel } => if m.has_state(channel@) {
            Some(Error::ChannelAlreadySubscribed)
        } else {
            None
        },
        ClientReq::Stop { channel } => if m.sockets.contains_key(channel@) {
            None
        } else {
            Some(Error::SocketDoesNotExist)
        },
        ClientReq::Tape { channel } => if m.tapes.contains_key(channel@) {
            None
        } else {
            Some(Error::ChannelDoesNotExist)
        },
        ClientReq::Book { channel } => if m.books.contains_key(channel@) {
            None
        } else {
            Some(Error::ChannelDoesNotExist)
        },
        ClientReq::Last { channel } => if m.sockets.contains_key(channel@) {
            None
        } else {
            Some(Error::SocketDoesNotExist)
        },
    }
}

/// The state after a request in state `m`.
pub open spec fn request_state(m: AppView, req: ClientReq) -> AppView {
    match req {
        ClientReq::Start { channel } => if m.has_state(channel@) {
            m
        } else {
            m.started(channel@)
        },
        ClientReq::Stop { channel } => m.without_socket(channel@),
        _ => m,
    }
}

/// What a request that does not fail hands back in state `m`.
pub open spec fn request_served(m: AppView, req: ClientReq, out: Outcome) -> bool {
    match req {
        ClientReq::Start { channel } => out matches Outcome::Connect(c) && c@ == channel@,
        ClientReq::Stop { channel } => out matches Outcome::Disconnect(c, text) && c@ == channel@
            && text@ == unsubscribe_text(channel@),
        ClientReq::Tape { channel } => out matches Outcome::Reply(Ok(ClientResp::Tape(q)))
            && trade_views(q@) == m.tapes[channel@],
        ClientReq::Book { channel } => out matches Outcome::Reply(Ok(ClientResp::Book(b)))
            && b@ == m.books[channel@],
        ClientReq::Last { channel } => out == Outcome::Reply(
            Ok(ClientResp::Last(m.sockets[channel@])),
        ),
    }
}

/// What the caller of [`App::handle_client_req`] does next.
#[derive(Debug)]
pub enum Outcome {
    /// Reply to the client with this.
    Reply(Result<ClientResp, Error>),
    /// Open the channel's connection and send its subscribe message; then
    /// record it with [`App::insert_socket`] and reply `Subscribed`, or reply
    /// with the failure (the new tape or book stays).
    Connect(Channel),
    /// Send this unsubscribe text on the channel's connection (failures are
    /// ignored), signal its worker to stop, and reply `Unsubscribed`.
    Disconnect(Channel, String),
}

/// One frame received on a channel's connection, with what decoding its
/// text gave.
#[derive(Debug)]
pub enum Frame<R> {
    /// A text frame: the text, and the message decoded from it or the
    /// decoding failure.
    Text(String, Result<R, Error>),
    /// A frame without text: binary, ping, pong or close.
    Other,
}

/// A decoded message of one of the exchanges.
#[derive(Debug)]
pub enum Payload {
    Gdax(gdax::Response),
    Kraken(kraken::Response),
    Hyperliquid(hyperliquid::Response),
}

impl Payload {
    pub open spec fn wf(&self) -> bool {
        match self {
            Payload::Gdax(r) => r.wf(),
            Payload::Kraken(r) => r.wf(),
            Payload::Hyperliquid(r) => r.wf(),
        }
    }
}

/// The frame as a Coinbase frame: a message of another exchange becomes a
/// `ChannelResponseMismatch` failure.
pub open spec fn narrow_gdax(msg: Result<Frame<Payload>, Error>) -> Result<Frame<gdax::Response>, Error> {
    match msg {
        Err(e) => Err(e),
        Ok(Frame::Other) => Ok(Frame::Other),
        Ok(Frame::Text(t, Err(e))) => Ok(Frame::Text(t, Err(e))),
        Ok(Frame::Text(t, Ok(Payload::Gdax(r)))) => Ok(Frame::Text(t, Ok(r))),
        Ok(Frame::Text(t, Ok(_))) => Ok(Frame::Text(t, Err(Error::ChannelResponseMismatch))),
    }
}

/// The frame as a Kraken frame: a message of another exchange becomes a
/// `ChannelResponseMismatch` failure.
pub open spec fn narrow_kraken(msg: Result<Frame<Payload>, Error>) -> Result<Frame<kraken::Response>, Error> {
    match msg {
        Err(e) => Err(e),
        Ok(Frame::Other) => Ok(Frame::Other),
        Ok(Frame::Text(t, Err(e))) => Ok(Frame::Text(t, Err(e))),
        Ok(Frame::Text(t, Ok(Payload::Kraken(r)))) => Ok(Frame::Text(t, Ok(r))),
        Ok(Frame::Text(t, Ok(_))) => Ok(Frame::Text(t, Err(Error::ChannelResponseMismatch))),
    }
}

/// The frame as a Hyperliquid frame: a message of another exchange becomes a
/// `ChannelResponseMismatch` failure.
pub open spec fn narrow_hyperliquid(msg: Result<Frame<Payload>, Error>) -> Result<
    Frame<hyperliquid::Response>,
    Error,
> {
    match msg {
        Err(e) => Err(e),
        Ok(Frame::Other) => Ok(Frame::Other),
        Ok(Frame::Text(t, Err(e))) => Ok(Frame::Text(t, Err(e))),
        Ok(Frame::Text(t, Ok(Payload::Hyperliquid(r)))) => Ok(Frame::Text(t, Ok(r))),
        Ok(Frame::Text(t, Ok(_))) => Ok(Frame::Text(t, Err(Error::ChannelResponseMismatch))),
    }
}

fn to_gdax(msg: Result<Frame<Payload>, Error>) -> (r: Result<Frame<gdax::Response>, Error>)
    ensures
        r == narrow_gdax(msg),
{
    match msg {
        Err(e) => Err(e),
        Ok(Frame::Other) => Ok(Frame::Other),
        Ok(Frame::Text(t, Err(e))) => Ok(Frame::Text(t, Err(e))),
        Ok(Frame::Text(t, Ok(Payload::Gdax(r)))) => Ok(Frame::Text(t, Ok(r))),
        Ok(Frame::Text(t, Ok(_))) => Ok(Frame::Text(t, Err(Error::ChannelResponseMismatch))),
    }
}

fn to_kraken(msg: Result<Frame<Payload>, Error>) -> (r: Result<Frame<kraken::Response>, Error>)
    ensures
        r == narrow_kraken(msg),
{
    match msg {
        Err(e) => Err(e),
        Ok(Frame::Other) => Ok(Frame::Other),
        Ok(Frame::Text(t, Err(e))) => Ok(Frame::Text(t, Err(e))),
        Ok(Frame::Text(t, Ok(Payload::Kraken(r)))) => Ok(Frame::Text(t, Ok(r))),
        Ok(Frame::Text(t, Ok(_))) => Ok(Frame::Text(t, Err(Error::ChannelResponseMismatch))),
    }
}

fn to_hyperliquid(msg: Result<Frame<Payload>, Error>) -> (r: Result<
    Frame<hyperliquid::Response>,
    Error,
>)
    ensures
        r == narrow_hyperliquid(msg),
{
    match msg {
        Err(e) => Err(e),
        Ok(Frame::Other) => Ok(Frame::Other),
        Ok(Frame::Text(t, Err(e))) => Ok(Frame::Text(t, Err(e))),
        Ok(Frame::Text(t, Ok(Payload::Hyperliquid(r)))) => Ok(Frame::Text(t, Ok(r))),
        Ok(Frame::Text(t, Ok(_))) => Ok(Frame::Text(t, Err(Error::ChannelResponseMismatch))),
    }
}

impl View for App {
    type V = AppView;

    open spec fn view(&self) -> AppView {
        AppView { tapes: self.state.tapes@, books: self.state.books@, sockets: self.sockets@ }
    }
}

impl App {
    pub open spec fn wf(&self) -> bool {
        self.state.wf() && self.sockets.wf() && self@.wf()
    }

    /// No channels.
    pub fn new() -> (r: App)
        ensures
            r.wf(),
            r@ == AppView::empty(),
    {
        App { sockets: ChannelMap::new(), state: State::new() }
    }

    /// Serves one client request.
    ///
    /// `Start` creates the channel's empty tape or book and asks for a
    /// connection; it fails if the channel already has one. `Stop` drops the
    /// connection record (tape and book stay) and asks for the connection to
    /// be closed; it fails without a record. `Tape` and `Book` copy the
    /// channel's state and fail without it; `Last` gives the time of the
    /// last frame and fails without a connection record.
    pub fn handle_client_req(&mut self, req: ClientReq) -> (out: Outcome)
        requires
            old(self).wf(),
        ensures
            final(self).wf(),
            final(self)@ == request_state(old(self)@, req),
            match request_error(old(self)@, req) {
                Some(e) => out == Outcome::Reply(Err(e)),
                None => request_served(old(self)@, req, out),
            },
    {
        self.dispatch(req)
    }

    /// The body of [`App::handle_client_req`], which also says that the
    /// state it reaches is well formed.
    fn dispatch(&mut self, req: ClientReq) -> (out: Outcome)
        requires
            old(self).wf(),
        ensures
            final(self).state.wf() && final(self).sockets.wf(),
            final(self)@ == request_state(old(self)@, req),
            request_state(old(self)@, req).wf(),
            match request_error(old(self)@, req) {
                Some(e) => out == Outcome::Reply(Err(e)),
                None => request_served(old(self)@, req, out),
            },
    {
        match req {
            ClientReq::Start { channel } => match channel.channel {
                ChannelType::Tape => {
                    if self.state.tapes.contains_key(&channel) {
                        Outcome::Reply(Err(Error::ChannelAlreadySubscribed))
                    } else {
                        self.state.tapes.insert(channel.clone(), Tape::new());
                        proof {
                            lemma_wf_set_tape(
                                old(self)@,
                                request_state(old(self)@, ClientReq::Start { channel }),
                                channel@,
                                Seq::empty(),
                            );
                        }
                        Outcome::Connect(channel)
                    }
                },
                ChannelType::Book => {
                    if self.state.books.contains_key(&channel) {
                        Outcome::Reply(Err(Error::ChannelAlreadySubscribed))
                    } else {
                        self.state.books.insert(channel.clone(), crate::book::Book::new());
                        proof {
                            lemma_wf_set_book(
                                old(self)@,
                                request_state(old(self)@, ClientReq::Start { channel }),
                                channel@,
                                BookView::empty(),
                            );
                        }
                        Outcome::Connect(channel)
                    }
                },
            },
            ClientReq::Stop { channel } => match self.sockets.remove(&channel) {
                Some(_) => {
                    let text = channel.unsubscribe_message();
                    Outcome::Disconnect(channel, text)
                },
                None => Outcome::Reply(Err(Error::SocketDoesNotExist)),
            },
            ClientReq::Tape { channel } => match self.state.tapes.get(&channel) {
                Some(tape) => Outcome::Reply(Ok(ClientResp::Tape(tape.to_deque()))),
                None => Outcome::Reply(Err(Error::ChannelDoesNotExist)),
            },
            ClientReq::Book { channel } => match self.state.books.get(&channel) {
                Some(book) => Outcome::Reply(Ok(ClientResp::Book(book.clone()))),
                None => Outcome::Reply(Err(Error::ChannelDoesNotExist)),
            },
            ClientReq::Last { channel } => match self.sockets.get(&channel) {
                Some(t) => Outcome::Reply(Ok(ClientResp::Last(*t))),
                None => Outcome::Reply(Err(Error::SocketDoesNotExist)),
            },
        }
    }

    /// Records the channel's new connection, heard from now.
    pub fn insert_socket(&mut self, channel: Channel)
        requires
            old(self).wf(),
        ensures
            final(self).wf(),
            final(self)@.sockets.contains_key(channel@),
            final(self)@ == old(self)@.with_socket(channel@, final(self)@.sockets[channel@]),
    {
        let now = utc_now();
        self.sockets.insert(channel, now);
        proof {
            lemma_wf_same_state(old(self)@, self@);
        }
    }

    /// Records that the channel's connection, if any, received a frame at `now`.
    fn touch_at(&mut self, channel: &Channel, now: UtcTime)
        requires
            old(self).wf(),
        ensures
            final(self).wf(),
            final(self)@ == old(self)@.touched(channel@, now),
    {
        if self.sockets.contains_key(channel) {
            self.sockets.insert(channel.clone(), now);
            proof {
                lemma_wf_same_state(old(self)@, self@);
            }
        }
    }

    /// Records that the channel's connection, if any, received a frame now,
    /// and returns that time.
    pub(crate) fn touch(&mut self, channel: &Channel) -> (t: UtcTime)
        requires
            old(self).wf(),
        ensures
            final(self).wf(),
            final(self)@ == old(self)@.touched(channel@, t),
    {
        let now = utc_now();
        self.touch_at(channel, now);
        now
    }

    /// Records that the channel's connection, if any, received a frame now.
    pub fn update_last(&mut self, channel: Channel) -> (r: Result<(), Error>)
        requires
            old(self).wf(),
        ensures
            final(self).wf(),
            r is Ok,
            exists|t: UtcTime| final(self)@ == old(self)@.touched(channel@, t),
    {
        let _ = self.touch(&channel);
        Ok(())
    }

    /// Handles one frame from the channel's connection with the rules of the
    /// channel's exchange. Failures concern this channel alone: the caller
    /// reports them and goes on.
    pub fn handle_ws_msg(&mut self, channel: Channel, msg: Result<Frame<Payload>, Error>) -> (r:
        Result<(), Error>)
        requires
            old(self).wf(),
            msg matches Ok(Frame::Text(_, Ok(p))) ==> p.wf(),
        ensures
            final(self).wf(),
            match channel.exchange {
                Exchange::Gdax => gdax_msg_done(old(self)@, channel@, narrow_gdax(msg), final(self)@, r),
                Exchange::Kraken => kraken_msg_done(
                    old(self)@,
                    channel@,
                    narrow_kraken(msg),
                    final(self)@,
                    r,
                ),
                Exchange::Hyperliquid => hyperliquid_msg_done(
                    old(self)@,
                    channel@,
                    narrow_hyperliquid(msg),
                    final(self)@,
                    r,
                ),
            },
    {
        match channel.exchange {
            Exchange::Gdax => {
                let m = to_gdax(msg);
                self.handle_ws_msg_gdax(channel, m)
            },
            Exchange::Kraken => {
                let m = to_kraken(msg);
                self.handle_ws_msg_kraken(channel, m)
            },
            Exchange::Hyperliquid => {
                let m = to_hyperliquid(msg);
                self.handle_ws_msg_hyperliquid(channel, m)
            },
        }
    }

    /// Adds a trade to the channel's tape, if it has one.
    pub fn insert_trade(&mut self, channel: Channel, trade: Trade) -> (r: Result<(), Error>)
        requires
            old(self).wf(),
        ensures
            final(self).wf(),
            r is Ok,
            final(self)@ == old(self)@.with_trades(channel@, seq![trade@]),
    {
        proof {
            assert(seq![trade@].drop_last() =~= Seq::<TradeView>::empty());
        }
        let ghost tv = trade@;
        match self.state.tapes.remove(&channel) {
            Some(mut tape) => {
                proof {
                    assert(old(self)@.tapes.contains_key(channel@));
                }
                tape.push(trade);
                let ghost pushed = tape@;
                let ghost key = channel@;
                self.state.tapes.insert(channel, tape);
                proof {
                    assert(self.state.tapes@ =~= old(self).state.tapes@.insert(key, pushed));
                    lemma_wf_set_tape(old(self)@, self@, key, pushed);
                    let s = old(self)@.tapes[key];
                    assert(tape_extend(s, Seq::<TradeView>::empty()) == s);
                    assert(tape_extend(s, seq![tv]) == tape_push(
                        tape_extend(s, Seq::<TradeView>::empty()),
                        tv,
                    ));
                }
            },
            None => {
                proof {
                    assert(self.state.tapes@ =~= old(self).state.tapes@);
                }
            },
        }
        Ok(())
    }
}

/// Once a channel is started it cannot be started again: after a `Start`,
/// a second `Start` of the same channel fails with `ChannelAlreadySubscribed`,
/// also when its connection was recorded or stopped in between.
pub proof fn lemma_second_start_fails(m: AppView, channel: Channel, t: UtcTime)
    ensures
        ({
            let req = ClientReq::Start { channel };
            let after = request_state(m, req);
            &&& request_error(after, req) == Some(Error::ChannelAlreadySubscribed)
            &&& request_error(after.with_socket(channel@, t), req) == Some(
                Error::ChannelAlreadySubscribed,
            )
            &&& request_error(after.without_socket(channel@), req) == Some(
                Error::ChannelAlreadySubscribed,
            )
        }),
{
}

/// A channel that was never started, as every channel of a new [`App`]:
/// `Tape` and `Book` fail with `ChannelDoesNotExist`, and `Last` fails with
/// `SocketDoesNotExist`.
pub proof fn lemma_never_started_fails(m: AppView, channel: Channel)
    requires
        m.never_started(channel@),
    ensures
        AppView::empty().never_started(channel@),
        request_error(m, ClientReq::Tape { channel }) == Some(Error::ChannelDoesNotExist),
        request_error(m, ClientReq::Book { channel }) == Some(Error::ChannelDoesNotExist),
        request_error(m, ClientReq::Last { channel }) == Some(Error::SocketDoesNotExist),
{
}

/// Well-formedness depends on tapes and books alone.
proof fn lemma_wf_same_state(a: AppView, b: AppView)
    requires
        a.wf(),
        a.tapes == b.tapes,
        a.books == b.books,
    ensures
        b.wf(),
{
}

/// Setting a bounded tape keeps the state well formed.
proof fn lemma_wf_set_tape(a: AppView, b: AppView, c: ChannelKey, s: Seq<TradeView>)
    requires
        a.wf(),
        s.len() <= TAPE_CAPACITY,
        b.tapes == a.tapes.insert(c, s),
        b.books == a.books,
    ensures
        b.wf(),
{
    assert forall|k: ChannelKey| #[trigger] b.tapes.contains_key(k) implies b.tapes[k].len()
        <= TAPE_CAPACITY by {
        if k != c {
            assert(a.tapes.contains_key(k));
        }
    }
}

/// Setting a well-formed book keeps the state well formed.
pub proof fn lemma_wf_set_book(a: AppView, b: AppView, c: ChannelKey, v: BookView)
    requires
        a.wf(),
        v.wf(),
        b.tapes == a.tapes,
        b.books == a.books.insert(c, v),
    ensures
        b.wf(),
{
    assert forall|k: ChannelKey| #[trigger] b.books.contains_key(k) implies b.books[k].wf() by {
        if k != c {
            assert(a.books.contains_key(k));
        }
    }
}

/// Adding trades one at a time is adding them all.
pub proof fn lemma_with_trades_push(m: AppView, c: ChannelKey, ts: Seq<TradeView>, t: TradeView)
    ensures
        m.with_trades(c, ts).with_trades(c, seq![t]) == m.with_trades(c, ts.push(t)),
{
    assert(seq![t].drop_last() =~= Seq::<TradeView>::empty());
    assert(ts.push(t).drop_last() =~= ts);
    if m.tapes.contains_key(c) {
        let s = m.tapes[c];
        assert(tape_extend(s, ts.push(t)) == tape_push(tape_extend(s, ts), t));
        assert(tape_extend(tape_extend(s, ts), seq![t]) == tape_push(
            tape_extend(tape_extend(s, ts), Seq::empty()),
            t,
        ));
        assert(m.with_trades(c, ts).with_trades(c, seq![t]).tapes =~= m.with_trades(
            c,
            ts.push(t),
        ).tapes);
    }
}

} // verus!

//! Market data, orders and trades as the engine sees them.
//!
//! Prices are integers on a fixed-point grid chosen by the caller (for instance
//! ten-thousandths of a currency unit); volumes are integers in the caller's lot
//! unit; timestamps are milliseconds since 1970-01-01 00:00 in naive local time.
use crate::constant::{Direction, Exchange, Interval, Offset, OrderType, Status};
use crate::constant::exchange_name;
use crate::ids::{gateway_id, gateway_id_string};
use vstd::prelude::*;
use vstd::string::StringExecFns;

verus! {

/// Milliseconds in one calendar day.
pub const MS_PER_DAY: i64 = 86_400_000;

/// The calendar day (days since 1970-01-01) that a timestamp falls on.
pub open spec fn day_of(datetime: int) -> int {
    datetime / (MS_PER_DAY as int)
}

/// The calendar day of `datetime`, rounding towards the past for times before 1970.
pub fn date_of(datetime: i64) -> (r: i64)
    ensures
        r == day_of(datetime as int),
{
    let q: i64 = datetime / MS_PER_DAY;
    let m: i64 = datetime % MS_PER_DAY;
    if datetime >= 0 || m == 0 {
        proof {
            vstd::arithmetic::div_mod::lemma_fundamental_div_mod(datetime as int, MS_PER_DAY as int);
        }
        assert(datetime == q * MS_PER_DAY + m) by (nonlinear_arith)
            requires
                datetime >= 0 ==> (q == datetime / MS_PER_DAY && m == datetime % MS_PER_DAY),
                datetime < 0 ==> (q * MS_PER_DAY + m == datetime),
        ;
        proof {
            vstd::arithmetic::div_mod::lemma_fundamental_div_mod_converse(
                datetime as int,
                MS_PER_DAY as int,
                q as int,
                if m == 0 { 0 } else { m as int },
            );
        }
        q
    } else {
        proof {
            vstd::arithmetic::div_mod::lemma_fundamental_div_mod_converse(
                datetime as int,
                MS_PER_DAY as int,
                q - 1,
                m + MS_PER_DAY,
            );
        }
        q - 1
    }
}

/// An instrument written `<symbol>.<venue>`.
pub open spec fn vt_symbol_of(symbol: Seq<char>, exchange: Exchange) -> Seq<char> {
    symbol + "."@ + exchange_name(exchange)
}

pub fn vt_symbol_string(symbol: &String, exchange: Exchange) -> (r: String)
    ensures
        r@ == vt_symbol_of(symbol@, exchange),
{
    let s = symbol.clone().concat(".");
    s.concat(exchange.name())
}

/// One bar of market data.
#[derive(Clone, Debug)]
pub struct BarData {
    pub symbol: String,
    pub exchange: Exchange,
    pub datetime: i64,
    pub interval: Interval,
    pub volume: i64,
    pub turnover: i64,
    pub open_interest: i64,
    pub open_price: i64,
    pub high_price: i64,
    pub low_price: i64,
    pub close_price: i64,
}

impl BarData {
    /// The instrument written `<symbol>.<venue>`.
    pub fn vt_symbol(&self) -> (r: String)
        ensures
            r@ == vt_symbol_of(self.symbol@, self.exchange),
    {
        vt_symbol_string(&self.symbol, self.exchange)
    }
}

/// One tick of market data, with five levels of the book.
#[derive(Clone, Debug)]
pub struct TickData {
    pub symbol: String,
    pub exchange: Exchange,
    pub datetime: i64,
    pub name: String,
    pub volume: i64,
    pub turnover: i64,
    pub open_interest: i64,
    pub last_price: i64,
    pub last_volume: i64,
    pub limit_up: i64,
    pub limit_down: i64,
    pub open_price: i64,
    pub high_price: i64,
    pub low_price: i64,
    pub pre_close: i64,
    pub bid_price_1: i64,
    pub bid_price_2: i64,
    pub bid_price_3: i64,
    pub bid_price_4: i64,
    pub bid_price_5: i64,
    pub ask_price_1: i64,
    pub ask_price_2: i64,
    pub ask_price_3: i64,
    pub ask_price_4: i64,
    pub ask_price_5: i64,
    pub bid_volume_1: i64,
    pub bid_volume_2: i64,
    pub bid_volume_3: i64,
    pub bid_volume_4: i64,
    pub bid_volume_5: i64,
    pub ask_volume_1: i64,
    pub ask_volume_2: i64,
    pub ask_volume_3: i64,
    pub ask_volume_4: i64,
    pub ask_volume_5: i64,
}

impl TickData {
    /// The instrument written `<symbol>.<venue>`.
    pub fn vt_symbol(&self) -> (r: String)
        ensures
            r@ == vt_symbol_of(self.symbol@, self.exchange),
    {
        vt_symbol_string(&self.symbol, self.exchange)
    }
}

/// A limit order. `orderid` counts the engine's limit orders from 1.
#[derive(Clone, Debug)]
pub struct OrderData {
    pub symbol: String,
    pub exchange: Exchange,
    pub orderid: u64,
    pub type_: OrderType,
    pub direction: Direction,
    pub offset: Offset,
    pub price: i64,
    pub volume: i64,
    pub traded: i64,
    pub status: Status,
    pub datetime: i64,
}

impl OrderData {
    /// The order's id as text, `BACKTESTING.<n>`.
    pub fn vt_orderid(&self) -> (r: String)
        ensures
            r@ == gateway_id(self.orderid as nat),
    {
        gateway_id_string(self.orderid)
    }

    /// A copy that provably equals the original.
    pub fn duplicate(&self) -> (r: OrderData)
        ensures
            r == *self,
    {
        OrderData {
            symbol: self.symbol.clone(),
            exchange: self.exchange,
            orderid: self.orderid,
            type_: self.type_,
            direction: self.direction,
            offset: self.offset,
            price: self.price,
            volume: self.volume,
            traded: self.traded,
            status: self.status,
            datetime: self.datetime,
        }
    }

    pub fn is_active(&self) -> (r: bool)
        ensures
            r == self.status.spec_is_active(),
    {
        self.status.is_active()
    }
}

impl OrderData {
    /// The instrument written `<symbol>.<venue>`.
    pub fn vt_symbol(&self) -> (r: String)
        ensures
            r@ == vt_symbol_of(self.symbol@, self.exchange),
    {
        vt_symbol_string(&self.symbol, self.exchange)
    }
}

/// A fill. `tradeid` counts the engine's trades from 1.
#[derive(Clone, Debug)]
pub struct TradeData {
    pub symbol: String,
    pub exchange: Exchange,
    pub orderid: u64,
    pub tradeid: u64,
    pub direction: Direction,
    pub offset: Offset,
    pub price: i64,
    pub volume: i64,
    pub datetime: i64,
}

impl TradeData {
    /// The filled order's id as text, `BACKTESTING.<n>`.
    pub fn vt_orderid(&self) -> (r: String)
        ensures
            r@ == gateway_id(self.orderid as nat),
    {
        gateway_id_string(self.orderid)
    }

    /// The trade's id as text, `BACKTESTING.<n>`.
    pub fn vt_tradeid(&self) -> (r: String)
        ensures
            r@ == gateway_id(self.tradeid as nat),
    {
        gateway_id_string(self.tradeid)
    }

    /// A copy that provably equals the original.
    pub fn duplicate(&self) -> (r: TradeData)
        ensures
            r == *self,
    {
        TradeData {
            symbol: self.symbol.clone(),
            exchange: self.exchange,
            orderid: self.orderid,
            tradeid: self.tradeid,
            direction: self.direction,
            offset: self.offset,
            price: self.price,
            volume: self.volume,
            datetime: self.datetime,
        }
    }
}

impl TradeData {
    /// The instrument written `<symbol>.<venue>`.
    pub fn vt_symbol(&self) -> (r: String)
        ensures
            r@ == vt_symbol_of(self.symbol@, self.exchange),
    {
        vt_symbol_string(&self.symbol, self.exchange)
    }
}

/// The change of position that a trade makes: its volume, negated for a sale.
pub open spec fn signed_volume(t: TradeData) -> int {
    if t.direction == Direction::LONG {
        t.volume as int
    } else {
        -(t.volume as int)
    }
}

/// The net position that a sequence of trades builds from flat.
pub open spec fn sum_signed(trades: Seq<TradeData>) -> int
    decreases trades.len(),
{
    if trades.len() == 0 {
        0
    } else {
        sum_signed(trades.drop_last()) + signed_volume(trades.last())
    }
}

/// A message for the log sink.
pub struct LogData {
    pub msg: String,
    pub level: i32,
}

/// A request to cancel an order at a venue.
pub struct CancelRequest {
    pub orderid: String,
    pub symbol: String,
    pub exchange: Exchange,
}

impl CancelRequest {
    /// Hook run after construction; there is nothing to derive.
    pub fn __post_init__(self) {
    }
}

/// The order statuses under which an order is still working.
pub fn get_active_statuses() -> (r: Vec<Status>)
    ensures
        r@ == seq![Status::SUBMITTING, Status::NOTTRADED, Status::PARTTRADED],
        forall|s: Status| r@.contains(s) <==> s.spec_is_active(),
{
    let r = vec![Status::SUBMITTING, Status::NOTTRADED, Status::PARTTRADED];
    assert(r@ == seq![Status::SUBMITTING, Status::NOTTRADED, Status::PARTTRADED]);
    assert forall|s: Status| r@.contains(s) <==> s.spec_is_active() by {
        if s.spec_is_active() {
            if s == Status::SUBMITTING {
                assert(r@[0] == s);
            } else if s == Status::NOTTRADED {
                assert(r@[1] == s);
            } else {
                assert(r@[2] == s);
            }
        }
    }
    r
}

} // verus!

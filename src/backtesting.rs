//! The backtesting engine: it replays history event by event, matches the
//! strategy's orders against each event, and aggregates the fills per day.
use crate::base::{interval_delta, interval_delta_spec, BacktestingMode, EngineType, StopOrder};
use crate::book::{limit_fold, limit_notices, stop_notices, new_limit_order, new_stop_order, stop_fold, CrossPrices, Notice, OrderBook};
use crate::constant::{Direction, Exchange, Interval, Offset, Status};
use crate::daily::{
    build_daily_results, closes_sorted, has_day, results_fold, upsert_close, upsert_daily_close,
    DailyClose, DailyResult,
};
use crate::object::{date_of, day_of, sum_signed, BarData, OrderData, TickData, TradeData};
use crate::statistics::{BalanceRow, Statistics};
use crate::daily::DaySummary;
use crate::utility::{extract_vt_symbol, round_to_spec, round_to_wide, vt_symbol_parts};
use crate::ids::{all_digits, decimal, decimal_value, gateway_id, gateway_id_string, lemma_decimal_round_trip, parse_u64, stop_id, stop_id_string, strip_prefix, GATEWAY_NAME};
use vstd::prelude::*;

verus! {

/// A trading strategy driven by the engine. The engine calls it on every event
/// and reports every change of its orders; through the context it is handed it
/// sends and cancels orders, which the engine carries out when the call returns.
pub trait Strategy {
    fn on_init(&mut self, ctx: &mut StrategyContext);

    fn on_start(&mut self, ctx: &mut StrategyContext);

    fn on_stop(&mut self, ctx: &mut StrategyContext);

    fn on_tick(&mut self, ctx: &mut StrategyContext, tick: &TickData);

    fn on_bar(&mut self, ctx: &mut StrategyContext, bar: &BarData);

    fn on_order(&mut self, ctx: &mut StrategyContext, order: &OrderData);

    fn on_trade(&mut self, ctx: &mut StrategyContext, trade: &TradeData);

    fn on_stop_order(&mut self, ctx: &mut StrategyContext, stop_order: &StopOrder);
}

/// An order request of the strategy.
#[derive(Clone, Copy, Debug, PartialEq, Eq, Structural)]
pub enum Request {
    Send {
        direction: Direction,
        offset: Offset,
        price: i64,
        volume: i64,
        stop: bool,
        lock: bool,
        net: bool,
    },
    Cancel(OrderRef),
    CancelAll,
}

/// What a strategy sees of the engine during a call, and the requests it makes:
/// the narrow interface of sending and cancelling orders and asking for
/// warm-up history.
pub struct StrategyContext {
    pos: i128,
    datetime: i64,
    start: i64,
    pricetick: i64,
    base_orders: usize,
    base_stops: usize,
    order_count: usize,
    stop_count: usize,
    requests: Vec<Request>,
}

impl StrategyContext {
    #[verifier::type_invariant]
    spec fn inv(&self) -> bool {
        self.pricetick > 0
    }

    pub closed spec fn spec_pos(&self) -> int {
        self.pos as int
    }

    pub closed spec fn spec_datetime(&self) -> i64 {
        self.datetime
    }

    pub closed spec fn spec_pricetick(&self) -> i64 {
        self.pricetick
    }

    pub closed spec fn spec_start(&self) -> i64 {
        self.start
    }

    pub closed spec fn spec_order_count(&self) -> int {
        self.order_count as int
    }

    pub closed spec fn spec_stop_count(&self) -> int {
        self.stop_count as int
    }

    pub closed spec fn requests(&self) -> Seq<Request> {
        self.requests@
    }

    /// How many limit and stop orders the engine had when the call was made.
    pub closed spec fn spec_base(&self) -> (int, int) {
        (self.base_orders as int, self.base_stops as int)
    }

    /// The counts the context hands ids from are those the requests made so
    /// far will leave the engine with.
    pub open spec fn consistent(&self) -> bool {
        (self.spec_order_count(), self.spec_stop_count()) == request_lens(
            self.spec_base(),
            self.requests(),
            self.spec_pricetick(),
        )
    }

    /// The position when the call was made.
    pub fn pos(&self) -> (r: i128)
        ensures
            r == self.spec_pos(),
    {
        self.pos
    }

    /// The time of the current event.
    pub fn datetime(&self) -> (r: i64)
        ensures
            r == self.spec_datetime(),
    {
        self.datetime
    }

    /// The requests made, in order.
    fn into_requests(self) -> (r: Vec<Request>)
        ensures
            r@ == self.requests(),
    {
        self.requests
    }

    fn set_pos(&mut self, p: i128)
        ensures
            final(self).spec_pos() == p,
            final(self).requests() == old(self).requests(),
    {
        proof {
            use_type_invariant(&*self);
        }
        self.pos = p;
    }

    fn push_request(&mut self, q: Request)
        ensures
            final(self).requests() == old(self).requests().push(q),
            final(self).spec_pos() == old(self).spec_pos(),
            final(self).spec_pricetick() == old(self).spec_pricetick(),
            final(self).spec_order_count() == old(self).spec_order_count(),
            final(self).spec_stop_count() == old(self).spec_stop_count(),
            final(self).spec_base() == old(self).spec_base(),
    {
        proof {
            use_type_invariant(&*self);
        }
        let mut requests: Vec<Request> = Vec::new();
        std::mem::swap(&mut requests, &mut self.requests);
        requests.push(q);
        self.requests = requests;
    }

    /// Asks for an order at `price` rounded to the tick: a stop order when
    /// `stop`, else a limit order. Returns the reference the order will have,
    /// or nothing when the engine will refuse it.
    pub fn send_order(
        &mut self,
        direction: Direction,
        offset: Offset,
        price: i64,
        volume: i64,
        stop: bool,
        lock: bool,
        net: bool,
    ) -> (r: Vec<OrderRef>)
        ensures
            final(self).requests() == old(self).requests().push(
                Request::Send { direction, offset, price, volume, stop, lock, net },
            ),
            final(self).spec_base() == old(self).spec_base(),
            old(self).consistent() ==> final(self).consistent(),
            ({
                let rp = round_to_spec(price as int, old(self).spec_pricetick() as int);
                let fits = i64::MIN <= rp <= i64::MAX;
                &&& (fits && stop && old(self).spec_stop_count() < usize::MAX) ==> r@ == seq![
                    OrderRef::Stop((old(self).spec_stop_count() + 1) as u64)] && final(self).spec_stop_count()
                    == old(self).spec_stop_count() + 1
                &&& (fits && !stop && old(self).spec_order_count() < usize::MAX) ==> r@ == seq![
                    OrderRef::Limit((old(self).spec_order_count() + 1) as u64)] && final(self).spec_order_count()
                    == old(self).spec_order_count() + 1
                &&& !(fits && (if stop { old(self).spec_stop_count() < usize::MAX } else { old(self).spec_order_count() < usize::MAX })) ==> r@.len() == 0
            }),
    {
        proof {
            use_type_invariant(&*self);
        }
        let ghost old_reqs = self.requests();
        self.push_request(Request::Send { direction, offset, price, volume, stop, lock, net });
        proof {
            let q = Request::Send { direction, offset, price, volume, stop, lock, net };
            assert(old_reqs.push(q).drop_last() =~= old_reqs);
        }
        let rounded = round_to_wide(price, self.pricetick);
        let mut r: Vec<OrderRef> = Vec::new();
        if rounded < i64::MIN as i128 || rounded > i64::MAX as i128 {
            return r;
        }
        if stop {
            if self.stop_count < usize::MAX {
                self.stop_count = self.stop_count + 1;
                r.push(OrderRef::Stop(self.stop_count as u64));
            }
        } else {
            if self.order_count < usize::MAX {
                self.order_count = self.order_count + 1;
                r.push(OrderRef::Limit(self.order_count as u64));
            }
        }
        r
    }

    /// Asks for the referenced order to be cancelled.
    pub fn cancel_order(&mut self, vt_orderid: OrderRef)
        ensures
            final(self).requests() == old(self).requests().push(Request::Cancel(vt_orderid)),
            old(self).consistent() ==> final(self).consistent(),
    {
        let ghost old_reqs = self.requests();
        self.push_request(Request::Cancel(vt_orderid));
        assert(old_reqs.push(Request::Cancel(vt_orderid)).drop_last() =~= old_reqs);
    }

    /// Asks for the order that an id text names to be cancelled; text that
    /// names no order asks nothing.
    pub fn cancel_vt_order(&mut self, vt_orderid: &str)
        ensures
            parse_order_ref(vt_orderid@) matches Some(o) ==> final(self).requests() == old(self).requests().push(
                Request::Cancel(o),
            ),
            parse_order_ref(vt_orderid@) is None ==> final(self).requests() == old(self).requests(),
            old(self).consistent() ==> final(self).consistent(),
    {
        match OrderRef::from_vt_orderid(vt_orderid) {
            Some(o) => self.cancel_order(o),
            None => {},
        }
    }

    /// Asks for every working order to be cancelled.
    pub fn cancel_all(&mut self)
        ensures
            final(self).requests() == old(self).requests().push(Request::CancelAll),
            old(self).consistent() ==> final(self).consistent(),
    {
        let ghost old_reqs = self.requests();
        self.push_request(Request::CancelAll);
        assert(old_reqs.push(Request::CancelAll).drop_last() =~= old_reqs);
    }

    /// The window of warm-up history for `days` days of `interval` bars before
    /// the run's start (see `BacktestingEngine::load_bar_window`).
    pub fn load_bar(&self, days: i64, interval: Interval) -> (r: Result<(i64, i64), ConfigError>)
        ensures
            interval_delta_spec(interval) is None ==> r == Err::<(i64, i64), ConfigError>(ConfigError::UnsupportedInterval),
            interval_delta_spec(interval) matches Some(d) ==> {
                let from = self.spec_start() - days * 86_400_000;
                let to = self.spec_start() - d;
                if days >= 0 && i64::MIN <= from && i64::MIN <= to {
                    r == Ok::<(i64, i64), ConfigError>((from as i64, to as i64))
                } else {
                    r == Err::<(i64, i64), ConfigError>(ConfigError::InvalidPeriod)
                }
            },
    {
        warm_up_window(self.start, days, interval)
    }
}

/// One event of history.
#[derive(Clone, Debug)]
pub enum MixData {
    TickData(TickData),
    BarData(BarData),
}

/// A reference to an order of either kind, as `send_order` hands it out.
#[derive(Clone, Copy, Debug, PartialEq, Eq, Structural, Hash)]
pub enum OrderRef {
    Limit(u64),
    Stop(u64),
}

/// The number that the digits `s` denote, when they are a non-empty string of
/// decimal digits whose value fits in `u64`.
pub open spec fn id_number(s: Seq<char>) -> Option<u64> {
    if s.len() > 0 && all_digits(s) && decimal_value(s) <= u64::MAX {
        Some(decimal_value(s) as u64)
    } else {
        None
    }
}

/// The order that an id text names: `STOP.<n>` a stop order, `BACKTESTING.<n>`
/// a limit order.
pub open spec fn parse_order_ref(s: Seq<char>) -> Option<OrderRef> {
    let p = "STOP."@;
    let g = GATEWAY_NAME@ + "."@;
    if s.len() >= p.len() && s.subrange(0, p.len() as int) == p {
        match id_number(s.subrange(p.len() as int, s.len() as int)) {
            Some(n) => Some(OrderRef::Stop(n)),
            None => None,
        }
    } else if s.len() >= g.len() && s.subrange(0, g.len() as int) == g {
        match id_number(s.subrange(g.len() as int, s.len() as int)) {
            Some(n) => Some(OrderRef::Limit(n)),
            None => None,
        }
    } else {
        None
    }
}

pub open spec fn order_ref_text(r: OrderRef) -> Seq<char> {
    match r {
        OrderRef::Limit(n) => gateway_id(n as nat),
        OrderRef::Stop(n) => stop_id(n as nat),
    }
}

impl OrderRef {
    /// The id as text: `STOP.<n>` for a stop order, `BACKTESTING.<n>` for a limit order.
    pub fn vt_orderid(&self) -> (r: String)
        ensures
            r@ == order_ref_text(*self),
    {
        match self {
            OrderRef::Limit(n) => gateway_id_string(*n),
            OrderRef::Stop(n) => stop_id_string(*n),
        }
    }

    /// The order an id text names; ids beginning `STOP.` name stop orders.
    pub fn from_vt_orderid(s: &str) -> (r: Option<OrderRef>)
        ensures
            r == parse_order_ref(s@),
    {
        let stop_prefix = "STOP.";
        let gateway_prefix = GATEWAY_NAME.to_owned().concat(".");
        proof {
            assert(stop_prefix@ == "STOP."@);
        }
        match strip_prefix(s, stop_prefix) {
            Some(rest) => {
                assert(s@.subrange(0, stop_prefix@.len() as int) =~= stop_prefix@);
                assert(s@.subrange(stop_prefix@.len() as int, s@.len() as int) =~= rest@);
                return match parse_u64(rest) {
                    Some(n) => Some(OrderRef::Stop(n)),
                    None => None,
                };
            },
            None => {},
        }
        match strip_prefix(s, gateway_prefix.as_str()) {
            Some(rest) => {
                assert(s@.subrange(0, gateway_prefix@.len() as int) =~= gateway_prefix@);
                assert(s@.subrange(gateway_prefix@.len() as int, s@.len() as int) =~= rest@);
                match parse_u64(rest) {
                    Some(n) => Some(OrderRef::Limit(n)),
                    None => None,
                }
            },
            None => None,
        }
    }
}

/// Reading back the text of an order id gives the same order.
pub proof fn lemma_order_ref_round_trip(r: OrderRef)
    ensures
        parse_order_ref(order_ref_text(r)) == Some(r),
{
    let (n, body) = match r {
        OrderRef::Limit(n) => (n, GATEWAY_NAME@ + "."@),
        OrderRef::Stop(n) => (n, "STOP."@),
    };
    lemma_decimal_round_trip(n as nat);
    reveal_strlit("STOP.");
    reveal_strlit("BACKTESTING");
    reveal_strlit(".");
    let t = order_ref_text(r);
    let d = decimal(n as nat);
    assert(t =~= body + d);
    assert(t.subrange(body.len() as int, t.len() as int) =~= d);
    assert(t.subrange(0, body.len() as int) =~= body);
    match r {
        OrderRef::Limit(_) => {
            assert(t[0] == 'B');
            assert("STOP."@[0] == 'S');
            assert(t.subrange(0, 5) != "STOP."@);
        },
        OrderRef::Stop(_) => {},
    }
}

/// Why a run cannot be configured.
#[derive(Clone, Copy, Debug, PartialEq, Eq, Structural)]
pub enum ConfigError {
    /// The `vt_symbol` has no dot, or names no known venue.
    InvalidSymbol,
    /// The price tick is not positive.
    InvalidPriceTick,
    /// The start of the period is not before its end.
    InvalidPeriod,
    /// The interval has no fixed length.
    UnsupportedInterval,
}

pub struct BacktestingEngine {
    engine_type: EngineType,
    vt_symbol: String,
    symbol: String,
    exchange: Exchange,
    interval: Interval,
    start: i64,
    end: i64,
    rate: i64,
    slippage: i64,
    size: i64,
    pricetick: i64,
    capital: i64,
    risk_free: i64,
    annual_days: i64,
    half_life: i64,
    mode: BacktestingMode,
    strategy_name: String,
    setting: String,
    inited: bool,
    trading: bool,
    datetime: i64,
    bar: Option<BarData>,
    tick: Option<TickData>,
    history_data: Vec<MixData>,
    book: OrderBook,
    daily_closes: Vec<DailyClose>,
    pending: Vec<Notice>,
}

impl BacktestingEngine {
    /// Every trade falls on a day with a recorded close, the book is consistent,
    /// and the price tick is positive.
    #[verifier::type_invariant]
    spec fn inv(&self) -> bool {
        &&& self.book.wf()
        &&& closes_sorted(self.daily_closes@)
        &&& forall|k: int|
            0 <= k < self.book.trades().len() ==> has_day(
                self.daily_closes@,
                day_of((#[trigger] self.book.trades()[k]).datetime as int),
            )
        &&& self.pricetick > 0
    }

    pub open spec fn orders(&self) -> Seq<OrderData> {
        self.book_view().orders()
    }

    pub open spec fn active_orders(&self) -> Seq<u64> {
        self.book_view().active_orders()
    }

    pub open spec fn stops(&self) -> Seq<StopOrder> {
        self.book_view().stops()
    }

    pub open spec fn active_stops(&self) -> Seq<u64> {
        self.book_view().active_stops()
    }

    pub open spec fn trades(&self) -> Seq<TradeData> {
        self.book_view().trades()
    }

    pub open spec fn spec_pos(&self) -> int {
        self.book_view().pos()
    }

    pub closed spec fn closes(&self) -> Seq<DailyClose> {
        self.daily_closes@
    }

    pub closed spec fn pending(&self) -> Seq<Notice> {
        self.pending@
    }

    pub closed spec fn spec_pricetick(&self) -> i64 {
        self.pricetick
    }

    pub closed spec fn spec_datetime(&self) -> i64 {
        self.datetime
    }

    pub closed spec fn spec_size(&self) -> i64 {
        self.size
    }

    pub closed spec fn spec_rate(&self) -> i64 {
        self.rate
    }

    pub closed spec fn spec_slippage(&self) -> i64 {
        self.slippage
    }

    pub closed spec fn spec_capital(&self) -> i64 {
        self.capital
    }

    pub closed spec fn spec_engine_type(&self) -> EngineType {
        self.engine_type
    }

    pub closed spec fn spec_setting(&self) -> String {
        self.setting
    }

    pub closed spec fn spec_history(&self) -> Seq<MixData> {
        self.history_data@
    }

    pub closed spec fn spec_start(&self) -> i64 {
        self.start
    }

    pub closed spec fn spec_end(&self) -> i64 {
        self.end
    }

    pub closed spec fn spec_interval(&self) -> Interval {
        self.interval
    }

    pub closed spec fn spec_mode(&self) -> BacktestingMode {
        self.mode
    }

    pub closed spec fn spec_inited(&self) -> bool {
        self.inited
    }

    pub closed spec fn spec_trading(&self) -> bool {
        self.trading
    }

    pub closed spec fn spec_symbol(&self) -> String {
        self.symbol
    }

    pub closed spec fn spec_exchange(&self) -> Exchange {
        self.exchange
    }

    pub closed spec fn spec_risk_free(&self) -> i64 {
        self.risk_free
    }

    pub closed spec fn spec_annual_days(&self) -> i64 {
        self.annual_days
    }

    pub closed spec fn spec_half_life(&self) -> i64 {
        self.half_life
    }

    pub closed spec fn book_view(&self) -> OrderBook {
        self.book
    }

    /// An engine for the `LOCAL` venue with unit size and tick, no costs, and
    /// nothing recorded.
    pub fn new() -> (r: Self)
        ensures
            r.orders().len() == 0,
            r.stops().len() == 0,
            r.trades().len() == 0,
            r.spec_pos() == 0,
            r.closes().len() == 0,
            r.pending().len() == 0,
            r.spec_pricetick() == 1,
            r.spec_size() == 1,
            r.spec_rate() == 0,
            r.spec_slippage() == 0,
            r.spec_mode() == BacktestingMode::BAR,
            !r.spec_inited() && !r.spec_trading(),
            r.spec_engine_type() == EngineType::BACKTESTING,
            r.spec_history().len() == 0,
    {
        let book = OrderBook::new(String::new(), Exchange::LOCAL, String::new(), String::new());
        BacktestingEngine {
            engine_type: EngineType::BACKTESTING,
            vt_symbol: String::new(),
            symbol: String::new(),
            exchange: Exchange::LOCAL,
            interval: Interval::NONE,
            start: 0,
            end: 0,
            rate: 0,
            slippage: 0,
            size: 1,
            pricetick: 1,
            capital: 0,
            risk_free: 0,
            annual_days: 240,
            half_life: 120,
            mode: BacktestingMode::BAR,
            strategy_name: String::new(),
            setting: String::new(),
            inited: false,
            trading: false,
            datetime: 0,
            bar: None,
            tick: None,
            history_data: Vec::new(),
            book,
            daily_closes: Vec::new(),
            pending: Vec::new(),
        }
    }

    /// Records the run's parameters and clears what an earlier run left.
    /// Prices, `slippage` and `pricetick` are in price units; `rate` is in
    /// parts per hundred million of turnover; times are in milliseconds.
    pub fn set_parameters(
        &mut self,
        vt_symbol: &str,
        interval: Interval,
        start: i64,
        end: i64,
        rate: i64,
        slippage: i64,
        size: i64,
        pricetick: i64,
        capital: i64,
        mode: BacktestingMode,
        risk_free: i64,
        annual_days: i64,
        half_life: i64,
    ) -> (r: Result<(), ConfigError>)
        ensures
            vt_symbol_parts(vt_symbol@) is None ==> r == Err::<(), ConfigError>(ConfigError::InvalidSymbol),
            vt_symbol_parts(vt_symbol@) is Some && pricetick <= 0 ==> r == Err::<(), ConfigError>(
                ConfigError::InvalidPriceTick,
            ),
            vt_symbol_parts(vt_symbol@) is Some && pricetick > 0 ==> r is Ok,
            r is Err ==> *final(self) == *old(self),
            r is Ok ==> {
                &&& final(self).spec_pricetick() == pricetick
                &&& final(self).spec_size() == size
                &&& final(self).spec_rate() == rate
                &&& final(self).spec_slippage() == slippage
                &&& final(self).spec_capital() == capital
                &&& final(self).spec_mode() == mode
                &&& final(self).spec_risk_free() == risk_free
                &&& final(self).spec_annual_days() == annual_days
                &&& final(self).spec_half_life() == half_life
                &&& final(self).spec_interval() == interval
                &&& final(self).spec_start() == start
                &&& final(self).spec_end() == end
                &&& vt_symbol_parts(vt_symbol@) == Some((final(self).spec_symbol()@, final(self).spec_exchange()))
                &&& final(self).orders().len() == 0
                &&& final(self).stops().len() == 0
                &&& final(self).trades().len() == 0
                &&& final(self).spec_pos() == 0
                &&& final(self).closes().len() == 0
            },
    {
        proof {
            use_type_invariant(&*self);
        }
        let parts = extract_vt_symbol(vt_symbol);
        let (symbol, exchange) = match parts {
            Some(p) => p,
            None => {
                return Err(ConfigError::InvalidSymbol);
            },
        };
        if pricetick <= 0 {
            return Err(ConfigError::InvalidPriceTick);
        }
        self.vt_symbol = vt_symbol.to_owned();
        self.symbol = symbol;
        self.exchange = exchange;
        self.interval = interval;
        self.start = start;
        self.end = end;
        self.rate = rate;
        self.slippage = slippage;
        self.size = size;
        self.pricetick = pricetick;
        self.capital = capital;
        self.mode = mode;
        self.risk_free = risk_free;
        self.annual_days = annual_days;
        self.half_life = half_life;
        self.clear_data();
        Ok(())
    }

    /// Forgets every order, trade, daily close, pending notice and history event.
    pub fn clear_data(&mut self)
        ensures
            final(self).orders().len() == 0,
            final(self).stops().len() == 0,
            final(self).trades().len() == 0,
            final(self).spec_pos() == 0,
            final(self).closes().len() == 0,
            final(self).pending().len() == 0,
            final(self).spec_history().len() == 0,
            final(self).spec_pricetick() == old(self).spec_pricetick(),
            final(self).spec_symbol() == old(self).spec_symbol(),
            final(self).spec_exchange() == old(self).spec_exchange(),
            final(self).spec_risk_free() == old(self).spec_risk_free(),
            final(self).spec_annual_days() == old(self).spec_annual_days(),
            final(self).spec_half_life() == old(self).spec_half_life(),
            final(self).spec_interval() == old(self).spec_interval(),
            final(self).spec_start() == old(self).spec_start(),
            final(self).spec_end() == old(self).spec_end(),
            final(self).spec_size() == old(self).spec_size(),
            final(self).spec_rate() == old(self).spec_rate(),
            final(self).spec_slippage() == old(self).spec_slippage(),
            final(self).spec_capital() == old(self).spec_capital(),
            final(self).spec_mode() == old(self).spec_mode(),
    {
        proof {
            use_type_invariant(&*self);
        }
        self.book = OrderBook::new(
            self.symbol.clone(),
            self.exchange,
            self.vt_symbol.clone(),
            self.strategy_name.clone(),
        );
        self.daily_closes = Vec::new();
        self.pending = Vec::new();
        self.history_data = Vec::new();
        self.datetime = 0;
        self.bar = None;
        self.tick = None;
        self.inited = false;
        self.trading = false;
    }

    /// Names the strategy that the run drives and keeps its setting string
    /// (`key1:value1,key2:value2`, parsed by the strategy). Orders recorded so
    /// far are forgotten.
    pub fn add_strategy(&mut self, strategy_name: &str, setting: &str)
        ensures
            final(self).orders().len() == 0,
            final(self).stops().len() == 0,
            final(self).trades().len() == 0,
            final(self).spec_pos() == 0,
            final(self).book_view().strategy_name()@ == strategy_name@,
            final(self).spec_setting()@ == setting@,
            final(self).spec_pricetick() == old(self).spec_pricetick(),
    {
        proof {
            use_type_invariant(&*self);
        }
        self.strategy_name = strategy_name.to_owned();
        self.setting = setting.to_owned();
        self.book = OrderBook::new(
            self.symbol.clone(),
            self.exchange,
            self.vt_symbol.clone(),
            self.strategy_name.clone(),
        );
    }
}


/// Two states of the engine that agree on everything a replay has produced:
/// trades, position, daily closes, history, progress and time, and the
/// parameters orders are sent under.
pub open spec fn same_run(a: BacktestingEngine, b: BacktestingEngine) -> bool {
    &&& a.trades() == b.trades()
    &&& a.spec_pos() == b.spec_pos()
    &&& a.closes() == b.closes()
    &&& a.spec_history() == b.spec_history()
    &&& a.spec_inited() == b.spec_inited()
    &&& a.spec_trading() == b.spec_trading()
    &&& a.spec_datetime() == b.spec_datetime()
    &&& a.spec_pricetick() == b.spec_pricetick()
    &&& a.spec_start() == b.spec_start()
    &&& a.spec_mode() == b.spec_mode()
    &&& a.book_view().symbol() == b.book_view().symbol()
    &&& a.book_view().exchange() == b.book_view().exchange()
    &&& a.book_view().vt_symbol() == b.book_view().vt_symbol()
    &&& a.book_view().strategy_name() == b.book_view().strategy_name()
}

/// The names a book's orders carry: symbol, venue, `vt_symbol`, strategy name.
pub open spec fn book_names(b: OrderBook) -> (String, Exchange, String, String) {
    (b.symbol(), b.exchange(), b.vt_symbol(), b.strategy_name())
}

/// The orders and stop orders after one strategy request is carried out at
/// time `t`, with prices rounded to `tick`; `names` gives
/// what orders carry: symbol, venue, `vt_symbol` and strategy name.
pub open spec fn request_step(
    s: (Seq<OrderData>, Seq<StopOrder>),
    q: Request,
    names: (String, Exchange, String, String),
    t: i64,
    tick: i64,
) -> (Seq<OrderData>, Seq<StopOrder>) {
    match q {
        Request::Send { direction, offset, price, volume, stop, lock, net } => {
            let rp = round_to_spec(price as int, tick as int);
            if !(i64::MIN <= rp <= i64::MAX) {
                s
            } else if stop {
                if s.1.len() < usize::MAX {
                    (
                        s.0,
                        s.1.push(
                            new_stop_order(names.2, names.3, (s.1.len() + 1) as int,
                                direction, offset, rp as i64, volume, t, lock, net),
                        ),
                    )
                } else {
                    s
                }
            } else {
                if s.0.len() < usize::MAX {
                    (
                        s.0.push(
                            new_limit_order(names.0, names.1, (s.0.len() + 1) as int,
                                direction, offset, rp as i64, volume, t),
                        ),
                        s.1,
                    )
                } else {
                    s
                }
            }
        },
        Request::Cancel(OrderRef::Limit(id)) => {
            if 1 <= id <= s.0.len() && s.0[id - 1].status.spec_is_active() {
                (s.0.update(id - 1, OrderData { status: Status::CANCELLED, ..s.0[id - 1] }), s.1)
            } else {
                s
            }
        },
        Request::Cancel(OrderRef::Stop(id)) => {
            if 1 <= id <= s.1.len() && s.1[id - 1].status == crate::base::StopOrderStatus::WAITING {
                (
                    s.0,
                    s.1.update(
                        id - 1,
                        StopOrder { status: crate::base::StopOrderStatus::CANCELLED, ..s.1[id - 1] },
                    ),
                )
            } else {
                s
            }
        },
        Request::CancelAll => (
            s.0.map_values(|o: OrderData| cancelled_order(o)),
            s.1.map_values(|x: StopOrder| cancelled_stop(x)),
        ),
    }
}

/// The requests `qs` carried out in order.
pub open spec fn requests_fold(
    s: (Seq<OrderData>, Seq<StopOrder>),
    qs: Seq<Request>,
    names: (String, Exchange, String, String),
    t: i64,
    tick: i64,
) -> (Seq<OrderData>, Seq<StopOrder>)
    decreases qs.len(),
{
    if qs.len() == 0 {
        s
    } else {
        request_step(requests_fold(s, qs.drop_last(), names, t, tick), qs.last(), names, t, tick)
    }
}

/// Carrying out two lists of requests one after the other is carrying out
/// the joined list.
pub proof fn lemma_requests_fold_append(
    s: (Seq<OrderData>, Seq<StopOrder>),
    a: Seq<Request>,
    c: Seq<Request>,
    names: (String, Exchange, String, String),
    t: i64,
    tick: i64,
)
    ensures
        requests_fold(s, a + c, names, t, tick) == requests_fold(requests_fold(s, a, names, t, tick), c, names, t, tick),
    decreases c.len(),
{
    if c.len() == 0 {
        assert(a + c =~= a);
    } else {
        lemma_requests_fold_append(s, a, c.drop_last(), names, t, tick);
        assert((a + c).drop_last() =~= a + c.drop_last());
        assert((a + c).last() == c.last());
    }
}

/// How many limit and stop orders there are after the requests `qs`, starting
/// from `n`: sends that the engine accepts add one, nothing else changes the counts.
pub open spec fn request_lens(n: (int, int), qs: Seq<Request>, tick: i64) -> (int, int)
    decreases qs.len(),
{
    if qs.len() == 0 {
        n
    } else {
        let m = request_lens(n, qs.drop_last(), tick);
        match qs.last() {
            Request::Send { price, stop, .. } => {
                let rp = round_to_spec(price as int, tick as int);
                if !(i64::MIN <= rp <= i64::MAX) {
                    m
                } else if stop {
                    if m.1 < usize::MAX {
                        (m.0, m.1 + 1)
                    } else {
                        m
                    }
                } else {
                    if m.0 < usize::MAX {
                        (m.0 + 1, m.1)
                    } else {
                        m
                    }
                }
            },
            _ => m,
        }
    }
}

/// The counts `request_lens` predicts are the lengths the requests produce,
/// so the ids a strategy is handed are those its orders get.
pub proof fn lemma_request_lens(
    s: (Seq<OrderData>, Seq<StopOrder>),
    qs: Seq<Request>,
    names: (String, Exchange, String, String),
    t: i64,
    tick: i64,
)
    ensures
        request_lens((s.0.len() as int, s.1.len() as int), qs, tick) == (
            requests_fold(s, qs, names, t, tick).0.len() as int,
            requests_fold(s, qs, names, t, tick).1.len() as int,
        ),
    decreases qs.len(),
{
    if qs.len() > 0 {
        lemma_request_lens(s, qs.drop_last(), names, t, tick);
    }
}


/// A point of the run's life at which the strategy is called.
#[derive(Clone, Copy, Debug, PartialEq, Eq, Structural)]
enum Phase {
    Init,
    Start,
    Stop,
}

/// The net change of position that the trades named in `ns` make.
pub open spec fn notices_change(trades: Seq<TradeData>, ns: Seq<Notice>) -> int
    decreases ns.len(),
{
    if ns.len() == 0 {
        0
    } else {
        notices_change(trades, ns.drop_last()) + match ns.last() {
            Notice::Trade(id) => if 1 <= id <= trades.len() {
                crate::object::signed_volume(trades[id - 1])
            } else {
                0
            },
            _ => 0,
        }
    }
}

/// Whether an event is of the kind that `mode` replays.
pub open spec fn replayed(e: MixData, mode: BacktestingMode) -> bool {
    match e {
        MixData::BarData(_) => mode == BacktestingMode::BAR,
        MixData::TickData(_) => mode == BacktestingMode::TICK,
    }
}

/// The time and close an event records.
pub open spec fn event_time(e: MixData) -> i64 {
    match e {
        MixData::BarData(b) => b.datetime,
        MixData::TickData(t) => t.datetime,
    }
}

pub open spec fn event_close(e: MixData) -> i64 {
    match e {
        MixData::BarData(b) => b.close_price,
        MixData::TickData(t) => t.last_price,
    }
}

/// The daily closes after the events of `h` that `mode` replays, in order.
pub open spec fn replay_closes(closes: Seq<DailyClose>, h: Seq<MixData>, mode: BacktestingMode) -> Seq<DailyClose>
    decreases h.len(),
{
    if h.len() == 0 {
        closes
    } else {
        let c = replay_closes(closes, h.drop_last(), mode);
        if replayed(h.last(), mode) {
            upsert_close(c, day_of(event_time(h.last()) as int) as i64, event_close(h.last()))
        } else {
            c
        }
    }
}

/// The engine's time after the events of `h` that `mode` replays.
pub open spec fn replay_time(t: i64, h: Seq<MixData>, mode: BacktestingMode) -> i64
    decreases h.len(),
{
    if h.len() == 0 {
        t
    } else if replayed(h.last(), mode) {
        event_time(h.last())
    } else {
        replay_time(t, h.drop_last(), mode)
    }
}

/// How many events of `h` are replayed in `mode`.
pub open spec fn replay_count(h: Seq<MixData>, mode: BacktestingMode) -> int
    decreases h.len(),
{
    if h.len() == 0 {
        0
    } else {
        replay_count(h.drop_last(), mode) + if replayed(h.last(), mode) {
            1int
        } else {
            0
        }
    }
}

proof fn lemma_replay_count_nonneg(h: Seq<MixData>, mode: BacktestingMode)
    ensures
        replay_count(h, mode) >= 0,
    decreases h.len(),
{
    if h.len() > 0 {
        lemma_replay_count_nonneg(h.drop_last(), mode);
    }
}

/// What the strategy is told of one market event: the notices of limit
/// matching, then those of stop matching.
pub open spec fn event_notices(b: OrderBook, lp: CrossPrices, sp: CrossPrices, t: i64) -> Seq<Notice> {
    let l = limit_fold(b.lstate(), b.active_orders(), lp, t);
    limit_notices(b.lstate(), b.active_orders(), lp, t) + stop_notices(
        (b.stops(), l.0, l.1, l.2),
        b.active_stops(),
        sp,
        t,
        b.symbol(),
        b.exchange(),
    )
}

/// Limit orders cross a bar at its low (buys) or high (sells) and fill no
/// worse than its open.
pub open spec fn bar_limit_prices(bar: BarData) -> CrossPrices {
    CrossPrices {
        long_cross: bar.low_price,
        short_cross: bar.high_price,
        long_best: bar.open_price,
        short_best: bar.open_price,
    }
}

/// Stop orders trigger on a bar's high (buys) or low (sells) and fill no
/// better than its open.
pub open spec fn bar_stop_prices(bar: BarData) -> CrossPrices {
    CrossPrices {
        long_cross: bar.high_price,
        short_cross: bar.low_price,
        long_best: bar.open_price,
        short_best: bar.open_price,
    }
}

/// Limit orders cross a tick at the best ask (buys) or bid (sells).
pub open spec fn tick_limit_prices(tick: TickData) -> CrossPrices {
    CrossPrices {
        long_cross: tick.ask_price_1,
        short_cross: tick.bid_price_1,
        long_best: tick.ask_price_1,
        short_best: tick.bid_price_1,
    }
}

/// Stop orders trigger on, and fill at, a tick's last price.
pub open spec fn tick_stop_prices(tick: TickData) -> CrossPrices {
    CrossPrices {
        long_cross: tick.last_price,
        short_cross: tick.last_price,
        long_best: tick.last_price,
        short_best: tick.last_price,
    }
}

/// The book after one market event: limit orders are matched first, then stop
/// orders, against the state that limit matching left.
pub open spec fn event_fold(
    b: OrderBook,
    lp: CrossPrices,
    sp: CrossPrices,
    t: i64,
) -> (Seq<StopOrder>, Seq<OrderData>, Seq<TradeData>, int) {
    let l = limit_fold(b.lstate(), b.active_orders(), lp, t);
    stop_fold((b.stops(), l.0, l.1, l.2), b.active_stops(), sp, t, b.symbol(), b.exchange())
}

impl BacktestingEngine {
    /// The net position; at every moment it equals the signed volume of all
    /// trades so far.
    pub fn pos(&self) -> (r: i128)
        ensures
            r == self.spec_pos(),
            r == sum_signed(self.trades()),
    {
        proof {
            use_type_invariant(self);
        }
        self.book.position()
    }

    /// Every trade, in the order made. Trade ids count from 1; each trade
    /// fills a recorded limit order of the same id and side, and, unless a stop
    /// order spawned that order, at or inside the order's price.
    pub fn get_all_trades(&self) -> (r: &Vec<TradeData>)
        ensures
            r@ == self.trades(),
            forall|k: int| 0 <= k < r@.len() ==> (#[trigger] r@[k]).tradeid == k + 1,
            forall|a: int, b: int| 0 <= a < b < r@.len() ==> r@[a].tradeid < r@[b].tradeid,
            forall|k: int|
                0 <= k < r@.len() ==> {
                    let t = #[trigger] r@[k];
                    &&& 1 <= t.orderid <= self.orders().len()
                    &&& self.orders()[t.orderid - 1].orderid == t.orderid
                    &&& self.orders()[t.orderid - 1].direction == t.direction
                    &&& (forall|j: int| 0 <= j < self.stops().len() ==> #[trigger] self.stops()[j].spawned_orderid != Some(t.orderid))
                        ==> if t.direction == Direction::LONG {
                        self.orders()[t.orderid - 1].price >= t.price
                    } else {
                        self.orders()[t.orderid - 1].price <= t.price
                    }
                },
    {
        proof {
            use_type_invariant(self);
            let trades = self.trades();
            assert forall|k: int| 0 <= k < trades.len() implies {
                let t = #[trigger] trades[k];
                &&& 1 <= t.orderid <= self.orders().len()
                &&& self.orders()[t.orderid - 1].orderid == t.orderid
                &&& self.orders()[t.orderid - 1].direction == t.direction
                &&& (forall|j: int| 0 <= j < self.stops().len() ==> #[trigger] self.stops()[j].spawned_orderid != Some(t.orderid))
                    ==> if t.direction == Direction::LONG {
                    self.orders()[t.orderid - 1].price >= t.price
                } else {
                    self.orders()[t.orderid - 1].price <= t.price
                }
            } by {
                let t = trades[k];
                assert(crate::book::trade_wf(t, k, self.orders(), self.stops()));
                assert(crate::book::order_wf(self.orders()[t.orderid - 1], t.orderid - 1));
            }
            assert forall|k: int| 0 <= k < trades.len() implies (#[trigger] trades[k]).tradeid == k + 1 by {
                assert(crate::book::trade_wf(trades[k], k, self.orders(), self.stops()));
            }
            assert forall|a: int, b: int| 0 <= a < b < trades.len() implies trades[a].tradeid < trades[b].tradeid by {
                assert(crate::book::trade_wf(trades[a], a, self.orders(), self.stops()));
                assert(crate::book::trade_wf(trades[b], b, self.orders(), self.stops()));
            }
        }
        self.book.all_trades()
    }

    /// Every limit order, in the order made. Order ids count from 1, no order
    /// is part-filled, and a filled order has traded its whole volume.
    pub fn get_all_orders(&self) -> (r: &Vec<OrderData>)
        ensures
            r@ == self.orders(),
            forall|i: int| 0 <= i < r@.len() ==> (#[trigger] r@[i]).orderid == i + 1,
            forall|a: int, b: int| 0 <= a < b < r@.len() ==> r@[a].orderid < r@[b].orderid,
            forall|i: int| 0 <= i < r@.len() ==> (#[trigger] r@[i]).status != Status::PARTTRADED,
            forall|i: int|
                0 <= i < r@.len() && (#[trigger] r@[i]).status == Status::ALLTRADED ==> r@[i].traded == r@[i].volume,
    {
        proof {
            use_type_invariant(self);
            assert forall|i: int| 0 <= i < self.orders().len() implies crate::book::order_wf(#[trigger] self.orders()[i], i) by {
            }
            assert forall|a: int, b: int| 0 <= a < b < self.orders().len() implies self.orders()[a].orderid < self.orders()[b].orderid by {
                assert(crate::book::order_wf(self.orders()[a], a));
                assert(crate::book::order_wf(self.orders()[b], b));
            }
        }
        self.book.all_orders()
    }

    /// Every stop order, in the order made; stop order ids count from 1.
    pub fn get_all_stop_orders(&self) -> (r: &Vec<StopOrder>)
        ensures
            r@ == self.stops(),
            forall|j: int| 0 <= j < r@.len() ==> (#[trigger] r@[j]).stop_orderid == j + 1,
            forall|a: int, b: int| 0 <= a < b < r@.len() ==> r@[a].stop_orderid < r@[b].stop_orderid,
    {
        proof {
            use_type_invariant(self);
            assert forall|j: int| 0 <= j < self.stops().len() implies (#[trigger] self.stops()[j]).stop_orderid == j + 1 by {
                assert(crate::book::stop_wf(self.stops()[j], j, self.orders()));
            }
            assert forall|a: int, b: int| 0 <= a < b < self.stops().len() implies self.stops()[a].stop_orderid < self.stops()[b].stop_orderid by {
                assert(crate::book::stop_wf(self.stops()[a], a, self.orders()));
                assert(crate::book::stop_wf(self.stops()[b], b, self.orders()));
            }
        }
        self.book.all_stops()
    }

    /// The ids of the working limit orders, ascending; each such order is
    /// SUBMITTING or NOTTRADED.
    pub fn get_active_order_ids(&self) -> (r: &Vec<u64>)
        ensures
            r@ == self.active_orders(),
            forall|k: int|
                0 <= k < r@.len() ==> 1 <= #[trigger] r@[k] <= self.orders().len() && (self.orders()[r@[k] - 1].status
                    == Status::SUBMITTING || self.orders()[r@[k] - 1].status == Status::NOTTRADED),
    {
        proof {
            use_type_invariant(self);
            let act = self.active_orders();
            assert forall|k: int| 0 <= k < act.len() implies 1 <= #[trigger] act[k] <= self.orders().len() && (self.orders()[act[k] - 1].status
                    == Status::SUBMITTING || self.orders()[act[k] - 1].status == Status::NOTTRADED) by {
                let id = act[k];
                assert(1 <= id <= self.orders().len());
                assert(act.contains(id));
                let i = id - 1;
                assert(((i + 1) as u64) == id);
                assert(self.orders()[i].status.spec_is_active() <==> act.contains((i + 1) as u64));
                assert(crate::book::order_wf(self.orders()[i], i));
            }
        }
        self.book.active_order_ids()
    }

    pub fn get_active_stop_order_ids(&self) -> (r: &Vec<u64>)
        ensures
            r@ == self.active_stops(),
    {
        self.book.active_stop_ids()
    }

    pub fn get_daily_closes(&self) -> (r: &Vec<DailyClose>)
        ensures
            r@ == self.closes(),
    {
        &self.daily_closes
    }

    pub fn datetime(&self) -> (r: i64)
        ensures
            r == self.spec_datetime(),
    {
        self.datetime
    }

    pub fn capital(&self) -> (r: i64)
        ensures
            r == self.spec_capital(),
    {
        self.capital
    }

    pub fn inited(&self) -> (r: bool)
        ensures
            r == self.spec_inited(),
    {
        self.inited
    }

    pub fn trading(&self) -> (r: bool)
        ensures
            r == self.spec_trading(),
    {
        self.trading
    }

    pub fn symbol(&self) -> (r: &String)
        ensures
            r@ == self.spec_symbol()@,
    {
        &self.symbol
    }

    pub fn exchange(&self) -> (r: Exchange)
        ensures
            r == self.spec_exchange(),
    {
        self.exchange
    }

    /// The yearly risk-free rate, in parts per hundred million.
    pub fn risk_free(&self) -> (r: i64)
        ensures
            r == self.spec_risk_free(),
    {
        self.risk_free
    }

    pub fn annual_days(&self) -> (r: i64)
        ensures
            r == self.spec_annual_days(),
    {
        self.annual_days
    }

    pub fn engine_type(&self) -> (r: EngineType)
        ensures
            r == self.spec_engine_type(),
    {
        self.engine_type
    }

    /// The setting string given to `add_strategy`.
    pub fn strategy_setting(&self) -> (r: &String)
        ensures
            r@ == self.spec_setting()@,
    {
        &self.setting
    }

    /// Appends events to the history that `run_backtesting` replays.
    pub fn load_history(&mut self, data: Vec<MixData>)
        ensures
            final(self).spec_history() == old(self).spec_history() + data@,
            final(self).trades() == old(self).trades(),
            final(self).orders() == old(self).orders(),
            final(self).closes() == old(self).closes(),
    {
        proof {
            use_type_invariant(&*self);
        }
        let mut data = data;
        let mut history: Vec<MixData> = Vec::new();
        std::mem::swap(&mut history, &mut self.history_data);
        history.append(&mut data);
        self.history_data = history;
    }

    pub fn history_len(&self) -> (r: usize)
        ensures
            r == self.spec_history().len(),
    {
        self.history_data.len()
    }

    /// Sends an order at `price` rounded to the price tick: a stop order when
    /// `stop`, else a limit order. Returns the new order's reference, or
    /// nothing when the rounded price leaves `i64` or ids are exhausted.
    pub fn send_order(
        &mut self,
        direction: Direction,
        offset: Offset,
        price: i64,
        volume: i64,
        stop: bool,
        lock: bool,
        net: bool,
    ) -> (r: Vec<OrderRef>)
        ensures
            same_run(*old(self), *final(self)),
            final(self).trades() == old(self).trades(),
            final(self).spec_pos() == old(self).spec_pos(),
            final(self).closes() == old(self).closes(),
            ({
                let rp = round_to_spec(price as int, old(self).spec_pricetick() as int);
                let fits = i64::MIN <= rp <= i64::MAX;
                let b = old(self).book_view();
                &&& (!fits ==> r@.len() == 0 && final(self).orders() == old(self).orders()
                    && final(self).stops() == old(self).stops())
                &&& (fits && stop ==> if b.stops().len() < usize::MAX {
                    &&& r@ == seq![OrderRef::Stop((b.stops().len() + 1) as u64)]
                    &&& final(self).stops() == b.stops().push(
                        new_stop_order(b.vt_symbol(), b.strategy_name(), (b.stops().len() + 1) as int,
                            direction, offset, rp as i64, volume, old(self).spec_datetime(), lock, net),
                    )
                    &&& final(self).orders() == old(self).orders()
                } else {
                    r@.len() == 0 && final(self).stops() == old(self).stops() && final(self).orders() == old(self).orders()
                })
                &&& (fits && !stop ==> if b.orders().len() < usize::MAX {
                    &&& r@ == seq![OrderRef::Limit((b.orders().len() + 1) as u64)]
                    &&& final(self).orders() == b.orders().push(
                        new_limit_order(b.symbol(), b.exchange(), (b.orders().len() + 1) as int,
                            direction, offset, rp as i64, volume, old(self).spec_datetime()),
                    )
                    &&& final(self).stops() == old(self).stops()
                } else {
                    r@.len() == 0 && final(self).orders() == old(self).orders() && final(self).stops() == old(self).stops()
                })
            }),
    {
        proof {
            use_type_invariant(&*self);
        }
        let rounded = round_to_wide(price, self.pricetick);
        if rounded < i64::MIN as i128 || rounded > i64::MAX as i128 {
            return Vec::new();
        }
        let price = rounded as i64;
        let mut r: Vec<OrderRef> = Vec::new();
        if stop {
            match self.send_stop_order(direction, offset, price, volume, lock, net) {
                Some(id) => r.push(OrderRef::Stop(id)),
                None => {},
            }
        } else {
            match self.send_limit_order(direction, offset, price, volume) {
                Some(id) => r.push(OrderRef::Limit(id)),
                None => {},
            }
        }
        r
    }

    fn send_stop_order(
        &mut self,
        direction: Direction,
        offset: Offset,
        price: i64,
        volume: i64,
        lock: bool,
        net: bool,
    ) -> (r: Option<u64>)
        ensures
            same_run(*old(self), *final(self)),
            final(self).trades() == old(self).trades(),
            final(self).spec_pos() == old(self).spec_pos(),
            final(self).closes() == old(self).closes(),
            final(self).orders() == old(self).orders(),
            final(self).spec_pricetick() == old(self).spec_pricetick(),
            ({
                let b = old(self).book_view();
                if b.stops().len() < usize::MAX {
                    &&& r == Some((b.stops().len() + 1) as u64)
                    &&& final(self).stops() == b.stops().push(
                        new_stop_order(b.vt_symbol(), b.strategy_name(), (b.stops().len() + 1) as int,
                            direction, offset, price, volume, old(self).spec_datetime(), lock, net),
                    )
                } else {
                    r is None && final(self).stops() == old(self).stops()
                }
            }),
    {
        proof {
            use_type_invariant(&*self);
        }
        let mut book = OrderBook::new(String::new(), Exchange::LOCAL, String::new(), String::new());
        std::mem::swap(&mut book, &mut self.book);
        let r = book.send_stop_order(direction, offset, price, volume, self.datetime, lock, net);
        self.book = book;
        r
    }

    fn send_limit_order(&mut self, direction: Direction, offset: Offset, price: i64, volume: i64) -> (r:
        Option<u64>)
        ensures
            same_run(*old(self), *final(self)),
            final(self).trades() == old(self).trades(),
            final(self).spec_pos() == old(self).spec_pos(),
            final(self).closes() == old(self).closes(),
            final(self).stops() == old(self).stops(),
            final(self).spec_pricetick() == old(self).spec_pricetick(),
            ({
                let b = old(self).book_view();
                if b.orders().len() < usize::MAX {
                    &&& r == Some((b.orders().len() + 1) as u64)
                    &&& final(self).orders() == b.orders().push(
                        new_limit_order(b.symbol(), b.exchange(), (b.orders().len() + 1) as int,
                            direction, offset, price, volume, old(self).spec_datetime()),
                    )
                } else {
                    r is None && final(self).orders() == old(self).orders()
                }
            }),
    {
        proof {
            use_type_invariant(&*self);
        }
        let mut book = OrderBook::new(String::new(), Exchange::LOCAL, String::new(), String::new());
        std::mem::swap(&mut book, &mut self.book);
        let r = book.send_limit_order(direction, offset, price, volume, self.datetime);
        self.book = book;
        r
    }

    /// Cancels the referenced order if it is still working, and queues the
    /// notice of it for the strategy.
    pub fn cancel_order(&mut self, vt_orderid: OrderRef)
        ensures
            same_run(*old(self), *final(self)),
            final(self).trades() == old(self).trades(),
            final(self).spec_pos() == old(self).spec_pos(),
            final(self).closes() == old(self).closes(),
            vt_orderid matches OrderRef::Limit(id) ==> {
                let live = 1 <= id <= old(self).orders().len() && old(self).orders()[id - 1].status.spec_is_active();
                &&& final(self).stops() == old(self).stops()
                &&& live ==> final(self).orders() == old(self).orders().update(
                    id - 1,
                    OrderData { status: Status::CANCELLED, ..old(self).orders()[id - 1] },
                ) && final(self).pending() == old(self).pending().push(Notice::Order(id, Status::CANCELLED))
                &&& !live ==> final(self).orders() == old(self).orders() && final(self).pending() == old(self).pending()
            },
            vt_orderid matches OrderRef::Stop(id) ==> {
                let live = 1 <= id <= old(self).stops().len() && old(self).stops()[id - 1].status
                    == crate::base::StopOrderStatus::WAITING;
                &&& final(self).orders() == old(self).orders()
                &&& live ==> final(self).stops() == old(self).stops().update(
                    id - 1,
                    StopOrder { status: crate::base::StopOrderStatus::CANCELLED, ..old(self).stops()[id - 1] },
                ) && final(self).pending() == old(self).pending().push(Notice::StopOrder(id))
                &&& !live ==> final(self).stops() == old(self).stops() && final(self).pending() == old(self).pending()
            },
    {
        match vt_orderid {
            OrderRef::Limit(id) => self.cancel_limit_order(id),
            OrderRef::Stop(id) => self.cancel_stop_order(id),
        }
    }

    /// Cancels the order that an id text names (see `OrderRef::from_vt_orderid`);
    /// text that names no order changes nothing.
    pub fn cancel_vt_order(&mut self, vt_orderid: &str)
        ensures
            same_run(*old(self), *final(self)),
            parse_order_ref(vt_orderid@) is None ==> *final(self) == *old(self),
            parse_order_ref(vt_orderid@) matches Some(OrderRef::Limit(id)) ==> {
                let live = 1 <= id <= old(self).orders().len() && old(self).orders()[id - 1].status.spec_is_active();
                &&& final(self).stops() == old(self).stops()
                &&& live ==> final(self).orders() == old(self).orders().update(
                    id - 1,
                    OrderData { status: Status::CANCELLED, ..old(self).orders()[id - 1] },
                )
                &&& !live ==> final(self).orders() == old(self).orders()
            },
            parse_order_ref(vt_orderid@) matches Some(OrderRef::Stop(id)) ==> {
                let live = 1 <= id <= old(self).stops().len() && old(self).stops()[id - 1].status
                    == crate::base::StopOrderStatus::WAITING;
                &&& final(self).orders() == old(self).orders()
                &&& live ==> final(self).stops() == old(self).stops().update(
                    id - 1,
                    StopOrder { status: crate::base::StopOrderStatus::CANCELLED, ..old(self).stops()[id - 1] },
                )
                &&& !live ==> final(self).stops() == old(self).stops()
            },
    {
        match OrderRef::from_vt_orderid(vt_orderid) {
            Some(r) => self.cancel_order(r),
            None => {},
        }
    }

    fn cancel_limit_order(&mut self, id: u64)
        ensures
            same_run(*old(self), *final(self)),
            final(self).trades() == old(self).trades(),
            final(self).spec_pos() == old(self).spec_pos(),
            final(self).closes() == old(self).closes(),
            final(self).stops() == old(self).stops(),
            final(self).active_stops() == old(self).active_stops(),
            ({
                let live = 1 <= id <= old(self).orders().len() && old(self).orders()[id - 1].status.spec_is_active();
                &&& live ==> final(self).orders() == old(self).orders().update(
                    id - 1,
                    OrderData { status: Status::CANCELLED, ..old(self).orders()[id - 1] },
                ) && final(self).pending() == old(self).pending().push(Notice::Order(id, Status::CANCELLED))
                &&& !live ==> final(self).orders() == old(self).orders() && final(self).pending() == old(self).pending()
            }),
    {
        proof {
            use_type_invariant(&*self);
        }
        let mut book = OrderBook::new(String::new(), Exchange::LOCAL, String::new(), String::new());
        std::mem::swap(&mut book, &mut self.book);
        let cancelled = book.cancel_limit_order(id);
        self.book = book;
        if cancelled {
            self.queue_notice(Notice::Order(id, Status::CANCELLED));
        }
    }

    fn cancel_stop_order(&mut self, id: u64)
        ensures
            same_run(*old(self), *final(self)),
            final(self).trades() == old(self).trades(),
            final(self).spec_pos() == old(self).spec_pos(),
            final(self).closes() == old(self).closes(),
            final(self).orders() == old(self).orders(),
            final(self).active_orders() == old(self).active_orders(),
            ({
                let live = 1 <= id <= old(self).stops().len() && old(self).stops()[id - 1].status
                    == crate::base::StopOrderStatus::WAITING;
                &&& live ==> final(self).stops() == old(self).stops().update(
                    id - 1,
                    StopOrder { status: crate::base::StopOrderStatus::CANCELLED, ..old(self).stops()[id - 1] },
                ) && final(self).pending() == old(self).pending().push(Notice::StopOrder(id))
                &&& !live ==> final(self).stops() == old(self).stops() && final(self).pending() == old(self).pending()
            }),
    {
        proof {
            use_type_invariant(&*self);
        }
        let mut book = OrderBook::new(String::new(), Exchange::LOCAL, String::new(), String::new());
        std::mem::swap(&mut book, &mut self.book);
        let cancelled = book.cancel_stop_order(id);
        self.book = book;
        if cancelled {
            self.queue_notice(Notice::StopOrder(id));
        }
    }
}


impl BacktestingEngine {
    /// Queues a notice for the strategy.
    fn queue_notice(&mut self, n: Notice)
        ensures
            same_run(*old(self), *final(self)),
            final(self).pending() == old(self).pending().push(n),
            final(self).book_view() == old(self).book_view(),
            final(self).closes() == old(self).closes(),
            final(self).spec_pricetick() == old(self).spec_pricetick(),
            final(self).spec_datetime() == old(self).spec_datetime(),
    {
        proof {
            use_type_invariant(&*self);
        }
        let mut pending: Vec<Notice> = Vec::new();
        std::mem::swap(&mut pending, &mut self.pending);
        pending.push(n);
        self.pending = pending;
    }
}


/// A copy of a list of ids.
fn copy_ids(v: &Vec<u64>) -> (r: Vec<u64>)
    ensures
        r@ == v@,
{
    let mut r: Vec<u64> = Vec::new();
    let mut i: usize = 0;
    while i < v.len()
        invariant
            i <= v@.len(),
            r@ == v@.take(i as int),
        decreases v@.len() - i,
    {
        r.push(v[i]);
        i += 1;
        assert(r@ =~= v@.take(i as int));
    }
    assert(v@.take(v@.len() as int) =~= v@);
    r
}

/// A limit order as a cancellation leaves it.
pub open spec fn cancelled_order(o: OrderData) -> OrderData {
    if o.status.spec_is_active() {
        OrderData { status: Status::CANCELLED, ..o }
    } else {
        o
    }
}

/// A stop order as a cancellation leaves it.
pub open spec fn cancelled_stop(s: StopOrder) -> StopOrder {
    if s.status == crate::base::StopOrderStatus::WAITING {
        StopOrder { status: crate::base::StopOrderStatus::CANCELLED, ..s }
    } else {
        s
    }
}

impl BacktestingEngine {
    /// Cancels every working limit order, then every waiting stop order, and
    /// queues a notice of each.
    pub fn cancel_all(&mut self)
        ensures
            same_run(*old(self), *final(self)),
            final(self).orders() == old(self).orders().map_values(|o: OrderData| cancelled_order(o)),
            final(self).stops() == old(self).stops().map_values(|s: StopOrder| cancelled_stop(s)),
            final(self).active_orders().len() == 0,
            final(self).active_stops().len() == 0,
            final(self).pending() == old(self).pending() + old(self).active_orders().map_values(
                |id: u64| Notice::Order(id, Status::CANCELLED),
            ) + old(self).active_stops().map_values(|id: u64| Notice::StopOrder(id)),
            final(self).trades() == old(self).trades(),
            final(self).spec_pos() == old(self).spec_pos(),
            final(self).closes() == old(self).closes(),
    {
        proof {
            use_type_invariant(&*self);
        }
        let ghost old_orders = self.orders();
        let ghost old_stops = self.stops();
        let ids = copy_ids(self.book.active_order_ids());
        let n = ids.len();
        let mut k: usize = 0;
        assert(ids@.take(0) =~= Seq::<u64>::empty());
        while k < n
            invariant
                n == ids@.len(),
                k <= n,
                crate::book::active_orders_wf(ids@, old_orders),
                old_orders.len() <= usize::MAX,
                self.orders().len() == old_orders.len(),
                forall|i: int|
                    0 <= i < old_orders.len() ==> #[trigger] self.orders()[i] == if ids@.take(k as int).contains(
                        (i + 1) as u64,
                    ) {
                        cancelled_order(old_orders[i])
                    } else {
                        old_orders[i]
                    },
                self.stops() == old_stops,
                self.active_stops() == old(self).active_stops(),
                same_run(*old(self), *self),
                ids@ == old(self).active_orders(),
                self.pending() == old(self).pending() + ids@.take(k as int).map_values(
                    |id: u64| Notice::Order(id, Status::CANCELLED),
                ),
                self.trades() == old(self).trades(),
                self.spec_pos() == old(self).spec_pos(),
                self.closes() == old(self).closes(),
            decreases n - k,
        {
            let id = ids[k];
            proof {
                assert(!ids@.take(k as int).contains(id)) by {
                    if ids@.take(k as int).contains(id) {
                        let m = choose|m: int| 0 <= m < k && ids@.take(k as int)[m] == id;
                        assert(ids@[m] < ids@[k as int]);
                    }
                }
                assert(ids@.contains(id)) by {
                    assert(ids@[k as int] == id);
                }
                assert(1 <= id <= old_orders.len());
                assert(self.orders()[id - 1] == old_orders[id - 1]);
            }
            let ghost before = self.orders();
            let ghost p_before = self.pending();
            self.cancel_limit_order(id);
            assert(ids@.take(k as int + 1).map_values(|x: u64| Notice::Order(x, Status::CANCELLED)) =~= ids@.take(
                k as int,
            ).map_values(|x: u64| Notice::Order(x, Status::CANCELLED)).push(Notice::Order(id, Status::CANCELLED)));
            assert(self.pending() =~= old(self).pending() + ids@.take(k as int + 1).map_values(
                |x: u64| Notice::Order(x, Status::CANCELLED),
            ));
            proof {
                let tk1 = ids@.take(k as int + 1);
                assert forall|i: int| 0 <= i < old_orders.len() implies #[trigger] self.orders()[i] == if tk1.contains((i + 1) as u64) {
                    cancelled_order(old_orders[i])
                } else {
                    old_orders[i]
                } by {
                    if ids@.take(k as int).contains((i + 1) as u64) {
                        let m = choose|m: int| 0 <= m < k && ids@.take(k as int)[m] == (i + 1) as u64;
                        assert(tk1[m] == (i + 1) as u64);
                    }
                    if tk1.contains((i + 1) as u64) && !ids@.take(k as int).contains((i + 1) as u64) {
                        let m = choose|m: int| 0 <= m < k + 1 && tk1[m] == (i + 1) as u64;
                        assert(m == k);
                    }
                    if i != id - 1 {
                        assert(self.orders()[i] == before[i]);
                    } else {
                        assert(tk1[k as int] == id);
                    }
                }
            }
            k += 1;
        }
        let sids = copy_ids(self.book.active_stop_ids());
        let ns = sids.len();
        let mut k: usize = 0;
        assert(sids@.take(0) =~= Seq::<u64>::empty());
        assert(ids@.take(n as int) =~= ids@);
        let ghost mid_orders = self.orders();
        let ghost mid_pending = self.pending();
        assert(mid_pending == old(self).pending() + ids@.map_values(|id: u64| Notice::Order(id, Status::CANCELLED)));
        while k < ns
            invariant
                ns == sids@.len(),
                k <= ns,
                crate::book::active_stops_wf(sids@, old_stops),
                old_stops.len() <= usize::MAX,
                self.stops().len() == old_stops.len(),
                forall|j: int|
                    0 <= j < old_stops.len() ==> #[trigger] self.stops()[j] == if sids@.take(k as int).contains(
                        (j + 1) as u64,
                    ) {
                        cancelled_stop(old_stops[j])
                    } else {
                        old_stops[j]
                    },
                self.orders() == mid_orders,
                same_run(*old(self), *self),
                sids@ == old(self).active_stops(),
                self.pending() == mid_pending + sids@.take(k as int).map_values(|id: u64| Notice::StopOrder(id)),
                self.trades() == old(self).trades(),
                self.spec_pos() == old(self).spec_pos(),
                self.closes() == old(self).closes(),
            decreases ns - k,
        {
            let id = sids[k];
            proof {
                assert(!sids@.take(k as int).contains(id)) by {
                    if sids@.take(k as int).contains(id) {
                        let m = choose|m: int| 0 <= m < k && sids@.take(k as int)[m] == id;
                        assert(sids@[m] < sids@[k as int]);
                    }
                }
                assert(sids@.contains(id)) by {
                    assert(sids@[k as int] == id);
                }
                assert(1 <= id <= old_stops.len());
                assert(self.stops()[id - 1] == old_stops[id - 1]);
            }
            let ghost before = self.stops();
            self.cancel_stop_order(id);
            assert(sids@.take(k as int + 1).map_values(|x: u64| Notice::StopOrder(x)) =~= sids@.take(
                k as int,
            ).map_values(|x: u64| Notice::StopOrder(x)).push(Notice::StopOrder(id)));
            assert(self.pending() =~= mid_pending + sids@.take(k as int + 1).map_values(|x: u64| Notice::StopOrder(x)));
            proof {
                let tk1 = sids@.take(k as int + 1);
                assert forall|j: int| 0 <= j < old_stops.len() implies #[trigger] self.stops()[j] == if tk1.contains((j + 1) as u64) {
                    cancelled_stop(old_stops[j])
                } else {
                    old_stops[j]
                } by {
                    if sids@.take(k as int).contains((j + 1) as u64) {
                        let m = choose|m: int| 0 <= m < k && sids@.take(k as int)[m] == (j + 1) as u64;
                        assert(tk1[m] == (j + 1) as u64);
                    }
                    if tk1.contains((j + 1) as u64) && !sids@.take(k as int).contains((j + 1) as u64) {
                        let m = choose|m: int| 0 <= m < k + 1 && tk1[m] == (j + 1) as u64;
                        assert(m == k);
                    }
                    if j != id - 1 {
                        assert(self.stops()[j] == before[j]);
                    } else {
                        assert(tk1[k as int] == id);
                    }
                }
            }
            k += 1;
        }
        proof {
            use_type_invariant(&*self);
            assert(sids@.take(ns as int) =~= sids@);
            assert(ids@.take(n as int) =~= ids@);
            assert(self.orders() =~= old_orders.map_values(|o: OrderData| cancelled_order(o))) by {
                assert forall|i: int| 0 <= i < old_orders.len() implies #[trigger] self.orders()[i] == cancelled_order(old_orders[i]) by {
                    if !ids@.contains((i + 1) as u64) {
                        assert(!old_orders[i].status.spec_is_active());
                    }
                }
            }
            assert(self.stops() =~= old_stops.map_values(|s: StopOrder| cancelled_stop(s))) by {
                assert forall|j: int| 0 <= j < old_stops.len() implies #[trigger] self.stops()[j] == cancelled_stop(old_stops[j]) by {
                    if !sids@.contains((j + 1) as u64) {
                        assert(old_stops[j].status != crate::base::StopOrderStatus::WAITING);
                    }
                }
            }
            let act = self.active_orders();
            if act.len() > 0 {
                let x = act[0];
                assert(act.contains(x));
                assert(self.orders()[x - 1].status.spec_is_active());
            }
            let acts = self.active_stops();
            if acts.len() > 0 {
                let x = acts[0];
                assert(acts.contains(x));
                assert(self.stops()[x - 1].status == crate::base::StopOrderStatus::WAITING);
            }
        }
    }
}


impl BacktestingEngine {
    /// The deterministic part of one event at time `t` with closing price
    /// `close`: the day's close is recorded, then limit orders are matched
    /// against `lp` and stop orders against `sp`.
    fn process_event(&mut self, t: i64, close: i64, lp: CrossPrices, sp: CrossPrices) -> (notices: Vec<Notice>)
        ensures
            final(self).spec_datetime() == t,
            final(self).closes() == upsert_close(old(self).closes(), day_of(t as int) as i64, close),
            final(self).book_view().sstate() == event_fold(old(self).book_view(), lp, sp, t),
            notices@ == event_notices(old(self).book_view(), lp, sp, t),
            book_names(final(self).book_view()) == book_names(old(self).book_view()),
            final(self).pending() == old(self).pending(),
            final(self).spec_history() == old(self).spec_history(),
            final(self).spec_inited() == old(self).spec_inited(),
            final(self).spec_trading() == old(self).spec_trading(),
            final(self).spec_start() == old(self).spec_start(),
            final(self).trades().len() >= old(self).trades().len(),
            forall|q: int| 0 <= q < old(self).trades().len() ==> #[trigger] final(self).trades()[q] == old(self).trades()[q],
            final(self).spec_pricetick() == old(self).spec_pricetick(),
            final(self).spec_size() == old(self).spec_size(),
            final(self).spec_rate() == old(self).spec_rate(),
            final(self).spec_slippage() == old(self).spec_slippage(),
            final(self).spec_mode() == old(self).spec_mode(),
    {
        proof {
            use_type_invariant(&*self);
        }
        let ghost old_closes = self.daily_closes@;
        let ghost old_trades = self.book.trades();
        self.datetime = t;
        let d = date_of(t);
        let mut book = OrderBook::new(String::new(), Exchange::LOCAL, String::new(), String::new());
        std::mem::swap(&mut book, &mut self.book);
        let mut closes: Vec<DailyClose> = Vec::new();
        std::mem::swap(&mut closes, &mut self.daily_closes);
        upsert_daily_close(&mut closes, d, close);
        let ghost b0 = book;
        let mut notices = book.cross_limit_orders(lp, t);
        let ghost b1 = book;
        let mut more = book.cross_stop_orders(sp, t);
        let ghost n1 = notices@;
        let ghost n2 = more@;
        notices.append(&mut more);
        assert(notices@ =~= n1 + n2);
        proof {
            let trades = book.trades();
            assert forall|k: int| 0 <= k < trades.len() implies has_day(
                closes@,
                day_of((#[trigger] trades[k]).datetime as int),
            ) by {
                if k < old_trades.len() {
                    assert(trades[k] == b1.trades()[k]);
                    assert(b1.trades()[k] == old_trades[k]);
                    assert(has_day(old_closes, day_of(old_trades[k].datetime as int)));
                } else if k < b1.trades().len() {
                    assert(trades[k] == b1.trades()[k]);
                    assert(has_day(closes@, d as int));
                } else {
                    assert(has_day(closes@, d as int));
                }
            }
        }
        self.daily_closes = closes;
        self.book = book;
        notices
    }

    /// Records `bar` as the current event and matches the working orders
    /// against it; returns what the strategy is to be told.
    pub fn process_bar(&mut self, bar: &BarData) -> (notices: Vec<Notice>)
        ensures
            final(self).spec_datetime() == bar.datetime,
            final(self).closes() == upsert_close(
                old(self).closes(),
                day_of(bar.datetime as int) as i64,
                bar.close_price,
            ),
            final(self).book_view().sstate() == event_fold(
                old(self).book_view(),
                bar_limit_prices(*bar),
                bar_stop_prices(*bar),
                bar.datetime,
            ),
            notices@ == event_notices(old(self).book_view(), bar_limit_prices(*bar), bar_stop_prices(*bar), bar.datetime),
            book_names(final(self).book_view()) == book_names(old(self).book_view()),
            final(self).spec_pricetick() == old(self).spec_pricetick(),
            final(self).pending() == old(self).pending(),
            final(self).spec_history() == old(self).spec_history(),
            final(self).spec_inited() == old(self).spec_inited(),
            final(self).spec_trading() == old(self).spec_trading(),
            final(self).spec_start() == old(self).spec_start(),
            final(self).spec_mode() == old(self).spec_mode(),
            final(self).trades().len() >= old(self).trades().len(),
            forall|q: int| 0 <= q < old(self).trades().len() ==> #[trigger] final(self).trades()[q] == old(self).trades()[q],
    {
        let lp = CrossPrices {
            long_cross: bar.low_price,
            short_cross: bar.high_price,
            long_best: bar.open_price,
            short_best: bar.open_price,
        };
        let sp = CrossPrices {
            long_cross: bar.high_price,
            short_cross: bar.low_price,
            long_best: bar.open_price,
            short_best: bar.open_price,
        };
        let notices = self.process_event(bar.datetime, bar.close_price, lp, sp);
        proof {
            use_type_invariant(&*self);
        }
        self.bar = Some(bar.clone());
        notices
    }

    /// Records `tick` as the current event and matches the working orders
    /// against it; the day's close is the tick's last price.
    pub fn process_tick(&mut self, tick: &TickData) -> (notices: Vec<Notice>)
        ensures
            final(self).spec_datetime() == tick.datetime,
            final(self).closes() == upsert_close(
                old(self).closes(),
                day_of(tick.datetime as int) as i64,
                tick.last_price,
            ),
            final(self).book_view().sstate() == event_fold(
                old(self).book_view(),
                tick_limit_prices(*tick),
                tick_stop_prices(*tick),
                tick.datetime,
            ),
            notices@ == event_notices(old(self).book_view(), tick_limit_prices(*tick), tick_stop_prices(*tick), tick.datetime),
            book_names(final(self).book_view()) == book_names(old(self).book_view()),
            final(self).spec_pricetick() == old(self).spec_pricetick(),
            final(self).pending() == old(self).pending(),
            final(self).spec_history() == old(self).spec_history(),
            final(self).spec_inited() == old(self).spec_inited(),
            final(self).spec_trading() == old(self).spec_trading(),
            final(self).spec_start() == old(self).spec_start(),
            final(self).spec_mode() == old(self).spec_mode(),
            final(self).trades().len() >= old(self).trades().len(),
            forall|q: int| 0 <= q < old(self).trades().len() ==> #[trigger] final(self).trades()[q] == old(self).trades()[q],
    {
        let lp = CrossPrices {
            long_cross: tick.ask_price_1,
            short_cross: tick.bid_price_1,
            long_best: tick.ask_price_1,
            short_best: tick.bid_price_1,
        };
        let sp = CrossPrices {
            long_cross: tick.last_price,
            short_cross: tick.last_price,
            long_best: tick.last_price,
            short_best: tick.last_price,
        };
        let notices = self.process_event(tick.datetime, tick.last_price, lp, sp);
        proof {
            use_type_invariant(&*self);
        }
        self.tick = Some(tick.clone());
        notices
    }

    /// What the strategy is shown of the engine now.
    fn context(&self) -> (r: StrategyContext)
        ensures
            r.spec_pos() == self.spec_pos(),
            r.spec_pricetick() == self.spec_pricetick(),
            r.requests().len() == 0,
            r.spec_base() == (self.orders().len() as int, self.stops().len() as int),
            r.consistent(),
    {
        proof {
            use_type_invariant(self);
        }
        StrategyContext {
            pos: self.book.position(),
            datetime: self.datetime,
            start: self.start,
            pricetick: self.pricetick,
            base_orders: self.book.order_count(),
            base_stops: self.book.stop_count(),
            order_count: self.book.order_count(),
            stop_count: self.book.stop_count(),
            requests: Vec::new(),
        }
    }

    /// Carries out the strategy's requests, in the order made, and returns them.
    fn apply_requests(&mut self, ctx: StrategyContext) -> (r: Vec<Request>)
        ensures
            same_run(*old(self), *final(self)),
            r@ == ctx.requests(),
            (final(self).orders(), final(self).stops()) == requests_fold(
                (old(self).orders(), old(self).stops()),
                r@,
                book_names(old(self).book_view()),
                old(self).spec_datetime(),
                old(self).spec_pricetick(),
            ),
    {
        let reqs = ctx.into_requests();
        let ghost s0 = (self.orders(), self.stops());
        let ghost b0 = book_names(self.book_view());
        let n = reqs.len();
        let mut i: usize = 0;
        assert(reqs@.take(0) =~= Seq::<Request>::empty());
        while i < n
            invariant
                n == reqs@.len(),
                i <= n,
                same_run(*old(self), *self),
                b0 == book_names(old(self).book_view()),
                s0 == (old(self).orders(), old(self).stops()),
                (self.orders(), self.stops()) == requests_fold(
                    s0,
                    reqs@.take(i as int),
                    b0,
                    old(self).spec_datetime(),
                    old(self).spec_pricetick(),
                ),
            decreases n - i,
        {
            assert(reqs@.take(i as int + 1).drop_last() =~= reqs@.take(i as int));
            assert(reqs@.take(i as int + 1).last() == reqs@[i as int]);
            let ghost st = (self.orders(), self.stops());
            match reqs[i] {
                Request::Send { direction, offset, price, volume, stop, lock, net } => {
                    let ghost bb = self.book_view();
                    let _ = self.send_order(direction, offset, price, volume, stop, lock, net);
                    proof {
                        assert(book_names(bb) == b0);
                        assert(reqs@[i as int] == Request::Send { direction, offset, price, volume, stop, lock, net });
                        let rp = round_to_spec(price as int, old(self).spec_pricetick() as int);
                        let rs = request_step(st, reqs@[i as int], b0, old(self).spec_datetime(), old(self).spec_pricetick());
                        if !(i64::MIN <= rp <= i64::MAX) {
                            assert((self.orders(), self.stops()) == rs);
                        } else if stop {
                            if st.1.len() < usize::MAX {
                                assert((self.orders(), self.stops()) == rs);
                            } else {
                                assert((self.orders(), self.stops()) == rs);
                            }
                        } else {
                            if st.0.len() < usize::MAX {
                                assert((self.orders(), self.stops()) == rs);
                            } else {
                                assert((self.orders(), self.stops()) == rs);
                            }
                        }
                    }
                },
                Request::Cancel(o) => {
                    self.cancel_order(o);
                    assert((self.orders(), self.stops()) == request_step(st, reqs@[i as int], b0,
                        old(self).spec_datetime(), old(self).spec_pricetick()));
                },
                Request::CancelAll => {
                    self.cancel_all();
                    assert(self.orders() =~= st.0.map_values(|o: OrderData| cancelled_order(o)));
                    assert(self.stops() =~= st.1.map_values(|x: StopOrder| cancelled_stop(x)));
                },
            }
            assert((self.orders(), self.stops()) == request_step(
                st,
                reqs@[i as int],
                b0,
                old(self).spec_datetime(),
                old(self).spec_pricetick(),
            ));
            i += 1;
        }
        assert(reqs@.take(n as int) =~= reqs@);
        reqs
    }

    /// The position before the trades that `notices` name: the position less
    /// their signed volume; `None` when a running amount leaves 128 bits.
    fn position_before(&self, notices: &Vec<Notice>) -> (r: Option<i128>)
        ensures
            r matches Some(x) ==> x == self.spec_pos() - notices_change(self.trades(), notices@),
            r is None ==> exists|k: int|
                0 < k <= notices@.len() && !crate::daily::in_i128(
                    #[trigger] (self.spec_pos() - notices_change(self.trades(), notices@.take(k))),
                ),
    {
        let n = notices.len();
        let mut before: i128 = self.book.position();
        let mut i: usize = 0;
        assert(notices@.take(0) =~= Seq::<Notice>::empty());
        while i < n
            invariant
                n == notices@.len(),
                i <= n,
                before == self.spec_pos() - notices_change(self.trades(), notices@.take(i as int)),
            decreases n - i,
        {
            assert(notices@.take(i as int + 1).drop_last() =~= notices@.take(i as int));
            if let Notice::Trade(id) = notices[i] {
                let count = self.book.trade_count();
                if id >= 1 && id <= count as u64 {
                    let t = self.book.trade_at((id - 1) as usize);
                    let v = t.volume as i128;
                    let change: i128 = if t.direction == Direction::LONG {
                        v
                    } else {
                        -v
                    };
                    match before.checked_sub(change) {
                        Some(x) => before = x,
                        None => {
                            assert(!crate::daily::in_i128(
                                self.spec_pos() - notices_change(self.trades(), notices@.take(i as int + 1)),
                            ));
                            return None;
                        },
                    }
                }
            }
            i += 1;
        }
        assert(notices@.take(n as int) =~= notices@);
        Some(before)
    }

    /// Tells the strategy, in order, what `notices` report, then carries out
    /// what it asked for meanwhile and returns those requests. Each trade is
    /// shown with the position just after it (the position before the event
    /// plus the trades shown so far); should that leave 128 bits, the position
    /// after the event is shown throughout.
    fn deliver<S: Strategy>(&mut self, strategy: &mut S, notices: &Vec<Notice>) -> (r: Vec<Request>)
        ensures
            same_run(*old(self), *final(self)),
            (final(self).orders(), final(self).stops()) == requests_fold(
                (old(self).orders(), old(self).stops()),
                r@,
                book_names(old(self).book_view()),
                old(self).spec_datetime(),
                old(self).spec_pricetick(),
            ),
    {
        let mut ctx = self.context();
        let n = notices.len();
        let exact = match self.position_before(notices) {
            Some(x) => {
                ctx.set_pos(x);
                true
            },
            None => false,
        };
        let mut i: usize = 0;
        while i < n
            invariant
                n == notices@.len(),
                i <= n,
            decreases n - i,
        {
            match notices[i] {
                Notice::Order(id, status) => {
                    let count = self.book.order_count();
                    if id >= 1 && id <= count as u64 {
                        let mut o = self.book.order_at((id - 1) as usize).duplicate();
                        o.status = status;
                        strategy.on_order(&mut ctx, &o);
                    }
                },
                Notice::Trade(id) => {
                    let count = self.book.trade_count();
                    if id >= 1 && id <= count as u64 {
                        let t = self.book.trade_at((id - 1) as usize);
                        if exact {
                            let v = t.volume as i128;
                            let change: i128 = if t.direction == Direction::LONG {
                                v
                            } else {
                                -v
                            };
                            match ctx.pos().checked_add(change) {
                                Some(x) => ctx.set_pos(x),
                                None => {},
                            }
                        }
                        strategy.on_trade(&mut ctx, t);
                    }
                },
                Notice::StopOrder(id) => {
                    let count = self.book.stop_count();
                    if id >= 1 && id <= count as u64 {
                        strategy.on_stop_order(&mut ctx, self.book.stop_at((id - 1) as usize));
                    }
                },
            }
            i += 1;
        }
        self.apply_requests(ctx)
    }

    /// Tells the strategy what its own requests queued (cancellations), and
    /// carries out what it asks for meanwhile.
    fn deliver_pending<S: Strategy>(&mut self, strategy: &mut S) -> (r: Vec<Request>)
        ensures
            same_run(*old(self), *final(self)),
            (final(self).orders(), final(self).stops()) == requests_fold(
                (old(self).orders(), old(self).stops()),
                r@,
                book_names(old(self).book_view()),
                old(self).spec_datetime(),
                old(self).spec_pricetick(),
            ),
    {
        proof {
            use_type_invariant(&*self);
        }
        let mut pending: Vec<Notice> = Vec::new();
        std::mem::swap(&mut pending, &mut self.pending);
        self.deliver(strategy, &pending)
    }

    /// Calls the strategy's `on_init`, `on_start` or `on_stop` and carries out
    /// its requests.
    fn ask_lifecycle<S: Strategy>(&mut self, strategy: &mut S, phase: Phase)
        ensures
            same_run(*old(self), *final(self)),
    {
        let mut ctx = self.context();
        match phase {
            Phase::Init => strategy.on_init(&mut ctx),
            Phase::Start => strategy.on_start(&mut ctx),
            Phase::Stop => strategy.on_stop(&mut ctx),
        }
        let _ = self.apply_requests(ctx);
    }

    /// Asks the strategy through `on_bar` or `on_tick` of `event` and
    /// carries out its requests; then delivers what they queued.
    fn ask_strategy<S: Strategy>(&mut self, strategy: &mut S, event: &MixData) -> (r: Vec<Request>)
        ensures
            same_run(*old(self), *final(self)),
            (final(self).orders(), final(self).stops()) == requests_fold(
                (old(self).orders(), old(self).stops()),
                r@,
                book_names(old(self).book_view()),
                old(self).spec_datetime(),
                old(self).spec_pricetick(),
            ),
    {
        let ghost s0 = (self.orders(), self.stops());
        let ghost names = book_names(self.book_view());
        let mut ctx = self.context();
        match event {
            MixData::BarData(bar) => strategy.on_bar(&mut ctx, bar),
            MixData::TickData(tick) => strategy.on_tick(&mut ctx, tick),
        }
        let mut r = self.apply_requests(ctx);
        let ghost s1 = (self.orders(), self.stops());
        let ghost r1 = r@;
        let mut r2 = self.deliver_pending(strategy);
        let ghost r2v = r2@;
        r.append(&mut r2);
        proof {
            lemma_requests_fold_append(s0, r1, r2v, names, self.spec_datetime(), self.spec_pricetick());
        }
        r
    }

    /// Handles one bar: matching (`process_bar`), the strategy's notices, its
    /// `on_bar`, then the notices of what it asked for. The trades, position
    /// and closes are those that matching produced; the orders and stop orders
    /// are those matching left, with the returned requests of the strategy
    /// carried out on them in order.
    pub fn new_bar<S: Strategy>(&mut self, strategy: &mut S, bar: &BarData) -> (r: Vec<Request>)
        ensures
            final(self).spec_datetime() == bar.datetime,
            final(self).closes() == upsert_close(
                old(self).closes(),
                day_of(bar.datetime as int) as i64,
                bar.close_price,
            ),
            ({
                let f = event_fold(old(self).book_view(), bar_limit_prices(*bar), bar_stop_prices(*bar), bar.datetime);
                &&& final(self).trades() == f.2
                &&& final(self).spec_pos() == f.3
                &&& (final(self).orders(), final(self).stops()) == requests_fold(
                    (f.1, f.0),
                    r@,
                    book_names(old(self).book_view()),
                    bar.datetime,
                    old(self).spec_pricetick(),
                )
            }),
            book_names(final(self).book_view()) == book_names(old(self).book_view()),
            final(self).spec_pricetick() == old(self).spec_pricetick(),
            final(self).spec_history() == old(self).spec_history(),
            final(self).spec_inited() == old(self).spec_inited(),
            final(self).spec_trading() == old(self).spec_trading(),
            final(self).spec_mode() == old(self).spec_mode(),
            final(self).trades().len() >= old(self).trades().len(),
            forall|q: int| 0 <= q < old(self).trades().len() ==> #[trigger] final(self).trades()[q] == old(self).trades()[q],
    {
        let notices = self.process_bar(bar);
        let ghost s0 = (self.orders(), self.stops());
        let ghost names = book_names(self.book_view());
        let mut r = self.deliver(strategy, &notices);
        let ghost r1 = r@;
        let ghost s1 = (self.orders(), self.stops());
        let mut r2 = self.ask_strategy(strategy, &MixData::BarData(bar.clone()));
        let ghost r2v = r2@;
        r.append(&mut r2);
        proof {
            lemma_requests_fold_append(s0, r1, r2v, names, self.spec_datetime(), self.spec_pricetick());
        }
        r
    }

    /// Handles one tick like `new_bar`, with `on_tick`.
    pub fn new_tick<S: Strategy>(&mut self, strategy: &mut S, tick: &TickData) -> (r: Vec<Request>)
        ensures
            final(self).spec_datetime() == tick.datetime,
            final(self).closes() == upsert_close(
                old(self).closes(),
                day_of(tick.datetime as int) as i64,
                tick.last_price,
            ),
            ({
                let f = event_fold(old(self).book_view(), tick_limit_prices(*tick), tick_stop_prices(*tick), tick.datetime);
                &&& final(self).trades() == f.2
                &&& final(self).spec_pos() == f.3
                &&& (final(self).orders(), final(self).stops()) == requests_fold(
                    (f.1, f.0),
                    r@,
                    book_names(old(self).book_view()),
                    tick.datetime,
                    old(self).spec_pricetick(),
                )
            }),
            book_names(final(self).book_view()) == book_names(old(self).book_view()),
            final(self).spec_pricetick() == old(self).spec_pricetick(),
            final(self).spec_history() == old(self).spec_history(),
            final(self).spec_inited() == old(self).spec_inited(),
            final(self).spec_trading() == old(self).spec_trading(),
            final(self).spec_mode() == old(self).spec_mode(),
            final(self).trades().len() >= old(self).trades().len(),
            forall|q: int| 0 <= q < old(self).trades().len() ==> #[trigger] final(self).trades()[q] == old(self).trades()[q],
    {
        let notices = self.process_tick(tick);
        let ghost s0 = (self.orders(), self.stops());
        let ghost names = book_names(self.book_view());
        let mut r = self.deliver(strategy, &notices);
        let ghost r1 = r@;
        let mut r2 = self.ask_strategy(strategy, &MixData::TickData(tick.clone()));
        let ghost r2v = r2@;
        r.append(&mut r2);
        proof {
            lemma_requests_fold_append(s0, r1, r2v, names, self.spec_datetime(), self.spec_pricetick());
        }
        r
    }

    /// Runs the strategy over the loaded history: `on_init`, `on_start`, then
    /// each event of the replay mode's kind handled by `new_bar` or `new_tick`
    /// once, in history order, then `on_stop`. The run leaves the engine
    /// initialised and trading, its history as it was, the daily closes and the
    /// time those of the replayed events, and adds to the trades without
    /// changing earlier ones; with nothing to replay, trades and closes stay as
    /// they were.
    pub fn run_backtesting<S: Strategy>(&mut self, strategy: &mut S)
        ensures
            final(self).spec_inited(),
            final(self).spec_trading(),
            final(self).spec_history() == old(self).spec_history(),
            final(self).closes() == replay_closes(old(self).closes(), old(self).spec_history(), old(self).spec_mode()),
            final(self).spec_datetime() == replay_time(
                old(self).spec_datetime(),
                old(self).spec_history(),
                old(self).spec_mode(),
            ),
            final(self).trades().len() >= old(self).trades().len(),
            forall|q: int| 0 <= q < old(self).trades().len() ==> #[trigger] final(self).trades()[q] == old(self).trades()[q],
            replay_count(old(self).spec_history(), old(self).spec_mode()) == 0 ==> final(self).trades() == old(
                self,
            ).trades() && final(self).spec_pos() == old(self).spec_pos(),
    {
        self.ask_lifecycle(strategy, Phase::Init);
        proof {
            use_type_invariant(&*self);
        }
        self.inited = true;
        let _ = self.deliver_pending(strategy);
        self.ask_lifecycle(strategy, Phase::Start);
        proof {
            use_type_invariant(&*self);
        }
        self.trading = true;
        let _ = self.deliver_pending(strategy);
        proof {
            use_type_invariant(&*self);
        }
        let ghost old_history = self.spec_history();
        let ghost t0 = old(self).trades();
        let ghost c0 = self.closes();
        let ghost d0 = self.spec_datetime();
        let ghost mode = self.spec_mode();
        let mut history: Vec<MixData> = Vec::new();
        std::mem::swap(&mut history, &mut self.history_data);
        let n = history.len();
        let mut i: usize = 0;
        assert(history@.take(0) =~= Seq::<MixData>::empty());
        while i < n
            invariant
                n == history@.len(),
                history@ == old_history,
                old_history == old(self).spec_history(),
                c0 == old(self).closes(),
                d0 == old(self).spec_datetime(),
                mode == old(self).spec_mode(),
                self.spec_mode() == mode,
                i <= n,
                self.spec_inited(),
                self.spec_trading(),
                self.closes() == replay_closes(c0, history@.take(i as int), mode),
                self.spec_datetime() == replay_time(d0, history@.take(i as int), mode),
                self.trades().len() >= t0.len(),
                forall|q: int| 0 <= q < t0.len() ==> #[trigger] self.trades()[q] == t0[q],
                replay_count(history@.take(i as int), mode) == 0 ==> self.trades() == t0 && self.spec_pos() == old(self).spec_pos(),
            decreases n - i,
        {
            assert(history@.take(i as int + 1).drop_last() =~= history@.take(i as int));
            assert(history@.take(i as int + 1).last() == history@[i as int]);
            proof {
                lemma_replay_count_nonneg(history@.take(i as int), mode);
            }
            match &history[i] {
                MixData::BarData(bar) => {
                    if self.mode == BacktestingMode::BAR {
                        let _ = self.new_bar(strategy, bar);
                    }
                },
                MixData::TickData(tick) => {
                    if self.mode == BacktestingMode::TICK {
                        let _ = self.new_tick(strategy, tick);
                    }
                },
            }
            i += 1;
        }
        assert(history@.take(n as int) =~= history@);
        proof {
            use_type_invariant(&*self);
        }
        self.history_data = history;
        self.ask_lifecycle(strategy, Phase::Stop);
        let _ = self.deliver_pending(strategy);
    }

    /// The daily results in date order, each with its trades and P&L; `None`
    /// when an amount of some day does not fit in 128 bits.
    pub fn calculate_result(&self) -> (r: Option<Vec<DailyResult>>)
        ensures
            r is None <==> results_fold(
                self.closes(),
                self.trades(),
                self.closes().len() as int,
                self.spec_size() as int,
                self.spec_rate() as int,
                self.spec_slippage() as int,
            ) is None,
            r matches Some(v) ==> results_fold(
                self.closes(),
                self.trades(),
                self.closes().len() as int,
                self.spec_size() as int,
                self.spec_rate() as int,
                self.spec_slippage() as int,
            ) == Some(v@.map_values(|d: DailyResult| d.summary())),
            closes_sorted(self.closes()),
            r matches Some(v) ==> forall|i: int, j: int| 0 <= i < j < v@.len() ==> v@[i].date < v@[j].date,
            r matches Some(v) ==> (v@.len() > 0 ==> v@.last().end_pos == self.spec_pos()),
            r matches Some(v) ==> (v@.len() == 0 ==> self.trades().len() == 0),
            r matches Some(v) ==> forall|i: int| 0 <= i < v@.len() ==> (#[trigger] v@[i]).date == self.closes()[i].date,
            r matches Some(v) ==> v@.len() == self.closes().len() && forall|i: int|
                0 <= i < v@.len() ==> (#[trigger] v@[i]).trades@ == crate::daily::day_trades(
                    self.trades(),
                    self.closes()[i].date as int,
                ),
    {
        proof {
            use_type_invariant(self);
        }
        let r = build_daily_results(&self.daily_closes, self.book.all_trades(), self.size, self.rate, self.slippage);
        proof {
            if r is Some {
                let v = r->0;
                if v@.len() > 0 {
                    crate::daily::lemma_last_day_position(
                        self.daily_closes@,
                        self.book.trades(),
                        self.size as int,
                        self.rate as int,
                        self.slippage as int,
                    );
                    let w = v@.map_values(|d: DailyResult| d.summary());
                    assert(w.last() == v@.last().summary());
                } else if self.book.trades().len() > 0 {
                    assert(has_day(self.daily_closes@, day_of(self.book.trades()[0].datetime as int)));
                }
            }
        }
        r
    }
}


impl BacktestingEngine {
    /// The balance curve and statistics of a run's daily results (see
    /// `statistics::calculate_statistics`), starting from the engine's capital.
    pub fn calculate_statistics(&self, results: &Vec<DailyResult>) -> (r: Option<(Vec<BalanceRow>, Statistics)>)
        ensures
            crate::statistics::statistics_spec(
                results@.map_values(|d: DailyResult| d.summary()),
                self.spec_capital(),
                r,
            ),
    {
        let mut days: Vec<DaySummary> = Vec::new();
        let n = results.len();
        let mut i: usize = 0;
        while i < n
            invariant
                n == results@.len(),
                i <= n,
                days@ == results@.take(i as int).map_values(|d: DailyResult| d.summary()),
            decreases n - i,
        {
            days.push(results[i].to_summary());
            i += 1;
            assert(days@ =~= results@.take(i as int).map_values(|d: DailyResult| d.summary()));
        }
        assert(results@.take(n as int) =~= results@);
        crate::statistics::calculate_statistics(&days, self.capital)
    }
}


/// Length of one history window: a tenth of the period in whole days, at least one day.
pub open spec fn progress_span(start: int, end: int) -> int {
    let total_days = (end - start) / 86_400_000;
    let days = if total_days / 10 > 1 {
        total_days / 10
    } else {
        1
    };
    days * 86_400_000
}

pub open spec fn min_int(a: int, b: int) -> int {
    if a <= b {
        a
    } else {
        b
    }
}

/// `w` splits `[start, end]` into consecutive windows that cover every
/// instant once: window `k` ends at `start + (k + 1) * span` or at `end`,
/// whichever is earlier, and the next one begins one millisecond later.
pub open spec fn windows_cover(w: Seq<(i64, i64)>, start: int, end: int, span: int) -> bool {
    &&& w.len() >= 1
    &&& w[0].0 == start
    &&& forall|k: int| 0 <= k < w.len() ==> (#[trigger] w[k]).1 == min_int(start + (k + 1) * span, end)
    &&& forall|k: int| 1 <= k < w.len() ==> (#[trigger] w[k]).0 == w[k - 1].1 + 1
    &&& forall|k: int| 0 <= k < w.len() ==> (#[trigger] w[k]).0 <= w[k].1
    &&& w.last().1 == end
}

impl BacktestingEngine {
    /// The windows in which `load_data` fetches history, so that progress can
    /// be reported after each.
    pub fn history_windows(&self) -> (r: Result<Vec<(i64, i64)>, ConfigError>)
        ensures
            self.spec_start() >= self.spec_end() ==> r == Err::<Vec<(i64, i64)>, ConfigError>(ConfigError::InvalidPeriod),
            self.spec_start() < self.spec_end() && interval_delta_spec(self.spec_interval()) is None ==> r
                == Err::<Vec<(i64, i64)>, ConfigError>(ConfigError::UnsupportedInterval),
            self.spec_start() < self.spec_end() && interval_delta_spec(self.spec_interval()) is Some ==> r is Ok,
            r matches Ok(w) ==> windows_cover(
                w@,
                self.spec_start() as int,
                self.spec_end() as int,
                progress_span(self.spec_start() as int, self.spec_end() as int),
            ),
    {
        if self.start >= self.end {
            return Err(ConfigError::InvalidPeriod);
        }
        if interval_delta(self.interval).is_none() {
            return Err(ConfigError::UnsupportedInterval);
        }
        let start: i128 = self.start as i128;
        let end: i128 = self.end as i128;
        let total_days: i128 = (end - start) / 86_400_000;
        let days: i128 = if total_days / 10 > 1 {
            total_days / 10
        } else {
            1
        };
        assert(1 <= days <= 0x1_0000_0000_0000_0000) by (nonlinear_arith)
            requires
                total_days == (end - start) / 86_400_000,
                0 < end - start < 0x1_0000_0000_0000_0000,
                days == if total_days / 10 > 1 { total_days / 10 } else { 1 },
        ;
        let span: i128 = days * 86_400_000;
        assert(span == progress_span(start as int, end as int));
        let mut w: Vec<(i64, i64)> = Vec::new();
        let mut s: i128 = start;
        let mut e: i128 = start + span;
        while s <= end
            invariant
                start < end,
                start == self.start,
                end == self.end,
                86_400_000 <= span <= 0x1_0000_0000_0000_0000 * 86_400_000,
                w@.len() == 0 ==> s == start && e == start + span,
                w@.len() > 0 ==> s == w@.last().1 + 1 && e == w@.last().1 + span,
                w@.len() > 0 ==> w@.last().1 <= end,
                start <= s,
                s <= e,
                s <= end + 1,
                w@.len() > 0 ==> w@[0].0 == start,
                forall|k: int| 0 <= k < w@.len() ==> (#[trigger] w@[k]).1 == min_int(start + (k + 1) * span, end as int),
                forall|k: int| 1 <= k < w@.len() ==> (#[trigger] w@[k]).0 == w@[k - 1].1 + 1,
                forall|k: int| 0 <= k < w@.len() ==> (#[trigger] w@[k]).0 <= w@[k].1,
            decreases end + 1 - s,
        {
            let ghost k = w@.len() as int;
            let e2: i128 = if e < end {
                e
            } else {
                end
            };
            proof {
                if k > 0 {
                    assert(w@[k - 1].1 < end);
                    assert(w@[k - 1].1 == start + (k - 1 + 1) * span);
                    assert(start + (k + 1) * span == start + (k - 1 + 1) * span + span) by (nonlinear_arith);
                } else {
                    assert((k + 1) * span == span) by (nonlinear_arith)
                        requires
                            k == 0,
                    ;
                }
                assert(e == start + (k + 1) * span);
                assert(e2 == min_int(start + (k + 1) * span, end as int));
            }
            w.push((s as i64, e2 as i64));
            s = e2 + 1;
            e = e2 + span;
        }
        Ok(w)
    }

    /// The window of warm-up history a strategy asks for: `days` days before
    /// the start, up to one interval before it.
    pub fn load_bar_window(&self, days: i64, interval: Interval) -> (r: Result<(i64, i64), ConfigError>)
        ensures
            interval_delta_spec(interval) is None ==> r == Err::<(i64, i64), ConfigError>(ConfigError::UnsupportedInterval),
            interval_delta_spec(interval) matches Some(d) ==> {
                let from = self.spec_start() - days * 86_400_000;
                let to = self.spec_start() - d;
                if days >= 0 && i64::MIN <= from && i64::MIN <= to {
                    r == Ok::<(i64, i64), ConfigError>((from as i64, to as i64))
                } else {
                    r == Err::<(i64, i64), ConfigError>(ConfigError::InvalidPeriod)
                }
            },
    {
        warm_up_window(self.start, days, interval)
    }
}


/// `days` days before `start`, up to one interval before it.
fn warm_up_window(start: i64, days: i64, interval: Interval) -> (r: Result<(i64, i64), ConfigError>)
    ensures
        interval_delta_spec(interval) is None ==> r == Err::<(i64, i64), ConfigError>(ConfigError::UnsupportedInterval),
        interval_delta_spec(interval) matches Some(d) ==> {
            let from = start - days * 86_400_000;
            let to = start - d;
            if days >= 0 && i64::MIN <= from && i64::MIN <= to {
                r == Ok::<(i64, i64), ConfigError>((from as i64, to as i64))
            } else {
                r == Err::<(i64, i64), ConfigError>(ConfigError::InvalidPeriod)
            }
        },
{
    let delta = match interval_delta(interval) {
        Some(d) => d,
        None => {
            return Err(ConfigError::UnsupportedInterval);
        },
    };
    if days < 0 {
        return Err(ConfigError::InvalidPeriod);
    }
    let from: i128 = start as i128 - days as i128 * 86_400_000;
    let to: i128 = start as i128 - delta as i128;
    if from < i64::MIN as i128 || to < i64::MIN as i128 {
        return Err(ConfigError::InvalidPeriod);
    }
    Ok((from as i64, to as i64))
}

} // verus!

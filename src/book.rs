//! The order book of a backtest: every limit order, stop order and trade, the
//! working subsets of both kinds of order, and the net position.
//!
//! Identifiers are dense: the `n`-th limit order has id `n`, and likewise for
//! stop orders and trades. A working list holds the ids of working orders in
//! ascending order, which is also the order in which they are matched.
use crate::base::{StopOrder, StopOrderStatus};
use crate::constant::{Direction, Exchange, Offset, OrderType, Status};
use crate::object::{signed_volume, sum_signed, OrderData, TradeData};
use vstd::prelude::*;

verus! {

/// The prices that one market event offers to resting orders: a buy crosses at
/// `long_cross` and fills no worse than `long_best`, a sell likewise.
#[derive(Clone, Copy, Debug, PartialEq, Eq, Structural)]
pub struct CrossPrices {
    pub long_cross: i64,
    pub short_cross: i64,
    pub long_best: i64,
    pub short_best: i64,
}

/// Something the strategy is to be told: an order in a given state, a trade, or
/// a stop order (in its current, final state).
#[derive(Clone, Copy, Debug, PartialEq, Eq, Structural)]
pub enum Notice {
    Order(u64, Status),
    Trade(u64),
    StopOrder(u64),
}

pub open spec fn min_i64(a: i64, b: i64) -> i64 {
    if a <= b {
        a
    } else {
        b
    }
}

pub open spec fn max_i64(a: i64, b: i64) -> i64 {
    if a >= b {
        a
    } else {
        b
    }
}

/// A working limit order crosses when the market trades through its price.
pub open spec fn limit_crosses(o: OrderData, p: CrossPrices) -> bool {
    (o.direction == Direction::LONG && o.price >= p.long_cross && p.long_cross > 0) || (
    o.direction == Direction::SHORT && o.price <= p.short_cross && p.short_cross > 0)
}

/// A filled limit order gets the better of its own price and the best price.
pub open spec fn limit_trade_price(o: OrderData, p: CrossPrices) -> i64 {
    if o.direction == Direction::LONG {
        min_i64(o.price, p.long_best)
    } else {
        max_i64(o.price, p.short_best)
    }
}

/// A stop order triggers once the market reaches its price.
pub open spec fn stop_triggers(s: StopOrder, p: CrossPrices) -> bool {
    (s.direction == Direction::LONG && s.price <= p.long_cross) || (s.direction
        == Direction::SHORT && s.price >= p.short_cross)
}

/// A triggered stop order gets the worse of its own price and the best price.
pub open spec fn stop_trade_price(s: StopOrder, p: CrossPrices) -> i64 {
    if s.direction == Direction::LONG {
        max_i64(s.price, p.long_best)
    } else {
        min_i64(s.price, p.short_best)
    }
}

/// The change of position that filling `volume` in `direction` makes.
pub open spec fn position_change(direction: Direction, volume: i64) -> int {
    if direction == Direction::LONG {
        volume as int
    } else {
        -(volume as int)
    }
}

/// A trade can be recorded while trade ids last and the position stays within 128 bits.
pub open spec fn fill_allowed(trades: Seq<TradeData>, pos: int, change: int) -> bool {
    trades.len() < usize::MAX && i128::MIN <= pos + change <= i128::MAX
}

/// The trade that fills order `o` at `price`.
pub open spec fn trade_for(o: OrderData, tradeid: int, price: i64, t: i64) -> TradeData {
    TradeData {
        symbol: o.symbol,
        exchange: o.exchange,
        orderid: o.orderid,
        tradeid: tradeid as u64,
        direction: o.direction,
        offset: o.offset,
        price,
        volume: o.volume,
        datetime: t,
    }
}

/// The order in the state that a newly sent limit order has.
pub open spec fn new_limit_order(
    symbol: String,
    exchange: Exchange,
    orderid: int,
    direction: Direction,
    offset: Offset,
    price: i64,
    volume: i64,
    t: i64,
) -> OrderData {
    OrderData {
        symbol,
        exchange,
        orderid: orderid as u64,
        type_: OrderType::LIMIT,
        direction,
        offset,
        price,
        volume,
        traded: 0,
        status: Status::SUBMITTING,
        datetime: t,
    }
}

/// The stop order in the state that a newly sent stop order has.
pub open spec fn new_stop_order(
    vt_symbol: String,
    strategy_name: String,
    stop_orderid: int,
    direction: Direction,
    offset: Offset,
    price: i64,
    volume: i64,
    t: i64,
    lock: bool,
    net: bool,
) -> StopOrder {
    StopOrder {
        vt_symbol,
        direction,
        offset,
        price,
        volume,
        stop_orderid: stop_orderid as u64,
        strategy_name,
        datetime: t,
        lock,
        net,
        spawned_orderid: None,
        status: StopOrderStatus::WAITING,
    }
}

/// The limit order that a triggered stop order turns into: filled at once.
pub open spec fn spawned_order(
    s: StopOrder,
    symbol: String,
    exchange: Exchange,
    orderid: int,
    t: i64,
) -> OrderData {
    OrderData {
        symbol,
        exchange,
        orderid: orderid as u64,
        type_: OrderType::LIMIT,
        direction: s.direction,
        offset: s.offset,
        price: s.price,
        volume: s.volume,
        traded: s.volume,
        status: Status::ALLTRADED,
        datetime: t,
    }
}

/// The state that limit matching works on: all limit orders, all trades, the position.
pub type LimitState = (Seq<OrderData>, Seq<TradeData>, int);

/// Matching one working limit order: a submitted order is first acknowledged
/// (NOTTRADED); if it crosses, it is filled in full and a trade is recorded.
pub open spec fn limit_step(s: LimitState, id: u64, p: CrossPrices, t: i64) -> LimitState {
    let i = id - 1;
    let o0 = s.0[i];
    let o = if o0.status == Status::SUBMITTING {
        OrderData { status: Status::NOTTRADED, ..o0 }
    } else {
        o0
    };
    let change = position_change(o.direction, o.volume);
    if limit_crosses(o, p) && fill_allowed(s.1, s.2, change) {
        (
            s.0.update(i, OrderData { traded: o.volume, status: Status::ALLTRADED, ..o }),
            s.1.push(trade_for(o, (s.1.len() + 1) as int, limit_trade_price(o, p), t)),
            s.2 + change,
        )
    } else {
        (s.0.update(i, o), s.1, s.2)
    }
}

/// Matching the working limit orders `ids`, in that order.
pub open spec fn limit_fold(s: LimitState, ids: Seq<u64>, p: CrossPrices, t: i64) -> LimitState
    decreases ids.len(),
{
    if ids.len() == 0 {
        s
    } else {
        limit_step(limit_fold(s, ids.drop_last(), p, t), ids.last(), p, t)
    }
}

/// What the strategy is told of matching one working limit order: a
/// submitted order is first shown NOTTRADED; a filled one is then shown
/// ALLTRADED, followed by its trade.
pub open spec fn limit_step_notices(s: LimitState, id: u64, p: CrossPrices, t: i64) -> Seq<Notice> {
    let o0 = s.0[id - 1];
    let o = if o0.status == Status::SUBMITTING {
        OrderData { status: Status::NOTTRADED, ..o0 }
    } else {
        o0
    };
    let ack = if o0.status == Status::SUBMITTING {
        seq![Notice::Order(id, Status::NOTTRADED)]
    } else {
        Seq::<Notice>::empty()
    };
    if limit_crosses(o, p) && fill_allowed(s.1, s.2, position_change(o.direction, o.volume)) {
        ack + seq![Notice::Order(id, Status::ALLTRADED), Notice::Trade((s.1.len() + 1) as u64)]
    } else {
        ack
    }
}

/// What the strategy is told of matching the working limit orders `ids`, in that order.
pub open spec fn limit_notices(s: LimitState, ids: Seq<u64>, p: CrossPrices, t: i64) -> Seq<Notice>
    decreases ids.len(),
{
    if ids.len() == 0 {
        Seq::<Notice>::empty()
    } else {
        limit_notices(s, ids.drop_last(), p, t) + limit_step_notices(
            limit_fold(s, ids.drop_last(), p, t),
            ids.last(),
            p,
            t,
        )
    }
}

/// The state that stop matching works on: stop orders, limit orders, trades, position.
pub type StopState = (Seq<StopOrder>, Seq<OrderData>, Seq<TradeData>, int);

/// Matching one waiting stop order: if it triggers, it spawns a filled limit
/// order and a trade, and becomes TRIGGERED.
pub open spec fn stop_step(
    s: StopState,
    id: u64,
    p: CrossPrices,
    t: i64,
    symbol: String,
    exchange: Exchange,
) -> StopState {
    let j = id - 1;
    let so = s.0[j];
    let change = position_change(so.direction, so.volume);
    if stop_triggers(so, p) && s.1.len() < usize::MAX && fill_allowed(s.2, s.3, change) {
        let oid = (s.1.len() + 1) as int;
        let o = spawned_order(so, symbol, exchange, oid, t);
        (
            s.0.update(
                j,
                StopOrder {
                    status: StopOrderStatus::TRIGGERED,
                    spawned_orderid: Some(oid as u64),
                    ..so
                },
            ),
            s.1.push(o),
            s.2.push(trade_for(o, (s.2.len() + 1) as int, stop_trade_price(so, p), t)),
            s.3 + change,
        )
    } else {
        s
    }
}

/// What the strategy is told of matching one waiting stop order: if it
/// triggers, the stop order, the limit order it spawned (filled), and the trade.
pub open spec fn stop_step_notices(s: StopState, id: u64, p: CrossPrices) -> Seq<Notice> {
    let so = s.0[id - 1];
    if stop_triggers(so, p) && s.1.len() < usize::MAX && fill_allowed(
        s.2,
        s.3,
        position_change(so.direction, so.volume),
    ) {
        seq![
            Notice::StopOrder(id),
            Notice::Order((s.1.len() + 1) as u64, Status::ALLTRADED),
            Notice::Trade((s.2.len() + 1) as u64),
        ]
    } else {
        Seq::<Notice>::empty()
    }
}

/// What the strategy is told of matching the waiting stop orders `ids`, in that order.
pub open spec fn stop_notices(
    s: StopState,
    ids: Seq<u64>,
    p: CrossPrices,
    t: i64,
    symbol: String,
    exchange: Exchange,
) -> Seq<Notice>
    decreases ids.len(),
{
    if ids.len() == 0 {
        Seq::<Notice>::empty()
    } else {
        stop_notices(s, ids.drop_last(), p, t, symbol, exchange) + stop_step_notices(
            stop_fold(s, ids.drop_last(), p, t, symbol, exchange),
            ids.last(),
            p,
        )
    }
}

/// Matching the waiting stop orders `ids`, in that order.
pub open spec fn stop_fold(
    s: StopState,
    ids: Seq<u64>,
    p: CrossPrices,
    t: i64,
    symbol: String,
    exchange: Exchange,
) -> StopState
    decreases ids.len(),
{
    if ids.len() == 0 {
        s
    } else {
        stop_step(stop_fold(s, ids.drop_last(), p, t, symbol, exchange), ids.last(), p, t, symbol, exchange)
    }
}

pub open spec fn strictly_increasing(s: Seq<u64>) -> bool {
    forall|a: int, b: int| 0 <= a < b < s.len() ==> s[a] < s[b]
}

/// Limit order `o` is well formed at index `i`: its id is `i + 1`, it is never
/// part-filled, and a filled order has traded its whole volume.
pub open spec fn order_wf(o: OrderData, i: int) -> bool {
    &&& o.orderid == i + 1
    &&& o.status != Status::PARTTRADED
    &&& (o.status == Status::ALLTRADED ==> o.traded == o.volume)
}

/// The working list holds, in ascending order, exactly the ids of working orders.
pub open spec fn active_orders_wf(active: Seq<u64>, orders: Seq<OrderData>) -> bool {
    &&& strictly_increasing(active)
    &&& forall|k: int| 0 <= k < active.len() ==> 1 <= #[trigger] active[k] <= orders.len()
    &&& forall|i: int|
        0 <= i < orders.len() ==> (#[trigger] orders[i].status.spec_is_active()
            <==> active.contains((i + 1) as u64))
}

/// Stop order `s` is well formed at index `j`: its id is `j + 1`, and it has
/// spawned a limit order, which is filled, exactly when it has triggered.
pub open spec fn stop_wf(s: StopOrder, j: int, orders: Seq<OrderData>) -> bool {
    &&& s.stop_orderid == j + 1
    &&& (s.status == StopOrderStatus::TRIGGERED <==> s.spawned_orderid is Some)
    &&& (s.spawned_orderid matches Some(oid) ==> 1 <= oid <= orders.len() && orders[oid
        - 1].status == Status::ALLTRADED)
}

/// The waiting list holds, in ascending order, exactly the ids of waiting stop orders.
pub open spec fn active_stops_wf(active: Seq<u64>, stops: Seq<StopOrder>) -> bool {
    &&& strictly_increasing(active)
    &&& forall|k: int| 0 <= k < active.len() ==> 1 <= #[trigger] active[k] <= stops.len()
    &&& forall|j: int|
        0 <= j < stops.len() ==> ((#[trigger] stops[j].status == StopOrderStatus::WAITING)
            <==> active.contains((j + 1) as u64))
}

/// Some stop order spawned limit order `oid`.
pub open spec fn spawned_by_stop(stops: Seq<StopOrder>, oid: u64) -> bool {
    exists|j: int| 0 <= j < stops.len() && #[trigger] stops[j].spawned_orderid == Some(oid)
}

/// A buy fills at or below its order's price, a sell at or above.
pub open spec fn price_within_limit(t: TradeData, o: OrderData) -> bool {
    if t.direction == Direction::LONG {
        t.price <= o.price
    } else {
        t.price >= o.price
    }
}

/// Trade `t` is well formed at index `k`: its id is `k + 1`, it fills an
/// existing order of its side that is now filled, within that order's price
/// unless a stop order spawned it.
pub open spec fn trade_wf(
    t: TradeData,
    k: int,
    orders: Seq<OrderData>,
    stops: Seq<StopOrder>,
) -> bool {
    &&& t.tradeid == k + 1
    &&& 1 <= t.orderid <= orders.len()
    &&& (t.direction == Direction::LONG || t.direction == Direction::SHORT)
    &&& orders[t.orderid - 1].status == Status::ALLTRADED
    &&& orders[t.orderid - 1].direction == t.direction
    &&& (price_within_limit(t, orders[t.orderid - 1]) || spawned_by_stop(stops, t.orderid))
}

pub open spec fn book_wf(
    orders: Seq<OrderData>,
    active: Seq<u64>,
    stops: Seq<StopOrder>,
    active_stops: Seq<u64>,
    trades: Seq<TradeData>,
    pos: int,
) -> bool {
    &&& orders.len() <= usize::MAX
    &&& stops.len() <= usize::MAX
    &&& forall|i: int| 0 <= i < orders.len() ==> order_wf(#[trigger] orders[i], i)
    &&& active_orders_wf(active, orders)
    &&& forall|j: int| 0 <= j < stops.len() ==> stop_wf(#[trigger] stops[j], j, orders)
    &&& active_stops_wf(active_stops, stops)
    &&& forall|k: int| 0 <= k < trades.len() ==> trade_wf(#[trigger] trades[k], k, orders, stops)
    &&& pos == sum_signed(trades)
}

pub struct OrderBook {
    symbol: String,
    exchange: Exchange,
    vt_symbol: String,
    strategy_name: String,
    limit_orders: Vec<OrderData>,
    active_limit_orders: Vec<u64>,
    stop_orders: Vec<StopOrder>,
    active_stop_orders: Vec<u64>,
    trades: Vec<TradeData>,
    pos: i128,
}

impl OrderBook {
    pub closed spec fn symbol(&self) -> String {
        self.symbol
    }

    pub closed spec fn exchange(&self) -> Exchange {
        self.exchange
    }

    pub closed spec fn vt_symbol(&self) -> String {
        self.vt_symbol
    }

    pub closed spec fn strategy_name(&self) -> String {
        self.strategy_name
    }

    pub closed spec fn orders(&self) -> Seq<OrderData> {
        self.limit_orders@
    }

    pub closed spec fn active_orders(&self) -> Seq<u64> {
        self.active_limit_orders@
    }

    pub closed spec fn stops(&self) -> Seq<StopOrder> {
        self.stop_orders@
    }

    pub closed spec fn active_stops(&self) -> Seq<u64> {
        self.active_stop_orders@
    }

    pub closed spec fn trades(&self) -> Seq<TradeData> {
        self.trades@
    }

    pub closed spec fn pos(&self) -> int {
        self.pos as int
    }

    pub open spec fn lstate(&self) -> LimitState {
        (self.orders(), self.trades(), self.pos())
    }

    pub open spec fn sstate(&self) -> StopState {
        (self.stops(), self.orders(), self.trades(), self.pos())
    }

    pub open spec fn wf(&self) -> bool {
        book_wf(
            self.orders(),
            self.active_orders(),
            self.stops(),
            self.active_stops(),
            self.trades(),
            self.pos(),
        )
    }

    pub fn new(symbol: String, exchange: Exchange, vt_symbol: String, strategy_name: String) -> (r: Self)
        ensures
            r.wf(),
            r.symbol() == symbol,
            r.exchange() == exchange,
            r.vt_symbol() == vt_symbol,
            r.strategy_name() == strategy_name,
            r.orders() == Seq::<OrderData>::empty(),
            r.active_orders() == Seq::<u64>::empty(),
            r.stops() == Seq::<StopOrder>::empty(),
            r.active_stops() == Seq::<u64>::empty(),
            r.trades() == Seq::<TradeData>::empty(),
            r.pos() == 0,
    {
        OrderBook {
            symbol,
            exchange,
            vt_symbol,
            strategy_name,
            limit_orders: Vec::new(),
            active_limit_orders: Vec::new(),
            stop_orders: Vec::new(),
            active_stop_orders: Vec::new(),
            trades: Vec::new(),
            pos: 0,
        }
    }

    pub fn position(&self) -> (r: i128)
        ensures
            r == self.pos(),
    {
        self.pos
    }

    pub fn order_count(&self) -> (r: usize)
        ensures
            r == self.orders().len(),
    {
        self.limit_orders.len()
    }

    pub fn stop_count(&self) -> (r: usize)
        ensures
            r == self.stops().len(),
    {
        self.stop_orders.len()
    }

    pub fn trade_count(&self) -> (r: usize)
        ensures
            r == self.trades().len(),
    {
        self.trades.len()
    }

    pub fn order_at(&self, i: usize) -> (r: &OrderData)
        requires
            i < self.orders().len(),
        ensures
            *r == self.orders()[i as int],
    {
        &self.limit_orders[i]
    }

    pub fn stop_at(&self, j: usize) -> (r: &StopOrder)
        requires
            j < self.stops().len(),
        ensures
            *r == self.stops()[j as int],
    {
        &self.stop_orders[j]
    }

    pub fn trade_at(&self, k: usize) -> (r: &TradeData)
        requires
            k < self.trades().len(),
        ensures
            *r == self.trades()[k as int],
    {
        &self.trades[k]
    }

    pub fn all_orders(&self) -> (r: &Vec<OrderData>)
        ensures
            r@ == self.orders(),
    {
        &self.limit_orders
    }

    pub fn all_stops(&self) -> (r: &Vec<StopOrder>)
        ensures
            r@ == self.stops(),
    {
        &self.stop_orders
    }

    pub fn all_trades(&self) -> (r: &Vec<TradeData>)
        ensures
            r@ == self.trades(),
    {
        &self.trades
    }

    pub fn active_order_ids(&self) -> (r: &Vec<u64>)
        ensures
            r@ == self.active_orders(),
    {
        &self.active_limit_orders
    }

    pub fn active_stop_ids(&self) -> (r: &Vec<u64>)
        ensures
            r@ == self.active_stops(),
    {
        &self.active_stop_orders
    }
}


impl OrderBook {
    /// Records a new limit order, SUBMITTING and working; `None` once order ids
    /// are exhausted.
    pub fn send_limit_order(
        &mut self,
        direction: Direction,
        offset: Offset,
        price: i64,
        volume: i64,
        t: i64,
    ) -> (r: Option<u64>)
        requires
            old(self).wf(),
        ensures
            final(self).wf(),
            final(self).stops() == old(self).stops(),
            final(self).active_stops() == old(self).active_stops(),
            final(self).trades() == old(self).trades(),
            final(self).pos() == old(self).pos(),
            final(self).symbol() == old(self).symbol(),
            final(self).exchange() == old(self).exchange(),
            final(self).vt_symbol() == old(self).vt_symbol(),
            final(self).strategy_name() == old(self).strategy_name(),
            old(self).orders().len() < usize::MAX ==> {
                let id = (old(self).orders().len() + 1) as int;
                &&& r == Some(id as u64)
                &&& final(self).orders() == old(self).orders().push(
                    new_limit_order(
                        old(self).symbol(),
                        old(self).exchange(),
                        id,
                        direction,
                        offset,
                        price,
                        volume,
                        t,
                    ),
                )
                &&& final(self).active_orders() == old(self).active_orders().push(id as u64)
            },
            old(self).orders().len() >= usize::MAX ==> r is None && final(self).orders() == old(
                self,
            ).orders() && final(self).active_orders() == old(self).active_orders(),
    {
        let n = self.limit_orders.len();
        if n == usize::MAX {
            return None;
        }
        let id: u64 = (n + 1) as u64;
        let order = OrderData {
            symbol: self.symbol.clone(),
            exchange: self.exchange,
            orderid: id,
            type_: OrderType::LIMIT,
            direction,
            offset,
            price,
            volume,
            traded: 0,
            status: Status::SUBMITTING,
            datetime: t,
        };
        let ghost old_orders = self.limit_orders@;
        let ghost old_active = self.active_limit_orders@;
        self.limit_orders.push(order);
        self.active_limit_orders.push(id);
        proof {
            let orders = self.limit_orders@;
            let active = self.active_limit_orders@;
            assert forall|i: int| 0 <= i < orders.len() implies order_wf(
                #[trigger] orders[i],
                i,
            ) by {
                if i < n {
                    assert(orders[i] == old_orders[i]);
                }
            }
            assert forall|i: int| 0 <= i < orders.len() implies (
            #[trigger] orders[i].status.spec_is_active() <==> active.contains((i + 1) as u64)) by {
                if i < n {
                    assert(orders[i] == old_orders[i]);
                    if old_active.contains((i + 1) as u64) {
                        let k = choose|k: int| 0 <= k < old_active.len() && old_active[k] == (i + 1) as u64;
                        assert(active[k] == (i + 1) as u64);
                    }
                    if active.contains((i + 1) as u64) {
                        let k = choose|k: int| 0 <= k < active.len() && active[k] == (i + 1) as u64;
                        if k < old_active.len() {
                            assert(old_active[k] == (i + 1) as u64);
                        }
                    }
                } else {
                    assert(active[active.len() - 1] == (i + 1) as u64);
                }
            }
            assert(active_orders_wf(active, orders));
            let stops = self.stop_orders@;
            assert forall|j: int| 0 <= j < stops.len() implies stop_wf(
                #[trigger] stops[j],
                j,
                orders,
            ) by {
                assert(stop_wf(stops[j], j, old_orders));
                if let Some(oid) = stops[j].spawned_orderid {
                    assert(orders[oid - 1] == old_orders[oid - 1]);
                }
            }
            let trades = self.trades@;
            assert forall|k: int| 0 <= k < trades.len() implies trade_wf(
                #[trigger] trades[k],
                k,
                orders,
                stops,
            ) by {
                assert(trade_wf(trades[k], k, old_orders, stops));
                assert(orders[trades[k].orderid - 1] == old_orders[trades[k].orderid - 1]);
            }
        }
        Some(id)
    }

    /// Records a new stop order, WAITING; `None` once stop ids are exhausted.
    pub fn send_stop_order(
        &mut self,
        direction: Direction,
        offset: Offset,
        price: i64,
        volume: i64,
        t: i64,
        lock: bool,
        net: bool,
    ) -> (r: Option<u64>)
        requires
            old(self).wf(),
        ensures
            final(self).wf(),
            final(self).orders() == old(self).orders(),
            final(self).active_orders() == old(self).active_orders(),
            final(self).trades() == old(self).trades(),
            final(self).pos() == old(self).pos(),
            final(self).symbol() == old(self).symbol(),
            final(self).exchange() == old(self).exchange(),
            final(self).vt_symbol() == old(self).vt_symbol(),
            final(self).strategy_name() == old(self).strategy_name(),
            old(self).stops().len() < usize::MAX ==> {
                let id = (old(self).stops().len() + 1) as int;
                &&& r == Some(id as u64)
                &&& final(self).stops() == old(self).stops().push(
                    new_stop_order(
                        old(self).vt_symbol(),
                        old(self).strategy_name(),
                        id,
                        direction,
                        offset,
                        price,
                        volume,
                        t,
                        lock,
                        net,
                    ),
                )
                &&& final(self).active_stops() == old(self).active_stops().push(id as u64)
            },
            old(self).stops().len() >= usize::MAX ==> r is None && final(self).stops() == old(
                self,
            ).stops() && final(self).active_stops() == old(self).active_stops(),
    {
        let n = self.stop_orders.len();
        if n == usize::MAX {
            return None;
        }
        let id: u64 = (n + 1) as u64;
        let stop = StopOrder {
            vt_symbol: self.vt_symbol.clone(),
            direction,
            offset,
            price,
            volume,
            stop_orderid: id,
            strategy_name: self.strategy_name.clone(),
            datetime: t,
            lock,
            net,
            spawned_orderid: None,
            status: StopOrderStatus::WAITING,
        };
        let ghost old_stops = self.stop_orders@;
        let ghost old_active = self.active_stop_orders@;
        self.stop_orders.push(stop);
        self.active_stop_orders.push(id);
        proof {
            let orders = self.limit_orders@;
            let stops = self.stop_orders@;
            let active = self.active_stop_orders@;
            assert forall|j: int| 0 <= j < stops.len() implies stop_wf(
                #[trigger] stops[j],
                j,
                orders,
            ) by {
                if j < n {
                    assert(stops[j] == old_stops[j]);
                }
            }
            assert forall|j: int| 0 <= j < stops.len() implies ((#[trigger] stops[j].status
                == StopOrderStatus::WAITING) <==> active.contains((j + 1) as u64)) by {
                if j < n {
                    assert(stops[j] == old_stops[j]);
                    if old_active.contains((j + 1) as u64) {
                        let k = choose|k: int| 0 <= k < old_active.len() && old_active[k] == (j + 1) as u64;
                        assert(active[k] == (j + 1) as u64);
                    }
                    if active.contains((j + 1) as u64) {
                        let k = choose|k: int| 0 <= k < active.len() && active[k] == (j + 1) as u64;
                        if k < old_active.len() {
                            assert(old_active[k] == (j + 1) as u64);
                        }
                    }
                } else {
                    assert(active[active.len() - 1] == (j + 1) as u64);
                }
            }
            assert(active_stops_wf(active, stops));
            let trades = self.trades@;
            assert forall|k: int| 0 <= k < trades.len() implies trade_wf(
                #[trigger] trades[k],
                k,
                orders,
                stops,
            ) by {
                assert(trade_wf(trades[k], k, orders, old_stops));
                if spawned_by_stop(old_stops, trades[k].orderid) {
                    let j = choose|j: int| 0 <= j < old_stops.len() && #[trigger] old_stops[j].spawned_orderid == Some(trades[k].orderid);
                    assert(stops[j] == old_stops[j]);
                }
            }
        }
        Some(id)
    }
}


/// Taking one element out of an ascending list keeps it ascending and removes
/// exactly that element.
proof fn lemma_remove_from_increasing(s: Seq<u64>, k: int)
    requires
        strictly_increasing(s),
        0 <= k < s.len(),
    ensures
        strictly_increasing(s.remove(k)),
        forall|x: u64| #[trigger] s.remove(k).contains(x) <==> (s.contains(x) && x != s[k]),
        forall|m: int| 0 <= m < s.remove(k).len() ==> s.contains(#[trigger] s.remove(k)[m]),
{
    let r = s.remove(k);
    assert forall|a: int, b: int| 0 <= a < b < r.len() implies r[a] < r[b] by {
        let a2 = if a < k { a } else { a + 1 };
        let b2 = if b < k { b } else { b + 1 };
        assert(r[a] == s[a2] && r[b] == s[b2]);
    }
    assert forall|x: u64| #[trigger] r.contains(x) <==> (s.contains(x) && x != s[k]) by {
        if r.contains(x) {
            let m = choose|m: int| 0 <= m < r.len() && r[m] == x;
            let m2 = if m < k { m } else { m + 1 };
            assert(s[m2] == x);
        }
        if s.contains(x) && x != s[k] {
            let m = choose|m: int| 0 <= m < s.len() && s[m] == x;
            if m < k {
                assert(r[m] == x);
            } else {
                assert(m != k);
                assert(r[m - 1] == x);
            }
        }
    }
    assert forall|m: int| 0 <= m < r.len() implies s.contains(#[trigger] r[m]) by {
        let m2 = if m < k { m } else { m + 1 };
        assert(r[m] == s[m2]);
    }
}

impl OrderBook {
    /// Cancels working limit order `id`; anything else is left alone. Returns
    /// whether an order was cancelled.
    pub fn cancel_limit_order(&mut self, id: u64) -> (r: bool)
        requires
            old(self).wf(),
        ensures
            final(self).wf(),
            r == (1 <= id <= old(self).orders().len() && old(self).orders()[id - 1].status.spec_is_active()),
            r ==> final(self).orders() == old(self).orders().update(
                id - 1,
                OrderData { status: Status::CANCELLED, ..old(self).orders()[id - 1] },
            ),
            !r ==> final(self).orders() == old(self).orders() && final(self).active_orders() == old(
                self,
            ).active_orders(),
            final(self).stops() == old(self).stops(),
            final(self).active_stops() == old(self).active_stops(),
            final(self).trades() == old(self).trades(),
            final(self).pos() == old(self).pos(),
            final(self).symbol() == old(self).symbol(),
            final(self).exchange() == old(self).exchange(),
            final(self).vt_symbol() == old(self).vt_symbol(),
            final(self).strategy_name() == old(self).strategy_name(),
    {
        let n = self.limit_orders.len();
        if id == 0 || id as usize > n || id > n as u64 {
            return false;
        }
        let i: usize = (id - 1) as usize;
        if !self.limit_orders[i].status.is_active() {
            return false;
        }
        let ghost old_orders = self.limit_orders@;
        let ghost old_active = self.active_limit_orders@;
        assert(old_active.contains(id));
        let mut k: usize = 0;
        while k < self.active_limit_orders.len() && self.active_limit_orders[k] != id
            invariant
                self.active_limit_orders@ == old_active,
                old_active.contains(id),
                k <= old_active.len(),
                forall|m: int| 0 <= m < k ==> old_active[m] != id,
            decreases old_active.len() - k,
        {
            k += 1;
        }
        if k >= self.active_limit_orders.len() {
            proof {
                let m = choose|m: int| 0 <= m < old_active.len() && old_active[m] == id;
            }
            return false;
        }
        self.active_limit_orders.remove(k);
        let mut o = self.limit_orders[i].duplicate();
        o.status = Status::CANCELLED;
        self.limit_orders.set(i, o);
        proof {
            lemma_remove_from_increasing(old_active, k as int);
            let orders = self.limit_orders@;
            let active = self.active_limit_orders@;
            assert forall|x: int| 0 <= x < orders.len() implies order_wf(#[trigger] orders[x], x) by {
                if x != i {
                    assert(orders[x] == old_orders[x]);
                }
            }
            assert forall|m: int| 0 <= m < active.len() implies 1 <= #[trigger] active[m] <= orders.len() by {
                assert(old_active.contains(active[m]));
                let a = choose|a: int| 0 <= a < old_active.len() && old_active[a] == active[m];
            }
            assert forall|x: int| 0 <= x < orders.len() implies (
            #[trigger] orders[x].status.spec_is_active() <==> active.contains((x + 1) as u64)) by {
                if x != i {
                    assert(orders[x] == old_orders[x]);
                }
            }
            let stops = self.stop_orders@;
            assert forall|j: int| 0 <= j < stops.len() implies stop_wf(#[trigger] stops[j], j, orders) by {
                assert(stop_wf(stops[j], j, old_orders));
                if let Some(oid) = stops[j].spawned_orderid {
                    assert(orders[oid - 1] == old_orders[oid - 1]);
                }
            }
            let trades = self.trades@;
            assert forall|t: int| 0 <= t < trades.len() implies trade_wf(#[trigger] trades[t], t, orders, stops) by {
                assert(trade_wf(trades[t], t, old_orders, stops));
                assert(orders[trades[t].orderid - 1] == old_orders[trades[t].orderid - 1]);
            }
        }
        true
    }

    /// Cancels waiting stop order `id`; anything else is left alone. Returns
    /// whether a stop order was cancelled.
    pub fn cancel_stop_order(&mut self, id: u64) -> (r: bool)
        requires
            old(self).wf(),
        ensures
            final(self).wf(),
            r == (1 <= id <= old(self).stops().len() && old(self).stops()[id - 1].status
                == StopOrderStatus::WAITING),
            r ==> final(self).stops() == old(self).stops().update(
                id - 1,
                StopOrder { status: StopOrderStatus::CANCELLED, ..old(self).stops()[id - 1] },
            ),
            !r ==> final(self).stops() == old(self).stops() && final(self).active_stops() == old(
                self,
            ).active_stops(),
            final(self).orders() == old(self).orders(),
            final(self).active_orders() == old(self).active_orders(),
            final(self).trades() == old(self).trades(),
            final(self).pos() == old(self).pos(),
            final(self).symbol() == old(self).symbol(),
            final(self).exchange() == old(self).exchange(),
            final(self).vt_symbol() == old(self).vt_symbol(),
            final(self).strategy_name() == old(self).strategy_name(),
    {
        let n = self.stop_orders.len();
        if id == 0 || id as usize > n || id > n as u64 {
            return false;
        }
        let j: usize = (id - 1) as usize;
        if self.stop_orders[j].status != StopOrderStatus::WAITING {
            return false;
        }
        let ghost old_stops = self.stop_orders@;
        let ghost old_active = self.active_stop_orders@;
        assert(old_active.contains(id));
        let mut k: usize = 0;
        while k < self.active_stop_orders.len() && self.active_stop_orders[k] != id
            invariant
                self.active_stop_orders@ == old_active,
                old_active.contains(id),
                k <= old_active.len(),
                forall|m: int| 0 <= m < k ==> old_active[m] != id,
            decreases old_active.len() - k,
        {
            k += 1;
        }
        if k >= self.active_stop_orders.len() {
            proof {
                let m = choose|m: int| 0 <= m < old_active.len() && old_active[m] == id;
            }
            return false;
        }
        self.active_stop_orders.remove(k);
        let mut so = self.stop_orders[j].duplicate();
        so.status = StopOrderStatus::CANCELLED;
        self.stop_orders.set(j, so);
        proof {
            lemma_remove_from_increasing(old_active, k as int);
            let orders = self.limit_orders@;
            let stops = self.stop_orders@;
            let active = self.active_stop_orders@;
            assert forall|x: int| 0 <= x < stops.len() implies stop_wf(#[trigger] stops[x], x, orders) by {
                if x != j {
                    assert(stops[x] == old_stops[x]);
                } else {
                    assert(stop_wf(old_stops[x], x, orders));
                }
            }
            assert forall|m: int| 0 <= m < active.len() implies 1 <= #[trigger] active[m] <= stops.len() by {
                assert(old_active.contains(active[m]));
                let a = choose|a: int| 0 <= a < old_active.len() && old_active[a] == active[m];
            }
            assert forall|x: int| 0 <= x < stops.len() implies ((#[trigger] stops[x].status
                == StopOrderStatus::WAITING) <==> active.contains((x + 1) as u64)) by {
                if x != j {
                    assert(stops[x] == old_stops[x]);
                }
            }
            let trades = self.trades@;
            assert forall|t: int| 0 <= t < trades.len() implies trade_wf(#[trigger] trades[t], t, orders, stops) by {
                assert(trade_wf(trades[t], t, orders, old_stops));
                if spawned_by_stop(old_stops, trades[t].orderid) {
                    let w = choose|w: int| 0 <= w < old_stops.len() && #[trigger] old_stops[w].spawned_orderid == Some(trades[t].orderid);
                    if w == j {
                        assert(stop_wf(old_stops[w], w, orders));
                    }
                    assert(stops[w].spawned_orderid == old_stops[w].spawned_orderid);
                }
            }
        }
        true
    }
}


/// Adding a trade moves the net position by that trade's signed volume.
pub proof fn lemma_sum_signed_push(trades: Seq<TradeData>, t: TradeData)
    ensures
        sum_signed(trades.push(t)) == sum_signed(trades) + signed_volume(t),
{
    assert(trades.push(t).drop_last() =~= trades);
}

impl OrderBook {
    /// Matches every working limit order, in ascending id order, against `p`;
    /// trades are stamped `t`. Returns what the strategy is to be told, in order.
    #[verifier::rlimit(60)]
    pub fn cross_limit_orders(&mut self, p: CrossPrices, t: i64) -> (notices: Vec<Notice>)
        requires
            old(self).wf(),
        ensures
            final(self).wf(),
            final(self).lstate() == limit_fold(old(self).lstate(), old(self).active_orders(), p, t),
            notices@ == limit_notices(old(self).lstate(), old(self).active_orders(), p, t),
            final(self).trades().len() >= old(self).trades().len(),
            forall|q: int| 0 <= q < old(self).trades().len() ==> #[trigger] final(self).trades()[q] == old(self).trades()[q],
            forall|q: int| old(self).trades().len() <= q < final(self).trades().len() ==> (#[trigger] final(self).trades()[q]).datetime == t,
            final(self).stops() == old(self).stops(),
            final(self).active_stops() == old(self).active_stops(),
            final(self).symbol() == old(self).symbol(),
            final(self).exchange() == old(self).exchange(),
            final(self).vt_symbol() == old(self).vt_symbol(),
            final(self).strategy_name() == old(self).strategy_name(),
    {
        let ghost s0 = self.lstate();
        let ghost ids = self.active_limit_orders@;
        let ghost old_orders = self.limit_orders@;
        let ghost stops = self.stop_orders@;
        let n = self.active_limit_orders.len();
        let mut new_active: Vec<u64> = Vec::new();
        let mut notices: Vec<Notice> = Vec::new();
        let mut k: usize = 0;
        assert(ids.take(0) =~= Seq::<u64>::empty());
        while k < n
            invariant
                n == ids.len(),
                k <= n,
                self.active_limit_orders@ == ids,
                self.lstate() == limit_fold(s0, ids.take(k as int), p, t),
                notices@ == limit_notices(s0, ids.take(k as int), p, t),
                self.limit_orders@.len() == old_orders.len(),
                self.stop_orders@ == stops,
                self.active_stop_orders@ == old(self).active_stops(),
                self.symbol == old(self).symbol(),
                self.exchange == old(self).exchange(),
                self.vt_symbol == old(self).vt_symbol(),
                self.strategy_name == old(self).strategy_name(),
                book_wf(old_orders, ids, stops, old(self).active_stops(), s0.1, s0.2),
                forall|i: int| 0 <= i < old_orders.len() ==> order_wf(#[trigger] self.limit_orders@[i], i),
                forall|i: int|
                    0 <= i < old_orders.len() && !ids.take(k as int).contains((i + 1) as u64)
                        ==> #[trigger] self.limit_orders@[i] == old_orders[i],
                strictly_increasing(new_active@),
                forall|m: int|
                    0 <= m < new_active@.len() ==> ids.take(k as int).contains(
                        #[trigger] new_active@[m],
                    ) && self.limit_orders@[new_active@[m] - 1].status.spec_is_active(),
                forall|j: int|
                    0 <= j < k ==> (self.limit_orders@[#[trigger] ids[j] - 1].status.spec_is_active()
                        ==> new_active@.contains(ids[j])),
                forall|j: int| 0 <= j < stops.len() ==> stop_wf(#[trigger] stops[j], j, self.limit_orders@),
                forall|q: int|
                    0 <= q < self.trades@.len() ==> trade_wf(
                        #[trigger] self.trades@[q],
                        q,
                        self.limit_orders@,
                        stops,
                    ),
                self.pos == sum_signed(self.trades@),
                self.trades@.len() >= old(self).trades().len(),
                forall|q: int| 0 <= q < old(self).trades().len() ==> #[trigger] self.trades@[q] == old(self).trades()[q],
                forall|q: int| old(self).trades().len() <= q < self.trades@.len() ==> (#[trigger] self.trades@[q]).datetime == t,
            decreases n - k,
        {
            let id = self.active_limit_orders[k];
            let ghost s_before = self.lstate();
            let ghost notices_before = notices@;
            let ghost orders_before = self.limit_orders@;
            let ghost na_before = new_active@;
            proof {
                assert(1 <= id <= old_orders.len());
                assert(!ids.take(k as int).contains(id)) by {
                    if ids.take(k as int).contains(id) {
                        let m = choose|m: int| 0 <= m < k && ids.take(k as int)[m] == id;
                        assert(ids[m] < ids[k as int]);
                    }
                }
                assert(ids.contains(id)) by {
                    assert(ids[k as int] == id);
                }
                assert(orders_before[id - 1] == old_orders[id - 1]);
                assert(old_orders[id - 1].status.spec_is_active());
                assert(ids.take(k as int + 1).drop_last() =~= ids.take(k as int));
                assert(ids.take(k as int + 1).last() == id);
            }
            let nl = self.limit_orders.len();
            assert(id - 1 < nl);
            let i: usize = (id - 1) as usize;
            if self.limit_orders[i].status == Status::SUBMITTING {
                let mut o = self.limit_orders[i].duplicate();
                o.status = Status::NOTTRADED;
                self.limit_orders.set(i, o);
                notices.push(Notice::Order(id, Status::NOTTRADED));
            } else {
                assert(orders_before.update(i as int, orders_before[i as int]) =~= orders_before);
            }
            let ghost orders_mid = self.limit_orders@;
            let direction = self.limit_orders[i].direction;
            let volume = self.limit_orders[i].volume;
            let price = self.limit_orders[i].price;
            let crosses = (direction == Direction::LONG && price >= p.long_cross && p.long_cross > 0)
                || (direction == Direction::SHORT && price <= p.short_cross && p.short_cross > 0);
            let change: i128 = if direction == Direction::LONG {
                volume as i128
            } else {
                -(volume as i128)
            };
            let new_pos = self.pos.checked_add(change);
            if crosses && self.trades.len() < usize::MAX && new_pos.is_some() {
                let mut filled = self.limit_orders[i].duplicate();
                filled.traded = filled.volume;
                filled.status = Status::ALLTRADED;
                let trade_price = if direction == Direction::LONG {
                    if price <= p.long_best {
                        price
                    } else {
                        p.long_best
                    }
                } else {
                    if price >= p.short_best {
                        price
                    } else {
                        p.short_best
                    }
                };
                let tradeid: u64 = (self.trades.len() + 1) as u64;
                let trade = TradeData {
                    symbol: filled.symbol.clone(),
                    exchange: filled.exchange,
                    orderid: filled.orderid,
                    tradeid,
                    direction,
                    offset: filled.offset,
                    price: trade_price,
                    volume,
                    datetime: t,
                };
                let ghost trades_before = self.trades@;
                self.limit_orders.set(i, filled);
                self.trades.push(trade);
                self.pos = new_pos.unwrap();
                notices.push(Notice::Order(id, Status::ALLTRADED));
                notices.push(Notice::Trade(tradeid));
                proof {
                    lemma_sum_signed_push(trades_before, trade);
                    let orders = self.limit_orders@;
                    assert forall|j: int| 0 <= j < stops.len() implies stop_wf(#[trigger] stops[j], j, orders) by {
                        if let Some(oid) = stops[j].spawned_orderid {
                            assert(stop_wf(stops[j], j, orders_before));
                            assert(oid - 1 != i);
                            assert(orders[oid - 1] == orders_before[oid - 1]);
                        }
                    }
                    assert forall|q: int| 0 <= q < self.trades@.len() implies trade_wf(
                        #[trigger] self.trades@[q], q, orders, stops) by {
                        if q < trades_before.len() {
                            assert(self.trades@[q] == trades_before[q]);
                            assert(trade_wf(trades_before[q], q, orders_before, stops));
                            assert(trades_before[q].orderid - 1 != i);
                            assert(orders[trades_before[q].orderid - 1] == orders_before[trades_before[q].orderid - 1]);
                        }
                    }
                }
            } else {
                new_active.push(id);
                proof {
                    assert forall|a: int, b: int| 0 <= a < b < new_active@.len() implies new_active@[a] < new_active@[b] by {
                        if b == new_active@.len() - 1 {
                            assert(ids.take(k as int).contains(na_before[a]));
                            let m = choose|m: int| 0 <= m < k && ids.take(k as int)[m] == na_before[a];
                            assert(ids[m] < ids[k as int]);
                        } else {
                            assert(new_active@[a] == na_before[a]);
                        }
                    }
                    let orders = self.limit_orders@;
                    assert forall|j: int| 0 <= j < stops.len() implies stop_wf(#[trigger] stops[j], j, orders) by {
                        if let Some(oid) = stops[j].spawned_orderid {
                            assert(stop_wf(stops[j], j, orders_before));
                            assert(orders[oid - 1] == orders_before[oid - 1]);
                        }
                    }
                    assert forall|q: int| 0 <= q < self.trades@.len() implies trade_wf(
                        #[trigger] self.trades@[q], q, orders, stops) by {
                        assert(trade_wf(self.trades@[q], q, orders_before, stops));
                        assert(orders[self.trades@[q].orderid - 1] == orders_before[self.trades@[q].orderid - 1]);
                    }
                }
            }
            proof {
                let orders = self.limit_orders@;
                let tk1 = ids.take(k as int + 1);
                assert forall|x: int| 0 <= x < old_orders.len() implies order_wf(#[trigger] orders[x], x) by {
                    if x != i {
                        assert(orders[x] == orders_before[x]);
                    }
                }
                assert forall|x: int|
                    0 <= x < old_orders.len() && !tk1.contains((x + 1) as u64) implies #[trigger] orders[x] == old_orders[x] by {
                    if ids.take(k as int).contains((x + 1) as u64) {
                        let m = choose|m: int| 0 <= m < k && ids.take(k as int)[m] == (x + 1) as u64;
                        assert(tk1[m] == (x + 1) as u64);
                    }
                    if x == i {
                        assert(tk1[k as int] == id);
                    }
                    assert(orders[x] == orders_before[x]);
                }
                assert forall|m: int| 0 <= m < new_active@.len() implies tk1.contains(#[trigger] new_active@[m])
                    && orders[new_active@[m] - 1].status.spec_is_active() by {
                    if m < na_before.len() {
                        assert(new_active@[m] == na_before[m]);
                        let w = choose|w: int| 0 <= w < k && ids.take(k as int)[w] == na_before[m];
                        assert(tk1[w] == na_before[m]);
                        assert(na_before[m] != id);
                        assert(orders[na_before[m] - 1] == orders_before[na_before[m] - 1]);
                    } else {
                        assert(tk1[k as int] == id);
                    }
                }
                assert forall|j: int| 0 <= j < k + 1 implies (orders[#[trigger] ids[j] - 1].status.spec_is_active()
                    ==> new_active@.contains(ids[j])) by {
                    if j < k {
                        assert(ids[j] < ids[k as int]);
                        assert(orders[ids[j] - 1] == orders_before[ids[j] - 1]);
                        if orders_before[ids[j] - 1].status.spec_is_active() {
                            let w = choose|w: int| 0 <= w < na_before.len() && na_before[w] == ids[j];
                            assert(new_active@[w] == ids[j]);
                        }
                    } else {
                        if orders[ids[j] - 1].status.spec_is_active() {
                            assert(new_active@[new_active@.len() - 1] == id);
                        }
                    }
                }
            }
            assert(notices@ =~= notices_before + limit_step_notices(s_before, id, p, t));
            k += 1;
        }
        proof {
            assert(ids.take(n as int) =~= ids);
            let orders = self.limit_orders@;
            let na = new_active@;
            assert forall|m: int| 0 <= m < na.len() implies 1 <= #[trigger] na[m] <= orders.len() by {
                assert(ids.contains(na[m]));
                let w = choose|w: int| 0 <= w < ids.len() && ids[w] == na[m];
            }
            assert forall|x: int| 0 <= x < orders.len() implies (#[trigger] orders[x].status.spec_is_active()
                <==> na.contains((x + 1) as u64)) by {
                if orders[x].status.spec_is_active() {
                    if ids.contains((x + 1) as u64) {
                        let w = choose|w: int| 0 <= w < ids.len() && ids[w] == (x + 1) as u64;
                        assert(orders[ids[w] - 1].status.spec_is_active());
                    } else {
                        assert(orders[x] == old_orders[x]);
                    }
                }
                if na.contains((x + 1) as u64) {
                    let w = choose|w: int| 0 <= w < na.len() && na[w] == (x + 1) as u64;
                }
            }
        }
        self.active_limit_orders = new_active;
        notices
    }
}


impl OrderBook {
    /// Matches every waiting stop order, in ascending id order, against `p`;
    /// spawned orders and trades are stamped `t`. Returns what the strategy is
    /// to be told, in order.
    #[verifier::rlimit(100)]
    #[verifier::spinoff_prover]
    pub fn cross_stop_orders(&mut self, p: CrossPrices, t: i64) -> (notices: Vec<Notice>)
        requires
            old(self).wf(),
        ensures
            final(self).wf(),
            final(self).sstate() == stop_fold(
                old(self).sstate(),
                old(self).active_stops(),
                p,
                t,
                old(self).symbol(),
                old(self).exchange(),
            ),
            notices@ == stop_notices(
                old(self).sstate(),
                old(self).active_stops(),
                p,
                t,
                old(self).symbol(),
                old(self).exchange(),
            ),
            final(self).active_orders() == old(self).active_orders(),
            final(self).symbol() == old(self).symbol(),
            final(self).exchange() == old(self).exchange(),
            final(self).vt_symbol() == old(self).vt_symbol(),
            final(self).strategy_name() == old(self).strategy_name(),
            final(self).trades().len() >= old(self).trades().len(),
            forall|q: int| 0 <= q < old(self).trades().len() ==> #[trigger] final(self).trades()[q] == old(self).trades()[q],
            forall|q: int| old(self).trades().len() <= q < final(self).trades().len() ==> (#[trigger] final(self).trades()[q]).datetime == t,
    {
        let ghost s0 = self.sstate();
        let ghost ids = self.active_stop_orders@;
        let ghost old_orders = self.limit_orders@;
        let ghost old_stops = self.stop_orders@;
        let ghost active = self.active_limit_orders@;
        let n = self.active_stop_orders.len();
        let mut new_active: Vec<u64> = Vec::new();
        let mut notices: Vec<Notice> = Vec::new();
        let mut k: usize = 0;
        assert(ids.take(0) =~= Seq::<u64>::empty());
        while k < n
            invariant
                n == ids.len(),
                k <= n,
                self.active_stop_orders@ == ids,
                self.active_limit_orders@ == active,
                self.sstate() == stop_fold(s0, ids.take(k as int), p, t, old(self).symbol(), old(self).exchange()),
                notices@ == stop_notices(s0, ids.take(k as int), p, t, old(self).symbol(), old(self).exchange()),
                self.stop_orders@.len() == old_stops.len(),
                self.limit_orders@.len() >= old_orders.len(),
                self.limit_orders@.len() <= usize::MAX,
                self.symbol == old(self).symbol(),
                self.exchange == old(self).exchange(),
                self.vt_symbol == old(self).vt_symbol(),
                self.strategy_name == old(self).strategy_name(),
                book_wf(old_orders, active, old_stops, ids, s0.2, s0.3),
                forall|i: int| 0 <= i < self.limit_orders@.len() ==> order_wf(#[trigger] self.limit_orders@[i], i),
                forall|i: int| 0 <= i < old_orders.len() ==> #[trigger] self.limit_orders@[i] == old_orders[i],
                forall|i: int| old_orders.len() <= i < self.limit_orders@.len() ==> #[trigger] self.limit_orders@[i].status == Status::ALLTRADED,
                forall|x: int|
                    0 <= x < old_stops.len() && !ids.take(k as int).contains((x + 1) as u64)
                        ==> #[trigger] self.stop_orders@[x] == old_stops[x],
                forall|x: int| 0 <= x < old_stops.len() ==> stop_wf(#[trigger] self.stop_orders@[x], x, self.limit_orders@),
                strictly_increasing(new_active@),
                forall|m: int|
                    0 <= m < new_active@.len() ==> ids.take(k as int).contains(
                        #[trigger] new_active@[m],
                    ) && self.stop_orders@[new_active@[m] - 1].status == StopOrderStatus::WAITING,
                forall|j: int|
                    0 <= j < k ==> (self.stop_orders@[#[trigger] ids[j] - 1].status == StopOrderStatus::WAITING
                        ==> new_active@.contains(ids[j])),
                forall|q: int|
                    0 <= q < self.trades@.len() ==> trade_wf(
                        #[trigger] self.trades@[q],
                        q,
                        self.limit_orders@,
                        self.stop_orders@,
                    ),
                self.pos == sum_signed(self.trades@),
                self.trades@.len() >= old(self).trades().len(),
                forall|q: int| 0 <= q < old(self).trades().len() ==> #[trigger] self.trades@[q] == old(self).trades()[q],
                forall|q: int| old(self).trades().len() <= q < self.trades@.len() ==> (#[trigger] self.trades@[q]).datetime == t,
            decreases n - k,
        {
            let id = self.active_stop_orders[k];
            let ghost stops_before = self.stop_orders@;
            let ghost notices_before = notices@;
            let ghost ss_before = self.sstate();
            let ghost orders_before = self.limit_orders@;
            let ghost trades_before = self.trades@;
            let ghost na_before = new_active@;
            proof {
                assert(1 <= id <= old_stops.len());
                assert(!ids.take(k as int).contains(id)) by {
                    if ids.take(k as int).contains(id) {
                        let m = choose|m: int| 0 <= m < k && ids.take(k as int)[m] == id;
                        assert(ids[m] < ids[k as int]);
                    }
                }
                assert(ids.contains(id)) by {
                    assert(ids[k as int] == id);
                }
                assert(stops_before[id - 1] == old_stops[id - 1]);
                assert(old_stops[id - 1].status == StopOrderStatus::WAITING);
                assert(ids.take(k as int + 1).drop_last() =~= ids.take(k as int));
                assert(ids.take(k as int + 1).last() == id);
            }
            let ns = self.stop_orders.len();
            assert(id - 1 < ns);
            let j: usize = (id - 1) as usize;
            let direction = self.stop_orders[j].direction;
            let volume = self.stop_orders[j].volume;
            let price = self.stop_orders[j].price;
            let triggers = (direction == Direction::LONG && price <= p.long_cross) || (direction
                == Direction::SHORT && price >= p.short_cross);
            let change: i128 = if direction == Direction::LONG {
                volume as i128
            } else {
                -(volume as i128)
            };
            let new_pos = self.pos.checked_add(change);
            if triggers && self.limit_orders.len() < usize::MAX && self.trades.len() < usize::MAX
                && new_pos.is_some() {
                let oid: u64 = (self.limit_orders.len() + 1) as u64;
                let order = OrderData {
                    symbol: self.symbol.clone(),
                    exchange: self.exchange,
                    orderid: oid,
                    type_: OrderType::LIMIT,
                    direction,
                    offset: self.stop_orders[j].offset,
                    price,
                    volume,
                    traded: volume,
                    status: Status::ALLTRADED,
                    datetime: t,
                };
                let trade_price = if direction == Direction::LONG {
                    if price >= p.long_best {
                        price
                    } else {
                        p.long_best
                    }
                } else {
                    if price <= p.short_best {
                        price
                    } else {
                        p.short_best
                    }
                };
                let tradeid: u64 = (self.trades.len() + 1) as u64;
                let trade = TradeData {
                    symbol: self.symbol.clone(),
                    exchange: self.exchange,
                    orderid: oid,
                    tradeid,
                    direction,
                    offset: order.offset,
                    price: trade_price,
                    volume,
                    datetime: t,
                };
                let mut so = self.stop_orders[j].duplicate();
                so.status = StopOrderStatus::TRIGGERED;
                so.spawned_orderid = Some(oid);
                self.limit_orders.push(order);
                self.trades.push(trade);
                self.stop_orders.set(j, so);
                self.pos = new_pos.unwrap();
                notices.push(Notice::StopOrder(id));
                notices.push(Notice::Order(oid, Status::ALLTRADED));
                notices.push(Notice::Trade(tradeid));
                proof {
                    lemma_sum_signed_push(trades_before, trade);
                    let orders = self.limit_orders@;
                    let stops = self.stop_orders@;
                    assert(orders.len() == orders_before.len() + 1);
                    assert forall|i: int| 0 <= i < orders.len() implies order_wf(#[trigger] orders[i], i) by {
                        if i < orders_before.len() {
                            assert(orders[i] == orders_before[i]);
                        }
                    }
                    assert forall|x: int| 0 <= x < old_stops.len() implies stop_wf(#[trigger] stops[x], x, orders) by {
                        if x != j {
                            assert(stops[x] == stops_before[x]);
                            assert(stop_wf(stops_before[x], x, orders_before));
                            if let Some(o) = stops[x].spawned_orderid {
                                assert(orders[o - 1] == orders_before[o - 1]);
                            }
                        } else {
                            assert(stop_wf(stops_before[x], x, orders_before));
                            assert(orders[orders.len() - 1] == order);
                        }
                    }
                    assert(spawned_by_stop(stops, oid)) by {
                        assert(stops[j as int].spawned_orderid == Some(oid));
                    }
                    assert forall|q: int| 0 <= q < self.trades@.len() implies trade_wf(
                        #[trigger] self.trades@[q], q, orders, stops) by {
                        if q < trades_before.len() {
                            let tq = trades_before[q];
                            assert(self.trades@[q] == tq);
                            assert(trade_wf(tq, q, orders_before, stops_before));
                            assert(orders[tq.orderid - 1] == orders_before[tq.orderid - 1]);
                            if spawned_by_stop(stops_before, tq.orderid) {
                                let w = choose|w: int| 0 <= w < stops_before.len() && #[trigger] stops_before[w].spawned_orderid == Some(tq.orderid);
                                assert(w != j);
                                assert(stops[w] == stops_before[w]);
                            }
                        } else {
                            assert(orders[oid - 1] == order);
                        }
                    }
                }
            } else {
                new_active.push(id);
                proof {
                    assert(stops_before.update(j as int, stops_before[j as int]) =~= stops_before);
                    assert forall|a: int, b: int| 0 <= a < b < new_active@.len() implies new_active@[a] < new_active@[b] by {
                        if b == new_active@.len() - 1 {
                            assert(ids.take(k as int).contains(na_before[a]));
                            let m = choose|m: int| 0 <= m < k && ids.take(k as int)[m] == na_before[a];
                            assert(ids[m] < ids[k as int]);
                        } else {
                            assert(new_active@[a] == na_before[a]);
                        }
                    }
                }
            }
            proof {
                let stops = self.stop_orders@;
                let tk1 = ids.take(k as int + 1);
                assert forall|i: int| 0 <= i < old_orders.len() implies #[trigger] self.limit_orders@[i] == old_orders[i] by {
                    assert(self.limit_orders@[i] == orders_before[i]);
                }
                assert forall|i: int| old_orders.len() <= i < self.limit_orders@.len() implies #[trigger] self.limit_orders@[i].status == Status::ALLTRADED by {
                    if i < orders_before.len() {
                        assert(self.limit_orders@[i] == orders_before[i]);
                    }
                }
                assert forall|x: int|
                    0 <= x < old_stops.len() && !tk1.contains((x + 1) as u64) implies #[trigger] stops[x] == old_stops[x] by {
                    if ids.take(k as int).contains((x + 1) as u64) {
                        let m = choose|m: int| 0 <= m < k && ids.take(k as int)[m] == (x + 1) as u64;
                        assert(tk1[m] == (x + 1) as u64);
                    }
                    if x == j {
                        assert(tk1[k as int] == id);
                    }
                    assert(stops[x] == stops_before[x]);
                }
                assert forall|m: int| 0 <= m < new_active@.len() implies tk1.contains(#[trigger] new_active@[m])
                    && stops[new_active@[m] - 1].status == StopOrderStatus::WAITING by {
                    if m < na_before.len() {
                        assert(new_active@[m] == na_before[m]);
                        let w = choose|w: int| 0 <= w < k && ids.take(k as int)[w] == na_before[m];
                        assert(tk1[w] == na_before[m]);
                        assert(na_before[m] != id);
                        assert(stops[na_before[m] - 1] == stops_before[na_before[m] - 1]);
                    } else {
                        assert(tk1[k as int] == id);
                    }
                }
                assert forall|x: int| 0 <= x < k + 1 implies (stops[#[trigger] ids[x] - 1].status == StopOrderStatus::WAITING
                    ==> new_active@.contains(ids[x])) by {
                    if x < k {
                        assert(ids[x] < ids[k as int]);
                        assert(stops[ids[x] - 1] == stops_before[ids[x] - 1]);
                        if stops_before[ids[x] - 1].status == StopOrderStatus::WAITING {
                            let w = choose|w: int| 0 <= w < na_before.len() && na_before[w] == ids[x];
                            assert(new_active@[w] == ids[x]);
                        }
                    } else {
                        if stops[ids[x] - 1].status == StopOrderStatus::WAITING {
                            assert(new_active@[new_active@.len() - 1] == id);
                        }
                    }
                }
            }
            assert(notices@ =~= notices_before + stop_step_notices(ss_before, id, p));
            k += 1;
        }
        proof {
            assert(ids.take(n as int) =~= ids);
            let orders = self.limit_orders@;
            let stops = self.stop_orders@;
            let na = new_active@;
            assert forall|m: int| 0 <= m < na.len() implies 1 <= #[trigger] na[m] <= stops.len() by {
                assert(ids.contains(na[m]));
                let w = choose|w: int| 0 <= w < ids.len() && ids[w] == na[m];
            }
            assert forall|x: int| 0 <= x < stops.len() implies ((#[trigger] stops[x].status == StopOrderStatus::WAITING)
                <==> na.contains((x + 1) as u64)) by {
                if stops[x].status == StopOrderStatus::WAITING {
                    if ids.contains((x + 1) as u64) {
                        let w = choose|w: int| 0 <= w < ids.len() && ids[w] == (x + 1) as u64;
                        assert(stops[ids[w] - 1].status == StopOrderStatus::WAITING);
                    } else {
                        assert(stops[x] == old_stops[x]);
                    }
                }
                if na.contains((x + 1) as u64) {
                    let w = choose|w: int| 0 <= w < na.len() && na[w] == (x + 1) as u64;
                }
            }
            assert forall|m: int| 0 <= m < active.len() implies 1 <= #[trigger] active[m] <= orders.len() by {
            }
            assert forall|x: int| 0 <= x < orders.len() implies (#[trigger] orders[x].status.spec_is_active()
                <==> active.contains((x + 1) as u64)) by {
                if x < old_orders.len() {
                    assert(orders[x] == old_orders[x]);
                } else {
                    if active.contains((x + 1) as u64) {
                        let w = choose|w: int| 0 <= w < active.len() && active[w] == (x + 1) as u64;
                    }
                }
            }
        }
        self.active_stop_orders = new_active;
        notices
    }
}

} // verus!

use vnrs::backtesting::{BacktestingEngine, ConfigError, MixData, OrderRef, Strategy, StrategyContext};
use vnrs::base::{BacktestingMode, StopOrder, StopOrderStatus};
use vnrs::constant::{Direction, Exchange, Interval, Offset, Status};
use vnrs::object::{BarData, OrderData, TickData, TradeData, MS_PER_DAY};
use vnrs::daily::DaySummary;
use vnrs::statistics::{calculate_statistics, ratios_of};

const D1: i64 = 19723; // 2024-01-01

fn bar(day: i64, o: i64, h: i64, l: i64, c: i64) -> BarData {
    BarData {
        symbol: "ETH".to_string(),
        exchange: Exchange::LOCAL,
        datetime: day * MS_PER_DAY,
        interval: Interval::DAILY,
        volume: 0,
        turnover: 0,
        open_interest: 0,
        open_price: o,
        high_price: h,
        low_price: l,
        close_price: c,
    }
}

fn tick(ms: i64, last: i64, bid: i64, ask: i64) -> TickData {
    TickData {
        symbol: "ETH".to_string(),
        exchange: Exchange::LOCAL,
        datetime: ms,
        name: String::new(),
        volume: 0,
        turnover: 0,
        open_interest: 0,
        last_price: last,
        last_volume: 0,
        limit_up: 0,
        limit_down: 0,
        open_price: 0,
        high_price: 0,
        low_price: 0,
        pre_close: 0,
        bid_price_1: bid,
        bid_price_2: 0,
        bid_price_3: 0,
        bid_price_4: 0,
        bid_price_5: 0,
        ask_price_1: ask,
        ask_price_2: 0,
        ask_price_3: 0,
        ask_price_4: 0,
        ask_price_5: 0,
        bid_volume_1: 0,
        bid_volume_2: 0,
        bid_volume_3: 0,
        bid_volume_4: 0,
        bid_volume_5: 0,
        ask_volume_1: 0,
        ask_volume_2: 0,
        ask_volume_3: 0,
        ask_volume_4: 0,
        ask_volume_5: 0,
    }
}

/// What a scripted strategy does on its n-th bar (counting from 0).
#[derive(Clone, Copy)]
enum Action {
    Nothing,
    Send { direction: Direction, price: i64, volume: i64, stop: bool },
    CancelFirst,
    CancelAll,
}

struct Scripted {
    on_start: Action,
    script: Vec<Action>,
    bars_seen: usize,
    ticks_seen: usize,
    refs: Vec<OrderRef>,
    orders: Vec<(u64, Status)>,
    trades: Vec<(u64, i64)>,
    positions: Vec<i128>,
    stops: Vec<(u64, StopOrderStatus)>,
    inited: bool,
    stopped: bool,
}

impl Scripted {
    fn new(on_start: Action, script: Vec<Action>) -> Self {
        Scripted {
            on_start,
            script,
            bars_seen: 0,
            ticks_seen: 0,
            refs: Vec::new(),
            orders: Vec::new(),
            trades: Vec::new(),
            positions: Vec::new(),
            stops: Vec::new(),
            inited: false,
            stopped: false,
        }
    }

    fn act(&mut self, engine: &mut StrategyContext, a: Action) {
        match a {
            Action::Nothing => {}
            Action::Send { direction, price, volume, stop } => {
                let r = engine.send_order(direction, Offset::OPEN, price, volume, stop, false, false);
                self.refs.extend(r);
            }
            Action::CancelFirst => {
                if let Some(r) = self.refs.first() {
                    engine.cancel_order(*r);
                }
            }
            Action::CancelAll => engine.cancel_all(),
        }
    }
}

impl Strategy for Scripted {
    fn on_init(&mut self, _ctx: &mut StrategyContext) {
        self.inited = true;
    }
    fn on_start(&mut self, engine: &mut StrategyContext) {
        let a = self.on_start;
        self.act(engine, a);
    }
    fn on_stop(&mut self, _ctx: &mut StrategyContext) {
        self.stopped = true;
    }
    fn on_tick(&mut self, engine: &mut StrategyContext, _tick: &TickData) {
        let a = self.script.get(self.ticks_seen).copied().unwrap_or(Action::Nothing);
        self.ticks_seen += 1;
        self.act(engine, a);
    }
    fn on_bar(&mut self, engine: &mut StrategyContext, _bar: &BarData) {
        let a = self.script.get(self.bars_seen).copied().unwrap_or(Action::Nothing);
        self.bars_seen += 1;
        self.act(engine, a);
    }
    fn on_order(&mut self, _ctx: &mut StrategyContext, order: &OrderData) {
        self.orders.push((order.orderid, order.status));
    }
    fn on_trade(&mut self, ctx: &mut StrategyContext, trade: &TradeData) {
        self.trades.push((trade.tradeid, trade.price));
        self.positions.push(ctx.pos());
    }
    fn on_stop_order(&mut self, _ctx: &mut StrategyContext, stop_order: &StopOrder) {
        self.stops.push((stop_order.stop_orderid, stop_order.status));
    }
}

fn engine(pricetick: i64, capital: i64, mode: BacktestingMode) -> BacktestingEngine {
    let mut e = BacktestingEngine::new();
    let r = e.set_parameters(
        "ETH.LOCAL",
        Interval::DAILY,
        D1 * MS_PER_DAY,
        (D1 + 10) * MS_PER_DAY,
        0,
        0,
        1,
        pricetick,
        capital,
        mode,
        0,
        240,
        120,
    );
    assert_eq!(r, Ok(()));
    e.add_strategy("scripted", "");
    e
}

fn two_bars() -> Vec<MixData> {
    vec![
        MixData::BarData(bar(D1, 100, 110, 95, 105)),
        MixData::BarData(bar(D1 + 1, 108, 112, 106, 110)),
    ]
}

fn send(direction: Direction, price: i64, stop: bool) -> Action {
    Action::Send { direction, price, volume: 1, stop }
}

#[test]
fn empty_history_runs_to_completion() {
    let mut e = engine(1, 10_000, BacktestingMode::BAR);
    let mut s = Scripted::new(Action::Nothing, vec![]);
    e.run_backtesting(&mut s);
    assert!(s.inited && s.stopped);
    assert!(e.inited() && e.trading());
    assert!(e.get_all_trades().is_empty());
    let results = e.calculate_result().unwrap();
    assert!(results.is_empty());
    let (rows, st) = e.calculate_statistics(&results).unwrap();
    assert!(rows.is_empty());
    assert_eq!(st.start_date, 0);
    assert_eq!(st.end_date, 0);
    assert_eq!(st.total_days, 0);
    assert_eq!(st.end_balance, 0);
    assert_eq!(st.max_drawdown, 0);
    assert_eq!(st.total_net_pnl, 0);
}

#[test]
fn single_limit_fill() {
    let mut e = engine(1, 10_000, BacktestingMode::BAR);
    e.load_history(two_bars());
    let mut s = Scripted::new(Action::Nothing, vec![send(Direction::LONG, 120, false)]);
    e.run_backtesting(&mut s);
    let trades = e.get_all_trades();
    assert_eq!(trades.len(), 1);
    assert_eq!(trades[0].price, 108);
    assert_eq!(trades[0].orderid, 1);
    assert_eq!(trades[0].datetime, (D1 + 1) * MS_PER_DAY);
    assert_eq!(e.pos(), 1);
    assert_eq!(e.get_all_orders()[0].status, Status::ALLTRADED);
    assert_eq!(e.get_all_orders()[0].traded, 1);
    assert!(e.get_active_order_ids().is_empty());
    assert_eq!(s.orders, vec![(1, Status::NOTTRADED), (1, Status::ALLTRADED)]);
    assert_eq!(s.trades, vec![(1, 108)]);
    assert_eq!(s.positions, vec![1]);

    let results = e.calculate_result().unwrap();
    assert_eq!(results.len(), 2);
    let d2 = &results[1];
    assert_eq!(d2.date, D1 + 1);
    assert_eq!(d2.pre_close, 105);
    assert_eq!(d2.start_pos, 0);
    assert_eq!(d2.end_pos, 1);
    assert_eq!(d2.trade_count, 1);
    assert_eq!(d2.trading_pnl, 2);
    assert_eq!(d2.holding_pnl, 0);
    assert_eq!(d2.total_pnl, 2);
    assert_eq!(d2.commission, 0);
    assert_eq!(d2.slippage, 0);
    assert_eq!(d2.net_pnl, 2);
    let (_, st) = e.calculate_statistics(&results).unwrap();
    assert!(st.positive_balance);
    assert_eq!(st.end_balance, 10_002);
    assert_eq!(st.total_days, 2);
    assert_eq!(st.profit_days, 1);
    assert_eq!(st.loss_days, 0);
    assert_eq!(st.total_trade_count, 1);
    assert_eq!(st.total_turnover, 108);
    let r = ratios_of(&st, 240).unwrap();
    // 0.02 % in units of 0.0001 %
    assert_eq!(r.total_return, 200);
    assert_eq!(r.annual_return, 200 * 240 / 2);
    assert_eq!(r.daily_net_pnl, 1);
    assert_eq!(r.daily_trade_count, 500_000);
}

#[test]
fn stop_order_triggers_and_fills() {
    let mut e = engine(1, 10_000, BacktestingMode::BAR);
    e.load_history(two_bars());
    let mut s = Scripted::new(Action::Nothing, vec![send(Direction::LONG, 107, true)]);
    e.run_backtesting(&mut s);
    let stops = e.get_all_stop_orders();
    assert_eq!(stops.len(), 1);
    assert_eq!(stops[0].status, StopOrderStatus::TRIGGERED);
    assert_eq!(stops[0].spawned_orderid, Some(1));
    assert!(e.get_active_stop_order_ids().is_empty());
    let orders = e.get_all_orders();
    assert_eq!(orders.len(), 1);
    assert_eq!(orders[0].status, Status::ALLTRADED);
    assert_eq!(orders[0].price, 107);
    let trades = e.get_all_trades();
    assert_eq!(trades.len(), 1);
    assert_eq!(trades[0].price, 108);
    assert_eq!(e.pos(), 1);
    assert_eq!(s.stops, vec![(1, StopOrderStatus::TRIGGERED)]);
    let results = e.calculate_result().unwrap();
    assert_eq!(results[1].net_pnl, 2);
}

#[test]
fn cancel_before_fill() {
    let mut e = engine(1, 10_000, BacktestingMode::BAR);
    e.load_history(two_bars());
    let mut s = Scripted::new(
        Action::Nothing,
        vec![send(Direction::LONG, 90, false), Action::CancelFirst],
    );
    e.run_backtesting(&mut s);
    assert_eq!(e.get_all_orders()[0].status, Status::CANCELLED);
    assert!(e.get_all_trades().is_empty());
    assert_eq!(e.pos(), 0);
    assert_eq!(s.orders, vec![(1, Status::NOTTRADED), (1, Status::CANCELLED)]);
    let results = e.calculate_result().unwrap();
    assert!(results.iter().all(|d| d.trade_count == 0));
}

#[test]
fn order_price_is_rounded_to_tick() {
    // Prices in hundredths: a tick of 0.5 is 50, a price of 100.37 is 10037.
    let mut e = engine(50, 10_000, BacktestingMode::BAR);
    let r = e.send_order(Direction::LONG, Offset::OPEN, 10037, 1, false, false, false);
    assert_eq!(r, vec![OrderRef::Limit(1)]);
    assert_eq!(e.get_all_orders()[0].price, 10050);
    let r = e.send_order(Direction::SHORT, Offset::OPEN, 10025, 1, true, false, false);
    assert_eq!(r, vec![OrderRef::Stop(1)]);
    assert_eq!(e.get_all_stop_orders()[0].price, 10000);
}

#[test]
fn unrepresentable_rounded_price_is_refused() {
    let mut e = engine(2, 10_000, BacktestingMode::BAR);
    let r = e.send_order(Direction::LONG, Offset::OPEN, i64::MAX, 1, false, false, false);
    assert!(r.is_empty());
    assert!(e.get_all_orders().is_empty());
}

#[test]
fn drawdown_scenario() {
    let mut e = engine(1, 1_000, BacktestingMode::BAR);
    e.load_history(vec![
        MixData::BarData(bar(D1, 100, 100, 100, 100)),
        MixData::BarData(bar(D1 + 1, 80, 80, 80, 80)),
        MixData::BarData(bar(D1 + 2, 90, 90, 90, 90)),
    ]);
    let mut s = Scripted::new(send(Direction::LONG, 1_000, false), vec![]);
    e.run_backtesting(&mut s);
    assert_eq!(e.get_all_trades()[0].price, 100);
    let results = e.calculate_result().unwrap();
    let (rows, st) = e.calculate_statistics(&results).unwrap();
    let balances: Vec<i128> = rows.iter().map(|r| r.balance).collect();
    assert_eq!(balances, vec![1_000, 980, 990]);
    assert_eq!(st.max_drawdown, -20);
    // -2.0 % in units of 0.0001 %
    assert_eq!(st.max_ddpercent, -20_000);
    assert_eq!(st.max_drawdown_duration, 1);
    assert_eq!(st.end_balance, 990);
    assert_eq!(st.total_net_pnl, st.end_balance - 1_000);
    let highs: Vec<i128> = rows.iter().map(|r| r.highlevel).collect();
    assert_eq!(highs, vec![1_000, 1_000, 1_000]);
    assert!(rows.iter().all(|r| r.drawdown <= 0 && r.ddpercent <= 0));
    assert!(highs.windows(2).all(|w| w[0] <= w[1]));
}

#[test]
fn blow_up_suppresses_statistics() {
    let mut e = engine(1, 10, BacktestingMode::BAR);
    e.load_history(vec![
        MixData::BarData(bar(D1, 100, 100, 100, 100)),
        MixData::BarData(bar(D1 + 1, 50, 50, 50, 50)),
    ]);
    let mut s = Scripted::new(send(Direction::LONG, 1_000, false), vec![]);
    e.run_backtesting(&mut s);
    let results = e.calculate_result().unwrap();
    let (rows, st) = e.calculate_statistics(&results).unwrap();
    assert_eq!(rows[1].balance, -40);
    assert!(!st.positive_balance);
    assert_eq!(st.total_days, 0);
    assert_eq!(st.end_balance, 0);
    assert_eq!(st.capital, 10);
}

#[test]
fn short_limit_and_short_stop() {
    let mut e = engine(1, 10_000, BacktestingMode::BAR);
    e.load_history(two_bars());
    let mut s = Scripted::new(
        Action::Nothing,
        vec![send(Direction::SHORT, 100, false)],
    );
    e.run_backtesting(&mut s);
    // sells at the better of 100 and the open 108
    assert_eq!(e.get_all_trades()[0].price, 108);
    assert_eq!(e.pos(), -1);

    let mut e = engine(1, 10_000, BacktestingMode::BAR);
    e.load_history(two_bars());
    let mut s = Scripted::new(Action::Nothing, vec![send(Direction::SHORT, 107, true)]);
    e.run_backtesting(&mut s);
    // a sell stop at 107 triggers when the low (106) reaches it, filling at min(107, 108)
    assert_eq!(e.get_all_trades()[0].price, 107);
    assert_eq!(e.pos(), -1);
}

#[test]
fn cancel_all_cancels_every_working_order() {
    let mut e = engine(1, 10_000, BacktestingMode::BAR);
    e.load_history(two_bars());
    let mut s = Scripted::new(
        Action::Nothing,
        vec![
            Action::Nothing,
            Action::CancelAll,
        ],
    );
    s.on_start = send(Direction::LONG, 50, false);
    e.run_backtesting(&mut s);
    let _ = e.send_order(Direction::LONG, Offset::OPEN, 50, 1, false, false, false);
    let _ = e.send_order(Direction::SHORT, Offset::OPEN, 500, 1, true, false, false);
    e.cancel_all();
    assert!(e.get_active_order_ids().is_empty());
    assert!(e.get_active_stop_order_ids().is_empty());
    assert!(e.get_all_orders().iter().all(|o| o.status == Status::CANCELLED));
    assert_eq!(e.get_all_stop_orders()[0].status, StopOrderStatus::CANCELLED);
}

#[test]
fn cancelling_unknown_or_finished_orders_changes_nothing() {
    let mut e = engine(1, 10_000, BacktestingMode::BAR);
    e.cancel_order(OrderRef::Limit(7));
    e.cancel_order(OrderRef::Stop(0));
    assert!(e.get_all_orders().is_empty());
}

#[test]
fn invariants_hold_after_a_busy_run() {
    let mut e = engine(1, 100_000, BacktestingMode::BAR);
    let mut history = Vec::new();
    let closes = [100, 104, 97, 103, 110, 99, 95, 101];
    for (i, c) in closes.iter().enumerate() {
        history.push(MixData::BarData(bar(D1 + i as i64, *c - 2, *c + 5, *c - 5, *c)));
    }
    e.load_history(history);
    let mut s = Scripted::new(
        send(Direction::LONG, 103, true),
        vec![
            send(Direction::LONG, 102, false),
            send(Direction::SHORT, 96, false),
            send(Direction::SHORT, 90, true),
            send(Direction::LONG, 80, false),
            Action::CancelFirst,
            send(Direction::LONG, 200, false),
            Action::CancelAll,
            Action::Nothing,
        ],
    );
    e.run_backtesting(&mut s);
    let trades = e.get_all_trades();
    assert!(!trades.is_empty());
    let signed: i128 = trades
        .iter()
        .map(|t| if t.direction == Direction::LONG { t.volume as i128 } else { -(t.volume as i128) })
        .sum();
    assert_eq!(e.pos(), signed);
    for id in e.get_active_order_ids() {
        let st = e.get_all_orders()[*id as usize - 1].status;
        assert!(st == Status::SUBMITTING || st == Status::NOTTRADED);
    }
    for (i, o) in e.get_all_orders().iter().enumerate() {
        assert_eq!(o.orderid, i as u64 + 1);
        if o.status == Status::ALLTRADED {
            assert_eq!(o.traded, o.volume);
        }
    }
    for (i, t) in trades.iter().enumerate() {
        assert_eq!(t.tradeid, i as u64 + 1);
        let o = &e.get_all_orders()[t.orderid as usize - 1];
        let spawned = e.get_all_stop_orders().iter().any(|s| s.spawned_orderid == Some(t.orderid));
        if !spawned {
            if t.direction == Direction::LONG {
                assert!(o.price >= t.price);
            } else {
                assert!(o.price <= t.price);
            }
        }
    }
    let results = e.calculate_result().unwrap();
    let (_, st) = e.calculate_statistics(&results).unwrap();
    let net: i128 = results.iter().map(|d| d.net_pnl).sum();
    assert_eq!(net, st.end_balance - 100_000);
}

#[test]
fn tick_mode_matching() {
    let mut e = engine(1, 10_000, BacktestingMode::TICK);
    e.load_history(vec![
        MixData::TickData(tick(D1 * MS_PER_DAY + 1_000, 100, 99, 101)),
        MixData::TickData(tick(D1 * MS_PER_DAY + 2_000, 98, 97, 99)),
        MixData::BarData(bar(D1, 1, 1, 1, 1)),
    ]);
    let mut s = Scripted::new(Action::Nothing, vec![send(Direction::LONG, 100, false)]);
    e.run_backtesting(&mut s);
    assert_eq!(s.bars_seen, 0);
    assert_eq!(s.ticks_seen, 2);
    // the buy at 100 crosses the second tick's ask of 99 and fills there
    let trades = e.get_all_trades();
    assert_eq!(trades.len(), 1);
    assert_eq!(trades[0].price, 99);
    let closes = e.get_daily_closes();
    assert_eq!(closes.len(), 1);
    assert_eq!(closes[0].close_price, 98);
}

#[test]
fn process_bar_keeps_days_sorted_and_last_close() {
    let mut e = engine(1, 10_000, BacktestingMode::BAR);
    e.process_bar(&bar(D1 + 2, 1, 1, 1, 30));
    e.process_bar(&bar(D1, 1, 1, 1, 10));
    e.process_bar(&bar(D1 + 1, 1, 1, 1, 20));
    e.process_bar(&bar(D1, 1, 1, 1, 11));
    let closes: Vec<(i64, i64)> = e.get_daily_closes().iter().map(|c| (c.date, c.close_price)).collect();
    assert_eq!(closes, vec![(D1, 11), (D1 + 1, 20), (D1 + 2, 30)]);
}

#[test]
fn set_parameters_rejects_bad_configuration() {
    let mut e = BacktestingEngine::new();
    let r = e.set_parameters("ETH", Interval::DAILY, 0, 1, 0, 0, 1, 1, 0, BacktestingMode::BAR, 0, 240, 0);
    assert_eq!(r, Err(ConfigError::InvalidSymbol));
    let r = e.set_parameters("ETH.MOON", Interval::DAILY, 0, 1, 0, 0, 1, 1, 0, BacktestingMode::BAR, 0, 240, 0);
    assert_eq!(r, Err(ConfigError::InvalidSymbol));
    let r = e.set_parameters("ETH.LOCAL", Interval::DAILY, 0, 1, 0, 0, 1, 0, 0, BacktestingMode::BAR, 0, 240, 0);
    assert_eq!(r, Err(ConfigError::InvalidPriceTick));
}

#[test]
fn history_windows_split_the_period() {
    let mut e = BacktestingEngine::new();
    let start = D1 * MS_PER_DAY;
    let end = (D1 + 25) * MS_PER_DAY;
    e.set_parameters("ETH.LOCAL", Interval::DAILY, start, end, 0, 0, 1, 1, 0, BacktestingMode::BAR, 0, 240, 0)
        .unwrap();
    let w = e.history_windows().unwrap();
    // 25 days: windows of 2 days, each starting just after the previous end
    assert_eq!(w[0], (start, start + 2 * MS_PER_DAY));
    assert_eq!(w[1], (start + 2 * MS_PER_DAY + 1, start + 4 * MS_PER_DAY));
    assert_eq!(*w.last().unwrap(), (start + 24 * MS_PER_DAY + 1, end));
    assert_eq!(w.len(), 13);
    for k in 1..w.len() {
        assert_eq!(w[k].0, w[k - 1].1 + 1);
    }
    // the instant `end` itself is covered
    e.set_parameters("ETH.LOCAL", Interval::MINUTE, 0, MS_PER_DAY + 60_000, 0, 0, 1, 1, 0, BacktestingMode::BAR, 0, 240, 0)
        .unwrap();
    let w = e.history_windows().unwrap();
    assert_eq!(w, vec![(0, MS_PER_DAY), (MS_PER_DAY + 1, MS_PER_DAY + 60_000)]);

    e.set_parameters("ETH.LOCAL", Interval::WEEKLY, start, end, 0, 0, 1, 1, 0, BacktestingMode::BAR, 0, 240, 0)
        .unwrap();
    assert_eq!(e.history_windows(), Err(ConfigError::UnsupportedInterval));
    e.set_parameters("ETH.LOCAL", Interval::DAILY, end, start, 0, 0, 1, 1, 0, BacktestingMode::BAR, 0, 240, 0)
        .unwrap();
    assert_eq!(e.history_windows(), Err(ConfigError::InvalidPeriod));
}

#[test]
fn warm_up_window() {
    let mut e = BacktestingEngine::new();
    let start = D1 * MS_PER_DAY;
    e.set_parameters("ETH.LOCAL", Interval::MINUTE, start, start + MS_PER_DAY, 0, 0, 1, 1, 0, BacktestingMode::BAR, 0, 240, 0)
        .unwrap();
    assert_eq!(e.load_bar_window(10, Interval::MINUTE), Ok((start - 10 * MS_PER_DAY, start - 60_000)));
    assert_eq!(e.load_bar_window(10, Interval::WEEKLY), Err(ConfigError::UnsupportedInterval));
    assert_eq!(e.load_bar_window(-1, Interval::DAILY), Err(ConfigError::InvalidPeriod));
}

#[test]
fn statistics_of_given_days() {
    let day = |date: i64, net: i128| DaySummary {
        date,
        close_price: 0,
        pre_close: 0,
        trade_count: 2,
        start_pos: 0,
        end_pos: 0,
        turnover: 10,
        commission: 1,
        slippage: 1,
        trading_pnl: 0,
        holding_pnl: 0,
        total_pnl: 0,
        net_pnl: net,
    };
    let days = vec![day(1, 50), day(2, -30), day(3, 0), day(5, -40), day(6, 100)];
    let (rows, st) = calculate_statistics(&days, 1_000).unwrap();
    let balances: Vec<i128> = rows.iter().map(|r| r.balance).collect();
    assert_eq!(balances, vec![1_050, 1_020, 1_020, 980, 1_080]);
    assert_eq!(rows[3].pre_balance, 1_020);
    assert_eq!(st.profit_days, 2);
    assert_eq!(st.loss_days, 2);
    assert_eq!(st.max_drawdown, -70);
    assert_eq!(st.max_drawdown_duration, 4);
    assert_eq!(st.max_ddpercent, -66_667);
    assert_eq!(st.total_commission, 5);
    assert_eq!(st.total_turnover, 50);
    assert_eq!(st.total_trade_count, 10);
    assert_eq!(st.start_date, 1);
    assert_eq!(st.end_date, 6);
}

#[test]
fn order_ids_as_text() {
    assert_eq!(OrderRef::Limit(7).vt_orderid(), "BACKTESTING.7");
    assert_eq!(OrderRef::Stop(2).vt_orderid(), "STOP.2");
    assert_eq!(OrderRef::from_vt_orderid("STOP.2"), Some(OrderRef::Stop(2)));
    assert_eq!(OrderRef::from_vt_orderid("BACKTESTING.7"), Some(OrderRef::Limit(7)));
    assert_eq!(OrderRef::from_vt_orderid("STOP."), None);
    assert_eq!(OrderRef::from_vt_orderid("OTHER.7"), None);
    for r in [OrderRef::Limit(1), OrderRef::Stop(99), OrderRef::Limit(u64::MAX)] {
        assert_eq!(OrderRef::from_vt_orderid(&r.vt_orderid()), Some(r));
    }
}

#[test]
fn cancel_by_id_text() {
    let mut e = engine(1, 10_000, BacktestingMode::BAR);
    let l = e.send_order(Direction::LONG, Offset::OPEN, 50, 1, false, false, false);
    assert_eq!(e.risk_free(), 0);
    let s = e.send_order(Direction::LONG, Offset::OPEN, 500, 1, true, false, false);
    assert_eq!(e.get_all_orders()[0].vt_orderid(), l[0].vt_orderid());
    assert_eq!(e.get_all_stop_orders()[0].vt_orderid(), "STOP.1");
    e.cancel_vt_order("nonsense");
    assert_eq!(e.get_all_orders()[0].status, Status::SUBMITTING);
    e.cancel_vt_order(&s[0].vt_orderid());
    assert_eq!(e.get_all_stop_orders()[0].status, StopOrderStatus::CANCELLED);
    assert_eq!(e.get_all_orders()[0].status, Status::SUBMITTING);
    e.cancel_vt_order("BACKTESTING.1");
    assert_eq!(e.get_all_orders()[0].status, Status::CANCELLED);
    assert_eq!(e.get_all_orders()[0].vt_symbol(), "ETH.LOCAL");
}

struct SendThenCancel {
    refs: Vec<OrderRef>,
    window: Option<Result<(i64, i64), ConfigError>>,
}

impl Strategy for SendThenCancel {
    fn on_init(&mut self, ctx: &mut StrategyContext) {
        self.window = Some(ctx.load_bar(2, Interval::DAILY));
    }
    fn on_start(&mut self, _ctx: &mut StrategyContext) {}
    fn on_stop(&mut self, _ctx: &mut StrategyContext) {}
    fn on_tick(&mut self, _ctx: &mut StrategyContext, _tick: &TickData) {}
    fn on_bar(&mut self, ctx: &mut StrategyContext, _bar: &BarData) {
        let r = ctx.send_order(Direction::LONG, Offset::OPEN, 1_000, 1, false, false, false);
        ctx.cancel_order(r[0]);
        self.refs.extend(r);
    }
    fn on_order(&mut self, _ctx: &mut StrategyContext, _order: &OrderData) {}
    fn on_trade(&mut self, _ctx: &mut StrategyContext, _trade: &TradeData) {}
    fn on_stop_order(&mut self, _ctx: &mut StrategyContext, _stop_order: &StopOrder) {}
}

#[test]
fn requests_made_in_one_call_apply_in_order() {
    let mut e = engine(1, 10_000, BacktestingMode::BAR);
    e.load_history(two_bars());
    let mut s = SendThenCancel { refs: Vec::new(), window: None };
    e.run_backtesting(&mut s);
    assert_eq!(s.refs, vec![OrderRef::Limit(1), OrderRef::Limit(2)]);
    assert!(e.get_all_orders().iter().all(|o| o.status == Status::CANCELLED));
    assert!(e.get_all_trades().is_empty());
    assert_eq!(s.window, Some(Ok(((D1 - 2) * MS_PER_DAY, (D1 - 1) * MS_PER_DAY))));
    assert_eq!(e.history_len(), 2);
}

#[test]
fn ratios_of_empty_run_are_zero() {
    let mut e = engine(1, 10_000, BacktestingMode::BAR);
    let mut s = Scripted::new(Action::Nothing, vec![]);
    e.run_backtesting(&mut s);
    let results = e.calculate_result().unwrap();
    let (_, st) = e.calculate_statistics(&results).unwrap();
    let r = ratios_of(&st, 240).unwrap();
    assert_eq!(r.total_return, 0);
    assert_eq!(r.daily_turnover, 0);
    assert!(e.get_daily_closes().is_empty());
}

#[test]
fn new_bar_reports_the_strategy_requests() {
    let mut e = engine(1, 10_000, BacktestingMode::BAR);
    let mut s = Scripted::new(Action::Nothing, vec![send(Direction::LONG, 120, false)]);
    let r = e.new_bar(&mut s, &bar(D1, 100, 110, 95, 105));
    assert_eq!(r.len(), 1);
    assert_eq!(e.get_active_order_ids(), &vec![1]);
    let r = e.new_bar(&mut s, &bar(D1 + 1, 108, 112, 106, 110));
    assert!(r.is_empty());
    assert_eq!(e.get_all_trades()[0].price, 108);
}

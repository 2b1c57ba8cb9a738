//! Per-day aggregation: the last close seen on each calendar day, and the
//! mark-to-market profit and loss of each day.
use crate::object::{day_of, signed_volume, sum_signed, TradeData};
use vstd::prelude::*;

verus! {

/// The last close observed on calendar day `date` (days since 1970-01-01).
#[derive(Clone, Copy, Debug, PartialEq, Eq, Structural)]
pub struct DailyClose {
    pub date: i64,
    pub close_price: i64,
}

/// Days strictly ascending, so each day appears once.
pub open spec fn closes_sorted(s: Seq<DailyClose>) -> bool {
    forall|a: int, b: int| 0 <= a < b < s.len() ==> s[a].date < s[b].date
}

pub open spec fn has_day(s: Seq<DailyClose>, d: int) -> bool {
    exists|i: int| 0 <= i < s.len() && #[trigger] s[i].date == d
}

/// Records `price` as the close of day `d` in an ascending list of days: the
/// day's entry is overwritten if present, else inserted in its place.
pub open spec fn upsert_close(s: Seq<DailyClose>, d: i64, price: i64) -> Seq<DailyClose>
    decreases s.len(),
{
    if s.len() == 0 {
        seq![DailyClose { date: d, close_price: price }]
    } else if s.last().date == d {
        s.update(s.len() - 1, DailyClose { date: d, close_price: price })
    } else if s.last().date < d {
        s.push(DailyClose { date: d, close_price: price })
    } else {
        upsert_close(s.drop_last(), d, price).push(s.last())
    }
}

/// Where the scan from the end stops: `upsert_close` then changes the list at `k`.
proof fn lemma_upsert_at(s: Seq<DailyClose>, d: i64, price: i64, k: int)
    requires
        closes_sorted(s),
        0 <= k <= s.len(),
        forall|m: int| k <= m < s.len() ==> s[m].date > d,
        k > 0 ==> s[k - 1].date <= d,
    ensures
        upsert_close(s, d, price) == if k > 0 && s[k - 1].date == d {
            s.update(k - 1, DailyClose { date: d, close_price: price })
        } else {
            s.insert(k, DailyClose { date: d, close_price: price })
        },
    decreases s.len(),
{
    let dc = DailyClose { date: d, close_price: price };
    if s.len() == 0 {
        assert(s.insert(0, dc) =~= seq![dc]);
    } else if k == s.len() {
        if s.last().date < d {
            assert(s.insert(k, dc) =~= s.push(dc));
        }
    } else {
        let t = s.drop_last();
        assert(closes_sorted(t));
        lemma_upsert_at(t, d, price, k);
        if k > 0 && s[k - 1].date == d {
            assert(t.update(k - 1, dc).push(s.last()) =~= s.update(k - 1, dc));
        } else {
            assert(t.insert(k, dc).push(s.last()) =~= s.insert(k, dc));
        }
    }
}

/// Upserting a day keeps the days ascending and adds exactly that day.
pub proof fn lemma_upsert_days(s: Seq<DailyClose>, d: i64, price: i64)
    requires
        closes_sorted(s),
    ensures
        closes_sorted(upsert_close(s, d, price)),
        forall|x: int| #[trigger] has_day(upsert_close(s, d, price), x) <==> (has_day(s, x) || x == d),
    decreases s.len(),
{
    let u = upsert_close(s, d, price);
    let dc = DailyClose { date: d, close_price: price };
    if s.len() == 0 {
        assert(u[0] == dc);
        assert(u =~= seq![dc]);
        assert forall|x: int| has_day(u, x) <==> (has_day(s, x) || x == d) by {
            if has_day(u, x) {
                let i = choose|i: int| 0 <= i < u.len() && u[i].date == x;
                assert(i == 0);
            }
            if x == d {
                assert(u[0].date == x);
            }
        }
    } else if s.last().date == d {
        assert forall|x: int| has_day(u, x) <==> (has_day(s, x) || x == d) by {
            if has_day(s, x) {
                let i = choose|i: int| 0 <= i < s.len() && s[i].date == x;
                if i == s.len() - 1 {
                    assert(u[i].date == x);
                } else {
                    assert(u[i] == s[i]);
                }
            }
            if x == d {
                assert(u[s.len() - 1].date == x);
            }
            if has_day(u, x) {
                let i = choose|i: int| 0 <= i < u.len() && u[i].date == x;
                if i != s.len() - 1 {
                    assert(u[i] == s[i]);
                }
            }
        }
    } else if s.last().date < d {
        assert forall|x: int| has_day(u, x) <==> (has_day(s, x) || x == d) by {
            if has_day(s, x) {
                let i = choose|i: int| 0 <= i < s.len() && s[i].date == x;
                assert(u[i] == s[i]);
            }
            if x == d {
                assert(u[s.len() as int].date == x);
            }
            if has_day(u, x) {
                let i = choose|i: int| 0 <= i < u.len() && u[i].date == x;
                if i < s.len() {
                    assert(u[i] == s[i]);
                }
            }
        }
    } else {
        let t = s.drop_last();
        lemma_upsert_days(t, d, price);
        let ut = upsert_close(t, d, price);
        assert(has_day(ut, d as int));
        assert forall|a: int, b: int| 0 <= a < b < u.len() implies u[a].date < u[b].date by {
            if b == u.len() - 1 {
                assert(u[b] == s.last());
                assert(has_day(t, u[a].date as int) || u[a].date == d) by {
                    assert(ut[a] == u[a]);
                    assert(has_day(ut, u[a].date as int));
                }
                if u[a].date != d {
                    let i = choose|i: int| 0 <= i < t.len() && t[i].date == u[a].date;
                    assert(s[i] == t[i]);
                }
            } else {
                assert(ut[a] == u[a] && ut[b] == u[b]);
            }
        }
        assert forall|x: int| has_day(u, x) <==> (has_day(s, x) || x == d) by {
            if has_day(s, x) {
                let i = choose|i: int| 0 <= i < s.len() && s[i].date == x;
                if i == s.len() - 1 {
                    assert(u[u.len() - 1].date == x);
                } else {
                    assert(t[i].date == x);
                    assert(has_day(ut, x));
                    let w = choose|w: int| 0 <= w < ut.len() && ut[w].date == x;
                    assert(u[w].date == x);
                }
            }
            if x == d {
                let w = choose|w: int| 0 <= w < ut.len() && ut[w].date == x;
                assert(u[w].date == x);
            }
            if has_day(u, x) {
                let i = choose|i: int| 0 <= i < u.len() && u[i].date == x;
                if i < ut.len() {
                    assert(ut[i].date == x);
                    assert(has_day(ut, x));
                    if x != d {
                        let w = choose|w: int| 0 <= w < t.len() && t[w].date == x;
                        assert(s[w].date == x);
                    }
                } else {
                    assert(s[s.len() - 1].date == x);
                }
            }
        }
    }
}

/// Records `price` as the close of day `d`.
pub fn upsert_daily_close(closes: &mut Vec<DailyClose>, d: i64, price: i64)
    requires
        closes_sorted(old(closes)@),
    ensures
        final(closes)@ == upsert_close(old(closes)@, d, price),
        closes_sorted(final(closes)@),
        forall|x: int| has_day(final(closes)@, x) <==> (has_day(old(closes)@, x) || x == d),
{
    let ghost s = closes@;
    let mut k: usize = closes.len();
    while k > 0 && closes[k - 1].date > d
        invariant
            closes@ == s,
            k <= s.len(),
            forall|m: int| k <= m < s.len() ==> s[m].date > d,
        decreases k,
    {
        k -= 1;
    }
    proof {
        lemma_upsert_at(s, d, price, k as int);
        lemma_upsert_days(s, d, price);
    }
    let dc = DailyClose { date: d, close_price: price };
    if k > 0 && closes[k - 1].date == d {
        closes.set(k - 1, dc);
    } else {
        closes.insert(k, dc);
    }
}


/// A commission rate is given in parts per hundred million of turnover.
pub const RATE_SCALE: i64 = 100_000_000;

pub open spec fn in_i128(x: int) -> bool {
    i128::MIN <= x <= i128::MAX
}

/// Division rounding towards the past, for a positive divisor.
pub fn floor_div(x: i128, d: i128) -> (r: i128)
    requires
        d > 0,
    ensures
        r == x / d,
{
    if x >= 0 {
        let q = x / d;
        proof {
            vstd::arithmetic::div_mod::lemma_fundamental_div_mod(x as int, d as int);
        }
        q
    } else {
        let y: i128 = -(x + 1);
        let q = y / d;
        let m = y % d;
        assert(y == q * d + m) by (nonlinear_arith)
            requires
                q == y / d,
                m == y % d,
                d > 0,
                y >= 0,
        ;
        assert(0 <= q <= y) by (nonlinear_arith)
            requires
                y == q * d + m,
                0 <= m < d,
                d > 0,
                y >= 0,
        ;
        assert(x == (-q - 1) * d + (d - 1 - m)) by (nonlinear_arith)
            requires
                y == q * d + m,
                y == -(x + 1),
        ;
        proof {
            vstd::arithmetic::div_mod::lemma_fundamental_div_mod_converse(
                x as int,
                d as int,
                -q - 1,
                d - 1 - m,
            );
        }
        -q - 1
    }
}

/// What one trade adds to its day: position change, turnover, commission,
/// slippage and trading profit; `None` when an intermediate amount does not
/// fit in 128 bits.
pub open spec fn trade_terms(
    t: TradeData,
    close: int,
    size: int,
    rate: int,
    slippage: int,
) -> Option<(int, int, int, int, int)> {
    let vs = t.volume * size;
    let turnover = vs * t.price;
    let gross = turnover * rate;
    let slip = vs * slippage;
    let change = signed_volume(t);
    let gain = change * (close - t.price);
    let pnl = gain * size;
    if in_i128(turnover) && in_i128(gross) && in_i128(slip) && in_i128(gain) && in_i128(pnl) {
        Some((change, turnover, gross / (RATE_SCALE as int), slip, pnl))
    } else {
        None
    }
}

/// The running totals after the first `k` trades of a day, starting from
/// position `start_pos`: end position, turnover, commission, slippage and
/// trading profit. `None` once an amount does not fit in 128 bits.
pub open spec fn day_totals(
    trades: Seq<TradeData>,
    k: int,
    start_pos: int,
    close: int,
    size: int,
    rate: int,
    slippage: int,
) -> Option<(int, int, int, int, int)>
    decreases k,
{
    if k <= 0 {
        Some((start_pos, 0, 0, 0, 0))
    } else {
        match day_totals(trades, k - 1, start_pos, close, size, rate, slippage) {
            None => None,
            Some(a) => match trade_terms(trades[k - 1], close, size, rate, slippage) {
                None => None,
                Some(x) => {
                    let s = (a.0 + x.0, a.1 + x.1, a.2 + x.2, a.3 + x.3, a.4 + x.4);
                    if in_i128(s.0) && in_i128(s.1) && in_i128(s.2) && in_i128(s.3) && in_i128(s.4) {
                        Some(s)
                    } else {
                        None
                    }
                },
            },
        }
    }
}

/// The close of the previous day as the day's P&L uses it: a missing (zero)
/// previous close counts as one price unit.
pub open spec fn effective_pre_close(pre_close: int) -> int {
    if pre_close != 0 {
        pre_close
    } else {
        1
    }
}

/// The mark-to-market figures of one day, all amounts exact.
#[derive(Clone, Copy, Debug, PartialEq, Eq, Structural)]
pub struct DaySummary {
    pub date: i64,
    pub close_price: i64,
    pub pre_close: i64,
    pub trade_count: u64,
    pub start_pos: i128,
    pub end_pos: i128,
    pub turnover: i128,
    pub commission: i128,
    pub slippage: i128,
    pub trading_pnl: i128,
    pub holding_pnl: i128,
    pub total_pnl: i128,
    pub net_pnl: i128,
}

/// The day's figures: holding P&L on the opening position, trading P&L of the
/// day's trades against the close, costs, and the totals; `None` when an
/// amount does not fit in 128 bits.
pub open spec fn day_summary(
    date: i64,
    close: i64,
    trades: Seq<TradeData>,
    pre_close: i64,
    start_pos: int,
    size: int,
    rate: int,
    slippage: int,
) -> Option<DaySummary> {
    let pre = effective_pre_close(pre_close as int);
    let hold1 = start_pos * (close - pre);
    let holding = hold1 * size;
    match day_totals(trades, trades.len() as int, start_pos, close as int, size, rate, slippage) {
        None => None,
        Some(a) => {
            let total = a.4 + holding;
            let net1 = total - a.2;
            let net = net1 - a.3;
            if in_i128(start_pos) && in_i128(hold1) && in_i128(holding) && in_i128(total) && in_i128(net1)
                && in_i128(net) && trades.len() <= u64::MAX {
                Some(
                    DaySummary {
                        date,
                        close_price: close,
                        pre_close: pre as i64,
                        trade_count: trades.len() as u64,
                        start_pos: start_pos as i128,
                        end_pos: a.0 as i128,
                        turnover: a.1 as i128,
                        commission: a.2 as i128,
                        slippage: a.3 as i128,
                        trading_pnl: a.4 as i128,
                        holding_pnl: holding as i128,
                        total_pnl: total as i128,
                        net_pnl: net as i128,
                    },
                )
            } else {
                None
            }
        },
    }
}

/// One calendar day of a backtest: its close, its trades, and once computed,
/// its P&L.
#[derive(Debug)]
pub struct DailyResult {
    pub date: i64,
    pub close_price: i64,
    pub pre_close: i64,
    pub trades: Vec<TradeData>,
    pub trade_count: u64,
    pub start_pos: i128,
    pub end_pos: i128,
    pub turnover: i128,
    pub commission: i128,
    pub slippage: i128,
    pub trading_pnl: i128,
    pub holding_pnl: i128,
    pub total_pnl: i128,
    pub net_pnl: i128,
}

impl DailyResult {
    /// The figures of the day, without its trades.
    pub open spec fn summary(&self) -> DaySummary {
        DaySummary {
            date: self.date,
            close_price: self.close_price,
            pre_close: self.pre_close,
            trade_count: self.trade_count,
            start_pos: self.start_pos,
            end_pos: self.end_pos,
            turnover: self.turnover,
            commission: self.commission,
            slippage: self.slippage,
            trading_pnl: self.trading_pnl,
            holding_pnl: self.holding_pnl,
            total_pnl: self.total_pnl,
            net_pnl: self.net_pnl,
        }
    }

    pub fn to_summary(&self) -> (r: DaySummary)
        ensures
            r == self.summary(),
    {
        DaySummary {
            date: self.date,
            close_price: self.close_price,
            pre_close: self.pre_close,
            trade_count: self.trade_count,
            start_pos: self.start_pos,
            end_pos: self.end_pos,
            turnover: self.turnover,
            commission: self.commission,
            slippage: self.slippage,
            trading_pnl: self.trading_pnl,
            holding_pnl: self.holding_pnl,
            total_pnl: self.total_pnl,
            net_pnl: self.net_pnl,
        }
    }

    /// A day with its close and nothing else yet.
    pub fn new(date: i64, close_price: i64) -> (r: Self)
        ensures
            r.date == date,
            r.close_price == close_price,
            r.trades@ == Seq::<TradeData>::empty(),
            r.pre_close == 0,
            r.trade_count == 0,
            r.start_pos == 0 && r.end_pos == 0,
            r.turnover == 0 && r.commission == 0 && r.slippage == 0,
            r.trading_pnl == 0 && r.holding_pnl == 0 && r.total_pnl == 0 && r.net_pnl == 0,
    {
        DailyResult {
            date,
            close_price,
            pre_close: 0,
            trades: Vec::new(),
            trade_count: 0,
            start_pos: 0,
            end_pos: 0,
            turnover: 0,
            commission: 0,
            slippage: 0,
            trading_pnl: 0,
            holding_pnl: 0,
            total_pnl: 0,
            net_pnl: 0,
        }
    }

    pub fn add_trade(&mut self, trade: TradeData)
        ensures
            final(self).trades@ == old(self).trades@.push(trade),
            final(self).summary() == old(self).summary(),
    {
        self.trades.push(trade)
    }

    /// Computes the day's P&L from the previous close and the opening position.
    /// Returns whether every amount fits in 128 bits; only then are the figures set.
    pub fn calculate_pnl(
        &mut self,
        pre_close: i64,
        start_pos: i128,
        size: i64,
        rate: i64,
        slippage: i64,
    ) -> (r: bool)
        ensures
            final(self).trades@ == old(self).trades@,
            final(self).date == old(self).date,
            final(self).close_price == old(self).close_price,
            r == day_summary(
                old(self).date,
                old(self).close_price,
                old(self).trades@,
                pre_close,
                start_pos as int,
                size as int,
                rate as int,
                slippage as int,
            ) is Some,
            r ==> Some(final(self).summary()) == day_summary(
                old(self).date,
                old(self).close_price,
                old(self).trades@,
                pre_close,
                start_pos as int,
                size as int,
                rate as int,
                slippage as int,
            ),
    {
        let ghost trades = self.trades@;
        let close: i128 = self.close_price as i128;
        let sz: i128 = size as i128;
        let rt: i128 = rate as i128;
        let sl: i128 = slippage as i128;
        let n = self.trades.len();
        let mut end_pos: i128 = start_pos;
        let mut turnover: i128 = 0;
        let mut commission: i128 = 0;
        let mut slip_total: i128 = 0;
        let mut trading: i128 = 0;
        let mut k: usize = 0;
        while k < n
            invariant
                n == trades.len(),
                self.trades@ == trades,
                close == self.close_price,
                sz == size,
                rt == rate,
                sl == slippage,
                k <= n,
                day_totals(trades, k as int, start_pos as int, close as int, size as int, rate as int, slippage as int)
                    == Some((end_pos as int, turnover as int, commission as int, slip_total as int, trading as int)),
            decreases n - k,
        {
            let t = &self.trades[k];
            let v: i128 = t.volume as i128;
            let price: i128 = t.price as i128;
            assert(-0x8000_0000_0000_0000 * 0x8000_0000_0000_0000 <= v * sz <= 0x8000_0000_0000_0000 * 0x8000_0000_0000_0000) by (nonlinear_arith)
                requires
                    -0x8000_0000_0000_0000 <= v < 0x8000_0000_0000_0000,
                    -0x8000_0000_0000_0000 <= sz < 0x8000_0000_0000_0000,
            ;
            let vs: i128 = v * sz;
            let change: i128 = if t.direction == crate::constant::Direction::LONG {
                v
            } else {
                -v
            };
            let diff: i128 = close - price;
            let t_turnover = vs.checked_mul(price);
            let t_gross = match t_turnover {
                Some(x) => x.checked_mul(rt),
                None => None,
            };
            let t_slip = vs.checked_mul(sl);
            let t_gain = change.checked_mul(diff);
            let t_pnl = match t_gain {
                Some(x) => x.checked_mul(sz),
                None => None,
            };
            if t_turnover.is_none() || t_gross.is_none() || t_slip.is_none() || t_gain.is_none()
                || t_pnl.is_none() {
                proof {
                    assert(trade_terms(trades[k as int], close as int, size as int, rate as int, slippage as int) is None);
                    lemma_day_totals_stays_none(trades, k as int + 1, n as int, start_pos as int, close as int, size as int, rate as int, slippage as int);
                }
                return false;
            }
            let t_comm = floor_div(t_gross.unwrap(), RATE_SCALE as i128);
            let n_end = end_pos.checked_add(change);
            let n_turn = turnover.checked_add(t_turnover.unwrap());
            let n_comm = commission.checked_add(t_comm);
            let n_slip = slip_total.checked_add(t_slip.unwrap());
            let n_trad = trading.checked_add(t_pnl.unwrap());
            if n_end.is_none() || n_turn.is_none() || n_comm.is_none() || n_slip.is_none()
                || n_trad.is_none() {
                proof {
                    lemma_day_totals_stays_none(trades, k as int + 1, n as int, start_pos as int, close as int, size as int, rate as int, slippage as int);
                }
                return false;
            }
            end_pos = n_end.unwrap();
            turnover = n_turn.unwrap();
            commission = n_comm.unwrap();
            slip_total = n_slip.unwrap();
            trading = n_trad.unwrap();
            k += 1;
        }
        let pre: i64 = if pre_close != 0 {
            pre_close
        } else {
            1
        };
        let hold1 = start_pos.checked_mul(close - pre as i128);
        let holding = match hold1 {
            Some(x) => x.checked_mul(sz),
            None => None,
        };
        let total = match holding {
            Some(h) => trading.checked_add(h),
            None => None,
        };
        let net1 = match total {
            Some(x) => x.checked_sub(commission),
            None => None,
        };
        let net = match net1 {
            Some(x) => x.checked_sub(slip_total),
            None => None,
        };
        if net.is_none() {
            return false;
        }
        self.pre_close = pre;
        self.start_pos = start_pos;
        self.end_pos = end_pos;
        self.trade_count = n as u64;
        self.turnover = turnover;
        self.commission = commission;
        self.slippage = slip_total;
        self.trading_pnl = trading;
        self.holding_pnl = holding.unwrap();
        self.total_pnl = total.unwrap();
        self.net_pnl = net.unwrap();
        true
    }
}

/// Once the running totals overflow, they stay overflowed.
proof fn lemma_day_totals_stays_none(
    trades: Seq<TradeData>,
    k: int,
    n: int,
    start_pos: int,
    close: int,
    size: int,
    rate: int,
    slippage: int,
)
    requires
        1 <= k <= n,
        day_totals(trades, k, start_pos, close, size, rate, slippage) is None,
    ensures
        day_totals(trades, n, start_pos, close, size, rate, slippage) is None,
    decreases n - k,
{
    if k < n {
        lemma_day_totals_stays_none(trades, k + 1, n, start_pos, close, size, rate, slippage);
    }
}


/// The trades of calendar day `d`, in trade order.
pub open spec fn day_trades(trades: Seq<TradeData>, d: int) -> Seq<TradeData> {
    trades.filter(|t: TradeData| day_of(t.datetime as int) == d)
}

/// The figures of the first `k` days, in date order: each day opens with the
/// previous day's close and closing position (none and flat for the first).
/// `None` when an amount of some day does not fit in 128 bits.
pub open spec fn results_fold(
    closes: Seq<DailyClose>,
    trades: Seq<TradeData>,
    k: int,
    size: int,
    rate: int,
    slippage: int,
) -> Option<Seq<DaySummary>>
    decreases k,
{
    if k <= 0 {
        Some(Seq::<DaySummary>::empty())
    } else {
        match results_fold(closes, trades, k - 1, size, rate, slippage) {
            None => None,
            Some(prev) => {
                let c = closes[k - 1];
                let pre = if k == 1 {
                    0i64
                } else {
                    closes[k - 2].close_price
                };
                let start = if k == 1 {
                    0
                } else {
                    prev.last().end_pos as int
                };
                match day_summary(
                    c.date,
                    c.close_price,
                    day_trades(trades, c.date as int),
                    pre,
                    start,
                    size,
                    rate,
                    slippage,
                ) {
                    None => None,
                    Some(d) => Some(prev.push(d)),
                }
            },
        }
    }
}

/// Once some day overflows, every longer run of days does too.
pub proof fn lemma_results_fold_stays_none(
    closes: Seq<DailyClose>,
    trades: Seq<TradeData>,
    k: int,
    n: int,
    size: int,
    rate: int,
    slippage: int,
)
    requires
        1 <= k <= n,
        results_fold(closes, trades, k, size, rate, slippage) is None,
    ensures
        results_fold(closes, trades, n, size, rate, slippage) is None,
    decreases n - k,
{
    if k < n {
        lemma_results_fold_stays_none(closes, trades, k + 1, n, size, rate, slippage);
    }
}

/// Builds the daily results: each day gets its trades, then its P&L from the
/// previous day's close and closing position. `None` when some amount does not
/// fit in 128 bits.
pub fn build_daily_results(
    closes: &Vec<DailyClose>,
    trades: &Vec<TradeData>,
    size: i64,
    rate: i64,
    slippage: i64,
) -> (r: Option<Vec<DailyResult>>)
    ensures
        r is None <==> results_fold(closes@, trades@, closes@.len() as int, size as int, rate as int, slippage as int) is None,
        r matches Some(v) ==> results_fold(closes@, trades@, closes@.len() as int, size as int, rate as int, slippage as int)
            == Some(v@.map_values(|d: DailyResult| d.summary())),
        r matches Some(v) ==> v@.len() == closes@.len() && forall|i: int| 0 <= i < v@.len() ==> (#[trigger] v@[i]).trades@
            == day_trades(trades@, closes@[i].date as int),
        r matches Some(v) ==> forall|i: int| 0 <= i < v@.len() ==> (#[trigger] v@[i]).date == closes@[i].date,
{
    let mut results: Vec<DailyResult> = Vec::new();
    let mut pre_close: i64 = 0;
    let mut start_pos: i128 = 0;
    let nd = closes.len();
    let nt = trades.len();
    let mut i: usize = 0;
    while i < nd
        invariant
            nd == closes@.len(),
            nt == trades@.len(),
            i <= nd,
            results@.len() == i,
            results_fold(closes@, trades@, i as int, size as int, rate as int, slippage as int)
                == Some(results@.map_values(|d: DailyResult| d.summary())),
            i == 0 ==> pre_close == 0 && start_pos == 0,
            i > 0 ==> pre_close == closes@[i - 1].close_price && start_pos == results@[i - 1].end_pos,
            forall|m: int| 0 <= m < i ==> (#[trigger] results@[m]).trades@ == day_trades(trades@, closes@[m].date as int),
            forall|m: int| 0 <= m < i ==> (#[trigger] results@[m]).date == closes@[m].date,
        decreases nd - i,
    {
        let d = closes[i].date;
        let mut dr = DailyResult::new(d, closes[i].close_price);
        let mut j: usize = 0;
        proof {
            reveal(Seq::filter);
            assert(trades@.take(0) =~= Seq::<TradeData>::empty());
        }
        while j < nt
            invariant
                nt == trades@.len(),
                j <= nt,
                dr.date == d,
                dr.close_price == closes@[i as int].close_price,
                d == closes@[i as int].date,
                i < nd,
                nd == closes@.len(),
                dr.trades@ == day_trades(trades@.take(j as int), d as int),
            decreases nt - j,
        {
            let ghost tk = trades@.take(j as int + 1);
            proof {
                reveal(Seq::filter);
            }
            assert(tk.drop_last() =~= trades@.take(j as int));
            assert(tk.last() == trades@[j as int]);
            assert(day_trades(tk, d as int) == if day_of(trades@[j as int].datetime as int) == d {
                day_trades(trades@.take(j as int), d as int).push(trades@[j as int])
            } else {
                day_trades(trades@.take(j as int), d as int)
            });
            if date_of_trade(&trades[j]) == d {
                dr.add_trade(trades[j].duplicate());
            }
            j += 1;
        }
        assert(trades@.take(nt as int) =~= trades@);
        let ghost prev = results@.map_values(|x: DailyResult| x.summary());
        let ghost old_results = results@;
        let ok = dr.calculate_pnl(pre_close, start_pos, size, rate, slippage);
        if !ok {
            proof {
                lemma_results_fold_stays_none(closes@, trades@, i as int + 1, nd as int, size as int, rate as int, slippage as int);
            }
            return None;
        }
        pre_close = dr.close_price;
        start_pos = dr.end_pos;
        results.push(dr);
        proof {
            assert(results@.map_values(|x: DailyResult| x.summary()) =~= prev.push(results@[i as int].summary()));
            assert forall|m: int| 0 <= m < i + 1 implies (#[trigger] results@[m]).trades@ == day_trades(trades@, closes@[m].date as int) by {
                if m < i {
                    assert(results@[m] == old_results[m]);
                }
            }
            assert forall|m: int| 0 <= m < i + 1 implies (#[trigger] results@[m]).date == closes@[m].date by {
                if m < i {
                    assert(results@[m] == old_results[m]);
                }
            }
            if i > 0 {
                assert(prev.last() == old_results[i - 1].summary());
            }
        }
        i += 1;
    }
    Some(results)
}

/// The calendar day of a trade.
fn date_of_trade(t: &TradeData) -> (r: i64)
    ensures
        r == day_of(t.datetime as int),
{
    crate::object::date_of(t.datetime)
}


/// Net position change of the trades of the first `k` days.
pub open spec fn days_sum(closes: Seq<DailyClose>, trades: Seq<TradeData>, k: int) -> int
    decreases k,
{
    if k <= 0 {
        0
    } else {
        days_sum(closes, trades, k - 1) + sum_signed(day_trades(trades, closes[k - 1].date as int))
    }
}

proof fn lemma_sum_signed_push(trades: Seq<TradeData>, t: TradeData)
    ensures
        sum_signed(trades.push(t)) == sum_signed(trades) + signed_volume(t),
{
    assert(trades.push(t).drop_last() =~= trades);
}

/// The running position of a day's totals is its opening position plus the
/// signed volume of the trades counted so far.
proof fn lemma_day_totals_position(
    trades: Seq<TradeData>,
    k: int,
    start_pos: int,
    close: int,
    size: int,
    rate: int,
    slippage: int,
)
    requires
        0 <= k <= trades.len(),
        day_totals(trades, k, start_pos, close, size, rate, slippage) is Some,
    ensures
        (day_totals(trades, k, start_pos, close, size, rate, slippage)->0).0 == start_pos + sum_signed(trades.take(k)),
    decreases k,
{
    if k == 0 {
        assert(trades.take(0) =~= Seq::<TradeData>::empty());
    } else {
        lemma_day_totals_position(trades, k - 1, start_pos, close, size, rate, slippage);
        assert(trades.take(k).drop_last() =~= trades.take(k - 1));
        assert(trades.take(k).last() == trades[k - 1]);
    }
}

/// The closing position of each day is the signed volume of the trades of it
/// and all earlier days.
proof fn lemma_results_fold_position(
    closes: Seq<DailyClose>,
    trades: Seq<TradeData>,
    k: int,
    size: int,
    rate: int,
    slippage: int,
)
    requires
        0 <= k <= closes.len(),
        results_fold(closes, trades, k, size, rate, slippage) is Some,
    ensures
        ({
            let v = results_fold(closes, trades, k, size, rate, slippage)->0;
            &&& v.len() == k
            &&& forall|i: int| 0 <= i < k ==> (#[trigger] v[i]).end_pos == days_sum(closes, trades, i + 1)
        }),
    decreases k,
{
    if k > 0 {
        lemma_results_fold_position(closes, trades, k - 1, size, rate, slippage);
        let prev = results_fold(closes, trades, k - 1, size, rate, slippage)->0;
        let c = closes[k - 1];
        let dt = day_trades(trades, c.date as int);
        let start = if k == 1 {
            0
        } else {
            prev.last().end_pos as int
        };
        let pre = if k == 1 {
            0i64
        } else {
            closes[k - 2].close_price
        };
        lemma_day_totals_position(dt, dt.len() as int, start, c.close_price as int, size, rate, slippage);
        assert(dt.take(dt.len() as int) =~= dt);
        let d = day_summary(c.date, c.close_price, dt, pre, start, size, rate, slippage)->0;
        let v = results_fold(closes, trades, k, size, rate, slippage)->0;
        assert(v == prev.push(d));
        if k > 1 {
            assert(prev.last() == prev[k - 2]);
        }
        assert(start == days_sum(closes, trades, k - 1));
        assert(d.end_pos == start + sum_signed(dt));
        assert forall|i: int| 0 <= i < k implies (#[trigger] v[i]).end_pos == days_sum(closes, trades, i + 1) by {
            if i < k - 1 {
                assert(v[i] == prev[i]);
            }
        }
    }
}

/// Adding a trade on a recorded day adds its signed volume to the sum over days.
proof fn lemma_days_sum_push(closes: Seq<DailyClose>, trades: Seq<TradeData>, t: TradeData, m: int)
    requires
        closes_sorted(closes),
        0 <= m <= closes.len(),
    ensures
        days_sum(closes, trades.push(t), m) == days_sum(closes, trades, m) + if exists|j: int|
            0 <= j < m && #[trigger] closes[j].date == day_of(t.datetime as int) {
            signed_volume(t)
        } else {
            0
        },
    decreases m,
{
    reveal(Seq::filter);
    if m > 0 {
        lemma_days_sum_push(closes, trades, t, m - 1);
        let d = closes[m - 1].date as int;
        let f = |x: TradeData| day_of(x.datetime as int) == d;
        assert(trades.push(t).drop_last() =~= trades);
        if day_of(t.datetime as int) == d {
            lemma_sum_signed_push(trades.filter(f), t);
            assert(day_trades(trades.push(t), d) == day_trades(trades, d).push(t));
            assert(!exists|j: int| 0 <= j < m - 1 && #[trigger] closes[j].date == day_of(t.datetime as int));
            assert(closes[m - 1].date == day_of(t.datetime as int));
        } else {
            assert(day_trades(trades.push(t), d) == day_trades(trades, d));
            if exists|j: int| 0 <= j < m && #[trigger] closes[j].date == day_of(t.datetime as int) {
                let j = choose|j: int| 0 <= j < m && #[trigger] closes[j].date == day_of(t.datetime as int);
                assert(j < m - 1);
            }
        }
    }
}

/// When every trade falls on a recorded day, the days' position changes add up
/// to the signed volume of all trades.
proof fn lemma_days_sum_total(closes: Seq<DailyClose>, trades: Seq<TradeData>)
    requires
        closes_sorted(closes),
        forall|k: int| 0 <= k < trades.len() ==> has_day(closes, day_of((#[trigger] trades[k]).datetime as int)),
    ensures
        days_sum(closes, trades, closes.len() as int) == sum_signed(trades),
    decreases trades.len(),
{
    if trades.len() == 0 {
        assert forall|m: int| 0 <= m <= closes.len() implies days_sum(closes, trades, m) == 0 by {
            lemma_days_sum_empty(closes, trades, m);
        }
    } else {
        let init = trades.drop_last();
        let t = trades.last();
        assert forall|k: int| 0 <= k < init.len() implies has_day(closes, day_of((#[trigger] init[k]).datetime as int)) by {
            assert(init[k] == trades[k]);
        }
        lemma_days_sum_total(closes, init);
        assert(init.push(t) =~= trades);
        lemma_days_sum_push(closes, init, t, closes.len() as int);
        assert(has_day(closes, day_of(trades[trades.len() - 1].datetime as int)));
        let j = choose|j: int| 0 <= j < closes.len() && #[trigger] closes[j].date == day_of(t.datetime as int);
        assert(closes[j].date == day_of(t.datetime as int));
    }
}

proof fn lemma_days_sum_empty(closes: Seq<DailyClose>, trades: Seq<TradeData>, m: int)
    requires
        trades.len() == 0,
        0 <= m <= closes.len(),
    ensures
        days_sum(closes, trades, m) == 0,
    decreases m,
{
    reveal(Seq::filter);
    if m > 0 {
        lemma_days_sum_empty(closes, trades, m - 1);
        let d = closes[m - 1].date as int;
        assert(day_trades(trades, d).len() == 0);
    }
}

/// The closing position of the last day is the signed volume of all trades,
/// when every trade falls on a recorded day.
pub proof fn lemma_last_day_position(
    closes: Seq<DailyClose>,
    trades: Seq<TradeData>,
    size: int,
    rate: int,
    slippage: int,
)
    requires
        closes_sorted(closes),
        closes.len() > 0,
        forall|k: int| 0 <= k < trades.len() ==> has_day(closes, day_of((#[trigger] trades[k]).datetime as int)),
        results_fold(closes, trades, closes.len() as int, size, rate, slippage) is Some,
    ensures
        (results_fold(closes, trades, closes.len() as int, size, rate, slippage)->0).last().end_pos == sum_signed(trades),
{
    lemma_results_fold_position(closes, trades, closes.len() as int, size, rate, slippage);
    lemma_days_sum_total(closes, trades);
}

} // verus!

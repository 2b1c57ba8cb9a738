//! Portfolio statistics over the daily results: the balance curve, its
//! drawdowns, and the run's totals. Ratios that need real numbers (returns,
//! their deviation, Sharpe) are left to the caller; everything here is exact.
use crate::daily::{in_i128, DaySummary};
use vstd::prelude::*;

verus! {

/// Drawdown percentages are given in millionths of the high-water mark, that
/// is in units of 0.0001 %.
pub const DDPERCENT_SCALE: i128 = 1_000_000;

/// Net P&L of the first `k` days.
pub open spec fn net_sum(days: Seq<DaySummary>, k: int) -> int
    decreases k,
{
    if k <= 0 {
        0
    } else {
        net_sum(days, k - 1) + days[k - 1].net_pnl
    }
}

/// Balance at the close of day `i`: capital plus the net P&L of days `0..=i`.
pub open spec fn balance_at(days: Seq<DaySummary>, capital: int, i: int) -> int {
    capital + net_sum(days, i + 1)
}

/// Highest balance of days `0..=i`.
pub open spec fn highlevel_at(days: Seq<DaySummary>, capital: int, i: int) -> int
    decreases i,
{
    if i <= 0 {
        balance_at(days, capital, 0)
    } else {
        let h = highlevel_at(days, capital, i - 1);
        let b = balance_at(days, capital, i);
        if b > h {
            b
        } else {
            h
        }
    }
}

/// How far the balance of day `i` lies below the high-water mark.
pub open spec fn drawdown_at(days: Seq<DaySummary>, capital: int, i: int) -> int {
    balance_at(days, capital, i) - highlevel_at(days, capital, i)
}

/// The drawdown as a share of the high-water mark, in units of 0.0001 %,
/// rounded down; zero where the high-water mark is not positive.
pub open spec fn ddpercent_at(days: Seq<DaySummary>, capital: int, i: int) -> int {
    let h = highlevel_at(days, capital, i);
    if h > 0 {
        (drawdown_at(days, capital, i) * DDPERCENT_SCALE) / h
    } else {
        0
    }
}

/// One point of the balance curve.
#[derive(Clone, Copy, Debug, PartialEq, Eq, Structural)]
pub struct BalanceRow {
    pub date: i64,
    pub net_pnl: i128,
    pub balance: i128,
    pub pre_balance: i128,
    pub highlevel: i128,
    pub drawdown: i128,
    pub ddpercent: i128,
}

/// Every quantity of the curve up to day `i` fits in 128 bits.
pub open spec fn curve_fits(days: Seq<DaySummary>, capital: int, i: int) -> bool {
    forall|j: int|
        0 <= j <= i ==> in_i128(#[trigger] balance_at(days, capital, j)) && in_i128(
            drawdown_at(days, capital, j),
        ) && in_i128(drawdown_at(days, capital, j) * DDPERCENT_SCALE)
}

/// Row `i` of the curve is what the definitions above give.
pub open spec fn row_matches(r: BalanceRow, days: Seq<DaySummary>, capital: int, i: int) -> bool {
    &&& r.date == days[i].date
    &&& r.net_pnl == days[i].net_pnl
    &&& r.balance == balance_at(days, capital, i)
    &&& r.pre_balance == if i == 0 {
        capital
    } else {
        balance_at(days, capital, i - 1)
    }
    &&& r.highlevel == highlevel_at(days, capital, i)
    &&& r.drawdown == drawdown_at(days, capital, i)
    &&& r.ddpercent == ddpercent_at(days, capital, i)
}

/// The high-water mark never falls and is never below the balance.
pub proof fn lemma_highlevel_monotone(days: Seq<DaySummary>, capital: int, i: int, j: int)
    requires
        0 <= i <= j,
    ensures
        highlevel_at(days, capital, i) <= highlevel_at(days, capital, j),
        balance_at(days, capital, j) <= highlevel_at(days, capital, j),
    decreases j,
{
    if j > i {
        lemma_highlevel_monotone(days, capital, i, j - 1);
    }
}

/// Drawdowns are never positive, the high-water mark never falls, and while
/// the high-water mark is positive the drawdown percentage is never positive.
pub proof fn lemma_drawdown_law(days: Seq<DaySummary>, capital: int, i: int, j: int)
    requires
        0 <= i <= j,
    ensures
        highlevel_at(days, capital, i) <= highlevel_at(days, capital, j),
        drawdown_at(days, capital, i) <= 0,
        ddpercent_at(days, capital, i) <= 0,
{
    lemma_highlevel_monotone(days, capital, i, j);
    lemma_highlevel_monotone(days, capital, i, i);
    let h = highlevel_at(days, capital, i);
    let d = drawdown_at(days, capital, i);
    if h > 0 {
        assert(d * DDPERCENT_SCALE <= 0) by (nonlinear_arith)
            requires
                d <= 0,
        ;
        assert((d * DDPERCENT_SCALE) / h <= 0) by (nonlinear_arith)
            requires
                d * DDPERCENT_SCALE <= 0,
                h > 0,
        ;
    }
}

/// The curve: balance, previous balance, high-water mark, drawdown and
/// drawdown percentage of each day. `None` when one of them does not fit in
/// 128 bits.
pub fn balance_curve(days: &Vec<DaySummary>, capital: i64) -> (r: Option<Vec<BalanceRow>>)
    ensures
        r is Some <==> curve_fits(days@, capital as int, days@.len() - 1),
        r matches Some(v) ==> v@.len() == days@.len() && forall|i: int|
            0 <= i < v@.len() ==> row_matches(#[trigger] v@[i], days@, capital as int, i),
{
    let n = days.len();
    let mut rows: Vec<BalanceRow> = Vec::new();
    let mut balance: i128 = capital as i128;
    let mut high: i128 = 0;
    let mut i: usize = 0;
    while i < n
        invariant
            n == days@.len(),
            i <= n,
            rows@.len() == i,
            balance == capital + net_sum(days@, i as int),
            i > 0 ==> high == highlevel_at(days@, capital as int, i - 1),
            curve_fits(days@, capital as int, i - 1),
            forall|j: int| 0 <= j < i ==> row_matches(#[trigger] rows@[j], days@, capital as int, j),
        decreases n - i,
    {
        let ghost cap = capital as int;
        let pre_balance = balance;
        let next = balance.checked_add(days[i].net_pnl);
        if next.is_none() {
            assert(!in_i128(balance_at(days@, cap, i as int)));
            return None;
        }
        balance = next.unwrap();
        assert(balance == balance_at(days@, cap, i as int));
        if i == 0 || balance > high {
            high = balance;
        }
        assert(high == highlevel_at(days@, cap, i as int));
        let dd = balance.checked_sub(high);
        if dd.is_none() {
            assert(!in_i128(drawdown_at(days@, cap, i as int)));
            return None;
        }
        let dd = dd.unwrap();
        let scaled = dd.checked_mul(DDPERCENT_SCALE);
        if scaled.is_none() {
            return None;
        }
        let ddpercent = if high > 0 {
            crate::daily::floor_div(scaled.unwrap(), high)
        } else {
            0
        };
        rows.push(
            BalanceRow {
                date: days[i].date,
                net_pnl: days[i].net_pnl,
                balance,
                pre_balance,
                highlevel: high,
                drawdown: dd,
                ddpercent,
            },
        );
        proof {
            assert forall|j: int| 0 <= j < i + 1 implies row_matches(#[trigger] rows@[j], days@, cap, j) by {
                if j == i {
                    if i > 0 {
                        assert(pre_balance == balance_at(days@, cap, i - 1));
                    }
                }
            }
        }
        i += 1;
    }
    Some(rows)
}


/// A column of the daily results that the run totals.
#[derive(Clone, Copy, Debug, PartialEq, Eq, Structural)]
pub enum Column {
    NetPnl,
    Commission,
    Slippage,
    Turnover,
    TradeCount,
}

pub open spec fn column_value(d: DaySummary, c: Column) -> int {
    match c {
        Column::NetPnl => d.net_pnl as int,
        Column::Commission => d.commission as int,
        Column::Slippage => d.slippage as int,
        Column::Turnover => d.turnover as int,
        Column::TradeCount => d.trade_count as int,
    }
}

/// Sum of column `c` over the first `k` days.
pub open spec fn column_sum(days: Seq<DaySummary>, c: Column, k: int) -> int
    decreases k,
{
    if k <= 0 {
        0
    } else {
        column_sum(days, c, k - 1) + column_value(days[k - 1], c)
    }
}

/// Number of days among the first `k` whose net P&L is above zero (`profit`)
/// or below zero (otherwise).
pub open spec fn count_days_spec(days: Seq<DaySummary>, profit: bool, k: int) -> int
    decreases k,
{
    if k <= 0 {
        0
    } else {
        count_days_spec(days, profit, k - 1) + if (profit && days[k - 1].net_pnl > 0) || (!profit
            && days[k - 1].net_pnl < 0) {
            1int
        } else {
            0int
        }
    }
}

fn column_of(d: &DaySummary, c: Column) -> (r: i128)
    ensures
        r == column_value(*d, c),
{
    match c {
        Column::NetPnl => d.net_pnl,
        Column::Commission => d.commission,
        Column::Slippage => d.slippage,
        Column::Turnover => d.turnover,
        Column::TradeCount => d.trade_count as i128,
    }
}

/// Total of a column; `None` when a running total leaves 128 bits.
pub fn column_total(days: &Vec<DaySummary>, c: Column) -> (r: Option<i128>)
    ensures
        r matches Some(t) ==> t == column_sum(days@, c, days@.len() as int),
        r is None ==> exists|k: int| 0 < k <= days@.len() && !in_i128(#[trigger] column_sum(days@, c, k)),
{
    let n = days.len();
    let mut total: i128 = 0;
    let mut i: usize = 0;
    while i < n
        invariant
            n == days@.len(),
            i <= n,
            total == column_sum(days@, c, i as int),
        decreases n - i,
    {
        let next = total.checked_add(column_of(&days[i], c));
        if next.is_none() {
            assert(!in_i128(column_sum(days@, c, i + 1)));
            return None;
        }
        total = next.unwrap();
        i += 1;
    }
    Some(total)
}

/// Number of profitable (`profit`) or losing days.
pub fn count_days(days: &Vec<DaySummary>, profit: bool) -> (r: u64)
    ensures
        r == count_days_spec(days@, profit, days@.len() as int),
{
    let n = days.len();
    let mut count: u64 = 0;
    let mut i: usize = 0;
    while i < n
        invariant
            n == days@.len(),
            i <= n,
            count == count_days_spec(days@, profit, i as int),
            count <= i,
        decreases n - i,
    {
        if (profit && days[i].net_pnl > 0) || (!profit && days[i].net_pnl < 0) {
            count += 1;
        }
        i += 1;
    }
    count
}

/// The first day of deepest drawdown.
pub fn first_min_drawdown(rows: &Vec<BalanceRow>) -> (r: usize)
    requires
        rows@.len() > 0,
    ensures
        r < rows@.len(),
        forall|j: int| 0 <= j < rows@.len() ==> rows@[r as int].drawdown <= #[trigger] rows@[j].drawdown,
        forall|j: int| 0 <= j < r ==> #[trigger] rows@[j].drawdown > rows@[r as int].drawdown,
{
    let mut best: usize = 0;
    let mut i: usize = 1;
    while i < rows.len()
        invariant
            1 <= i <= rows@.len(),
            best < i,
            forall|j: int| 0 <= j < i ==> rows@[best as int].drawdown <= #[trigger] rows@[j].drawdown,
            forall|j: int| 0 <= j < best ==> #[trigger] rows@[j].drawdown > rows@[best as int].drawdown,
        decreases rows@.len() - i,
    {
        if rows[i].drawdown < rows[best].drawdown {
            best = i;
        }
        i += 1;
    }
    best
}

/// The first day of highest balance among days `0..=e`.
pub fn first_max_balance(rows: &Vec<BalanceRow>, e: usize) -> (r: usize)
    requires
        e < rows@.len(),
    ensures
        r <= e,
        forall|j: int| 0 <= j <= e ==> #[trigger] rows@[j].balance <= rows@[r as int].balance,
        forall|j: int| 0 <= j < r ==> #[trigger] rows@[j].balance < rows@[r as int].balance,
{
    let n = rows.len();
    let mut best: usize = 0;
    let mut i: usize = 1;
    while i <= e
        invariant
            1 <= i <= e + 1,
            e < rows@.len(),
            n == rows@.len(),
            best < i,
            forall|j: int| 0 <= j < i ==> #[trigger] rows@[j].balance <= rows@[best as int].balance,
            forall|j: int| 0 <= j < best ==> #[trigger] rows@[j].balance < rows@[best as int].balance,
        decreases e + 1 - i,
    {
        if rows[i].balance > rows[best].balance {
            best = i;
        }
        i += 1;
    }
    best
}

/// The lowest drawdown percentage of the curve.
pub fn min_ddpercent(rows: &Vec<BalanceRow>) -> (r: i128)
    requires
        rows@.len() > 0,
    ensures
        exists|m: int| 0 <= m < rows@.len() && r == #[trigger] rows@[m].ddpercent,
        forall|j: int| 0 <= j < rows@.len() ==> r <= #[trigger] rows@[j].ddpercent,
{
    let mut best: i128 = rows[0].ddpercent;
    let mut i: usize = 1;
    let ghost mut at: int = 0;
    while i < rows.len()
        invariant
            1 <= i <= rows@.len(),
            0 <= at < i,
            best == rows@[at].ddpercent,
            forall|j: int| 0 <= j < i ==> best <= #[trigger] rows@[j].ddpercent,
        decreases rows@.len() - i,
    {
        if rows[i].ddpercent < best {
            best = rows[i].ddpercent;
            proof {
                at = i as int;
            }
        }
        i += 1;
    }
    best
}

/// The scalar statistics of a run. When some balance is not positive (a
/// blow-up), or there are no days, every figure but the capital is zero.
#[derive(Clone, Copy, Debug, PartialEq, Eq, Structural)]
pub struct Statistics {
    pub start_date: i64,
    pub end_date: i64,
    pub total_days: u64,
    pub profit_days: u64,
    pub loss_days: u64,
    pub capital: i64,
    pub end_balance: i128,
    pub max_drawdown: i128,
    pub max_ddpercent: i128,
    pub max_drawdown_duration: i128,
    pub total_net_pnl: i128,
    pub total_commission: i128,
    pub total_slippage: i128,
    pub total_turnover: i128,
    pub total_trade_count: i128,
    pub positive_balance: bool,
}

/// Every balance of the curve is above zero.
pub open spec fn all_positive(days: Seq<DaySummary>, capital: int) -> bool {
    forall|j: int| 0 <= j < days.len() ==> #[trigger] balance_at(days, capital, j) > 0
}

/// The figures of a run with no days, or with a blow-up.
pub open spec fn zero_statistics(capital: i64, positive_balance: bool) -> Statistics {
    Statistics {
        start_date: 0,
        end_date: 0,
        total_days: 0,
        profit_days: 0,
        loss_days: 0,
        capital,
        end_balance: 0,
        max_drawdown: 0,
        max_ddpercent: 0,
        max_drawdown_duration: 0,
        total_net_pnl: 0,
        total_commission: 0,
        total_slippage: 0,
        total_turnover: 0,
        total_trade_count: 0,
        positive_balance,
    }
}

/// The balance curve and the run's statistics. `None` when an amount leaves
/// 128 bits.
/// What `calculate_statistics` returns for `days` and `capital`: the curve and
/// figures below whenever every amount fits in 128 bits, and `None` only when
/// one does not.
pub open spec fn statistics_spec(days: Seq<DaySummary>, capital: i64, r: Option<(Vec<BalanceRow>, Statistics)>) -> bool {
    &&& (curve_fits(days, capital as int, days.len() - 1) && (forall|c: Column, k: int|
        0 < k <= days.len() ==> in_i128(#[trigger] column_sum(days, c, k)))) ==> r is Some
    &&& (!curve_fits(days, capital as int, days.len() - 1) ==> r is None)
    &&& (r is None ==> !curve_fits(days, capital as int, days.len() - 1) || exists|c: Column, k: int|
            0 < k <= days.len() && !in_i128(#[trigger] column_sum(days, c, k)))
    &&& (r matches Some(p) ==> {
            let (rows, st) = p;
            let n = days.len() as int;
            let cap = capital as int;
            &&& rows@.len() == n
            &&& (forall|i: int| 0 <= i < n ==> row_matches(#[trigger] rows@[i], days, cap, i))
            &&& (forall|i: int, j: int| 0 <= i < j < n ==> rows@[i].highlevel <= rows@[j].highlevel)
            &&& (forall|i: int| 0 <= i < n ==> (#[trigger] rows@[i]).drawdown <= 0 && rows@[i].ddpercent <= 0)
            &&& st.positive_balance == all_positive(days, cap)
            &&& ((n == 0 || !st.positive_balance) ==> st == zero_statistics(capital, st.positive_balance))
            &&& ((n > 0 && st.positive_balance) ==> {
                &&& st.capital == capital
                &&& st.start_date == days[0].date
                &&& st.end_date == days[n - 1].date
                &&& st.total_days == n
                &&& st.profit_days == count_days_spec(days, true, n)
                &&& st.loss_days == count_days_spec(days, false, n)
                &&& st.end_balance == balance_at(days, cap, n - 1)
                &&& st.total_net_pnl == column_sum(days, Column::NetPnl, n)
                &&& st.total_net_pnl == st.end_balance - capital
                &&& st.total_commission == column_sum(days, Column::Commission, n)
                &&& st.total_slippage == column_sum(days, Column::Slippage, n)
                &&& st.total_turnover == column_sum(days, Column::Turnover, n)
                &&& st.total_trade_count == column_sum(days, Column::TradeCount, n)
                &&& st.max_drawdown <= 0
                &&& st.max_ddpercent <= 0
                &&& (forall|j: int| 0 <= j < n ==> st.max_drawdown <= #[trigger] drawdown_at(days, cap, j))
                &&& (exists|e: int| 0 <= e < n && st.max_drawdown == #[trigger] drawdown_at(days, cap, e))
                &&& (forall|j: int| 0 <= j < n ==> st.max_ddpercent <= #[trigger] ddpercent_at(days, cap, j))
                &&& (exists|m: int| 0 <= m < n && st.max_ddpercent == #[trigger] ddpercent_at(days, cap, m))
                &&& exists|e: int, s: int| {
                    &&& 0 <= s <= e < n
                    &&& drawdown_at(days, cap, e) == st.max_drawdown
                    &&& (forall|j: int| 0 <= j < e ==> #[trigger] drawdown_at(days, cap, j) > st.max_drawdown)
                    &&& (forall|j: int| 0 <= j <= e ==> #[trigger] balance_at(days, cap, j) <= balance_at(days, cap, s))
                    &&& (forall|j: int| 0 <= j < s ==> #[trigger] balance_at(days, cap, j) < balance_at(days, cap, s))
                    &&& st.max_drawdown_duration == days[e].date - days[s].date
                }
            })
        })
}

/// Rows that follow the definitions obey the drawdown laws.
proof fn lemma_rows_obey_laws(rows: Seq<BalanceRow>, days: Seq<DaySummary>, cap: int)
    requires
        rows.len() == days.len(),
        forall|i: int| 0 <= i < rows.len() ==> row_matches(#[trigger] rows[i], days, cap, i),
    ensures
        forall|i: int, j: int| 0 <= i < j < rows.len() ==> rows[i].highlevel <= rows[j].highlevel,
        forall|i: int| 0 <= i < rows.len() ==> (#[trigger] rows[i]).drawdown <= 0 && rows[i].ddpercent <= 0,
{
    assert forall|i: int, j: int| 0 <= i < j < rows.len() implies rows[i].highlevel <= rows[j].highlevel by {
        assert(row_matches(rows[i], days, cap, i));
        assert(row_matches(rows[j], days, cap, j));
        lemma_drawdown_law(days, cap, i, j);
    }
    assert forall|i: int| 0 <= i < rows.len() implies (#[trigger] rows[i]).drawdown <= 0 && rows[i].ddpercent <= 0 by {
        lemma_drawdown_law(days, cap, i, i);
    }
}

pub fn calculate_statistics(days: &Vec<DaySummary>, capital: i64) -> (r: Option<(Vec<BalanceRow>, Statistics)>)
    ensures
        statistics_spec(days@, capital, r),
{
    let rows = match balance_curve(days, capital) {
        Some(v) => v,
        None => {
            return None;
        },
    };
    let ghost cap = capital as int;
    let n = rows.len();
    let mut positive = true;
    let mut i: usize = 0;
    while i < n
        invariant
            n == rows@.len(),
            n == days@.len(),
            i <= n,
            forall|j: int| 0 <= j < n ==> row_matches(#[trigger] rows@[j], days@, cap, j),
            positive == forall|j: int| 0 <= j < i ==> #[trigger] balance_at(days@, cap, j) > 0,
        decreases n - i,
    {
        assert(row_matches(rows@[i as int], days@, cap, i as int));
        if rows[i].balance <= 0 {
            positive = false;
        }
        i += 1;
    }
    proof {
        lemma_rows_obey_laws(rows@, days@, cap);
    }
    if n == 0 || !positive {
        return Some((rows, Statistics {
            start_date: 0,
            end_date: 0,
            total_days: 0,
            profit_days: 0,
            loss_days: 0,
            capital,
            end_balance: 0,
            max_drawdown: 0,
            max_ddpercent: 0,
            max_drawdown_duration: 0,
            total_net_pnl: 0,
            total_commission: 0,
            total_slippage: 0,
            total_turnover: 0,
            total_trade_count: 0,
            positive_balance: positive,
        }));
    }
    let total_net_pnl = match column_total(days, Column::NetPnl) {
        Some(t) => t,
        None => {
            return None;
        },
    };
    let total_commission = match column_total(days, Column::Commission) {
        Some(t) => t,
        None => {
            return None;
        },
    };
    let total_slippage = match column_total(days, Column::Slippage) {
        Some(t) => t,
        None => {
            return None;
        },
    };
    let total_turnover = match column_total(days, Column::Turnover) {
        Some(t) => t,
        None => {
            return None;
        },
    };
    let total_trade_count = match column_total(days, Column::TradeCount) {
        Some(t) => t,
        None => {
            return None;
        },
    };
    let e = first_min_drawdown(&rows);
    let s = first_max_balance(&rows, e);
    let max_ddpercent = min_ddpercent(&rows);
    let duration: i128 = rows[e].date as i128 - rows[s].date as i128;
    let end_balance = rows[n - 1].balance;
    let max_drawdown = rows[e].drawdown;
    let profit_days = count_days(days, true);
    let loss_days = count_days(days, false);
    proof {
        assert(row_matches(rows@[e as int], days@, cap, e as int));
        assert(row_matches(rows@[s as int], days@, cap, s as int));
        assert(row_matches(rows@[n - 1], days@, cap, n - 1));
        assert forall|j: int| 0 <= j < n implies rows@[e as int].drawdown <= #[trigger] drawdown_at(days@, cap, j) by {
            assert(row_matches(rows@[j], days@, cap, j));
        }
        assert forall|j: int| 0 <= j < n implies max_ddpercent <= #[trigger] ddpercent_at(days@, cap, j) by {
            assert(row_matches(rows@[j], days@, cap, j));
        }
        let m = choose|m: int| 0 <= m < n && max_ddpercent == #[trigger] rows@[m].ddpercent;
        assert(row_matches(rows@[m], days@, cap, m));
        assert(max_ddpercent == ddpercent_at(days@, cap, m));
        assert forall|j: int| 0 <= j < e implies #[trigger] drawdown_at(days@, cap, j) > rows@[e as int].drawdown by {
            assert(row_matches(rows@[j], days@, cap, j));
        }
        assert forall|j: int| 0 <= j <= e implies #[trigger] balance_at(days@, cap, j) <= balance_at(days@, cap, s as int) by {
            assert(row_matches(rows@[j], days@, cap, j));
        }
        assert forall|j: int| 0 <= j < s implies #[trigger] balance_at(days@, cap, j) < balance_at(days@, cap, s as int) by {
            assert(row_matches(rows@[j], days@, cap, j));
        }
        assert(drawdown_at(days@, cap, e as int) == rows@[e as int].drawdown);
        lemma_net_pnl_adds_up(days@, cap);
        assert(rows@[e as int].drawdown <= 0);
        assert(rows@[m].ddpercent <= 0);
    }
    Some((rows, Statistics {
        start_date: days[0].date,
        end_date: days[n - 1].date,
        total_days: n as u64,
        profit_days,
        loss_days,
        capital,
        end_balance,
        max_drawdown,
        max_ddpercent,
        max_drawdown_duration: duration,
        total_net_pnl,
        total_commission,
        total_slippage,
        total_turnover,
        total_trade_count,
        positive_balance: true,
    }))
}

/// The net P&L of all days adds up to the final balance less the capital.
pub proof fn lemma_net_pnl_adds_up(days: Seq<DaySummary>, capital: int)
    requires
        days.len() > 0,
    ensures
        column_sum(days, Column::NetPnl, days.len() as int) == balance_at(days, capital, days.len() - 1) - capital,
{
    lemma_net_sum_is_column_sum(days, days.len() as int);
}

proof fn lemma_net_sum_is_column_sum(days: Seq<DaySummary>, k: int)
    ensures
        net_sum(days, k) == column_sum(days, Column::NetPnl, k),
    decreases k,
{
    if k > 0 {
        lemma_net_sum_is_column_sum(days, k - 1);
    }
}


/// Returns and daily averages derived from the statistics, as exact integers:
/// percentages in units of 0.0001 % (like the drawdown percentage), money per
/// day in money units, trades per day in millionths, all rounded down.
#[derive(Clone, Copy, Debug, PartialEq, Eq, Structural)]
pub struct Ratios {
    pub total_return: i128,
    pub annual_return: i128,
    pub daily_net_pnl: i128,
    pub daily_commission: i128,
    pub daily_slippage: i128,
    pub daily_turnover: i128,
    pub daily_trade_count: i128,
}

/// The figures of `ratios_of` when `st` has days and a positive capital; zero otherwise.
pub open spec fn ratios_spec(st: Statistics, annual_days: i64) -> Option<Ratios> {
    let n = st.total_days as int;
    if n <= 0 || st.capital <= 0 {
        Some(Ratios {
            total_return: 0,
            annual_return: 0,
            daily_net_pnl: 0,
            daily_commission: 0,
            daily_slippage: 0,
            daily_turnover: 0,
            daily_trade_count: 0,
        })
    } else {
        let gain = (st.end_balance as int) - (st.capital as int);
        let scaled = gain * DDPERCENT_SCALE;
        let tr = scaled / (st.capital as int);
        let yearly = tr * (annual_days as int);
        let trades = (st.total_trade_count as int) * DDPERCENT_SCALE;
        if in_i128(gain) && in_i128(scaled) && in_i128(yearly) && in_i128(trades) {
            Some(Ratios {
                total_return: tr as i128,
                annual_return: (yearly / n) as i128,
                daily_net_pnl: ((st.total_net_pnl as int) / n) as i128,
                daily_commission: ((st.total_commission as int) / n) as i128,
                daily_slippage: ((st.total_slippage as int) / n) as i128,
                daily_turnover: ((st.total_turnover as int) / n) as i128,
                daily_trade_count: (trades / n) as i128,
            })
        } else {
            None
        }
    }
}

/// Total and annual return and the daily averages of a run; `None` when an
/// intermediate amount does not fit in 128 bits.
pub fn ratios_of(st: &Statistics, annual_days: i64) -> (r: Option<Ratios>)
    ensures
        r == ratios_spec(*st, annual_days),
{
    if st.total_days == 0 || st.capital <= 0 {
        return Some(Ratios {
            total_return: 0,
            annual_return: 0,
            daily_net_pnl: 0,
            daily_commission: 0,
            daily_slippage: 0,
            daily_turnover: 0,
            daily_trade_count: 0,
        });
    }
    let n: i128 = st.total_days as i128;
    let cap: i128 = st.capital as i128;
    let gain = match st.end_balance.checked_sub(cap) {
        Some(g) => g,
        None => {
            return None;
        },
    };
    let scaled = match gain.checked_mul(DDPERCENT_SCALE) {
        Some(x) => x,
        None => {
            return None;
        },
    };
    let tr = crate::daily::floor_div(scaled, cap);
    let yearly = match tr.checked_mul(annual_days as i128) {
        Some(x) => x,
        None => {
            return None;
        },
    };
    let trades = match st.total_trade_count.checked_mul(DDPERCENT_SCALE) {
        Some(x) => x,
        None => {
            return None;
        },
    };
    Some(Ratios {
        total_return: tr,
        annual_return: crate::daily::floor_div(yearly, n),
        daily_net_pnl: crate::daily::floor_div(st.total_net_pnl, n),
        daily_commission: crate::daily::floor_div(st.total_commission, n),
        daily_slippage: crate::daily::floor_div(st.total_slippage, n),
        daily_turnover: crate::daily::floor_div(st.total_turnover, n),
        daily_trade_count: crate::daily::floor_div(trades, n),
    })
}

} // verus!

//! Types of the strategy layer: stop orders, engine kinds and replay modes.
use crate::constant::{Direction, Interval, Offset};
use crate::ids::{stop_id, stop_id_string};
use vstd::prelude::*;

verus! {

/// Prefix of the identifier under which a stop order is shown.
pub const STOPORDER_PREFIX: &'static str = "STOP";

/// Lifecycle state of a stop order.
#[derive(Clone, Copy, Debug, PartialEq, Eq, Structural, Hash)]
pub enum StopOrderStatus {
    WAITING,
    CANCELLED,
    TRIGGERED,
}

impl Default for StopOrderStatus {
    fn default() -> (r: Self)
        ensures
            r == StopOrderStatus::WAITING,
    {
        StopOrderStatus::WAITING
    }
}

/// Whether an engine trades live or replays history.
#[derive(Clone, Copy, Debug, PartialEq, Eq, Structural, Hash)]
pub enum EngineType {
    LIVE,
    BACKTESTING,
}

impl Default for EngineType {
    fn default() -> (r: Self)
        ensures
            r == EngineType::LIVE,
    {
        EngineType::LIVE
    }
}

/// Whether history is replayed bar by bar or tick by tick.
#[derive(Clone, Copy, Debug, PartialEq, Eq, Structural, Hash)]
pub enum BacktestingMode {
    BAR,
    TICK,
}

impl Default for BacktestingMode {
    fn default() -> (r: Self)
        ensures
            r == BacktestingMode::BAR,
    {
        BacktestingMode::BAR
    }
}

/// A resting order that turns into a filled limit order once the market
/// reaches its price. `stop_orderid` counts the engine's stop orders from 1;
/// it is shown as `STOP.<n>`.
#[derive(Clone, Debug)]
pub struct StopOrder {
    pub vt_symbol: String,
    pub direction: Direction,
    pub offset: Offset,
    pub price: i64,
    pub volume: i64,
    pub stop_orderid: u64,
    pub strategy_name: String,
    pub datetime: i64,
    pub lock: bool,
    pub net: bool,
    /// The limit order spawned when the stop triggered; a stop triggers at most once.
    pub spawned_orderid: Option<u64>,
    pub status: StopOrderStatus,
}

impl StopOrder {
    /// The stop order's id as text, `STOP.<n>`.
    pub fn vt_orderid(&self) -> (r: String)
        ensures
            r@ == stop_id(self.stop_orderid as nat),
    {
        stop_id_string(self.stop_orderid)
    }

    /// A copy that provably equals the original.
    pub fn duplicate(&self) -> (r: StopOrder)
        ensures
            r == *self,
    {
        StopOrder {
            vt_symbol: self.vt_symbol.clone(),
            direction: self.direction,
            offset: self.offset,
            price: self.price,
            volume: self.volume,
            stop_orderid: self.stop_orderid,
            strategy_name: self.strategy_name.clone(),
            datetime: self.datetime,
            lock: self.lock,
            net: self.net,
            spawned_orderid: self.spawned_orderid,
            status: self.status,
        }
    }
}

/// Length of one interval in milliseconds, for the intervals that have a fixed one.
pub open spec fn interval_delta_spec(interval: Interval) -> Option<int> {
    match interval {
        Interval::TICK => Some(1),
        Interval::MINUTE => Some(60_000),
        Interval::HOUR => Some(3_600_000),
        Interval::DAILY => Some(86_400_000),
        _ => None,
    }
}

/// The table of interval lengths, in milliseconds.
pub fn get_interval_delta_map() -> (r: Vec<(Interval, i64)>)
    ensures
        r@.len() == 4,
        forall|i: int|
            0 <= i < r@.len() ==> interval_delta_spec(#[trigger] r@[i].0) == Some(r@[i].1 as int),
        forall|iv: Interval|
            interval_delta_spec(iv) is Some ==> exists|i: int|
                0 <= i < r@.len() && #[trigger] r@[i].0 == iv,
{
    let r = vec![
        (Interval::TICK, 1i64),
        (Interval::MINUTE, 60_000i64),
        (Interval::HOUR, 3_600_000i64),
        (Interval::DAILY, 86_400_000i64),
    ];
    assert forall|iv: Interval| interval_delta_spec(iv) is Some implies exists|i: int|
        0 <= i < r@.len() && #[trigger] r@[i].0 == iv by {
        if iv == Interval::TICK {
            assert(r@[0].0 == iv);
        } else if iv == Interval::MINUTE {
            assert(r@[1].0 == iv);
        } else if iv == Interval::HOUR {
            assert(r@[2].0 == iv);
        } else {
            assert(r@[3].0 == iv);
        }
    }
    r
}

/// Length of one interval in milliseconds; `None` for intervals without a fixed length.
pub fn interval_delta(interval: Interval) -> (r: Option<i64>)
    ensures
        r matches Some(d) ==> interval_delta_spec(interval) == Some(d as int),
        r is None ==> interval_delta_spec(interval) is None,
{
    match interval {
        Interval::TICK => Some(1),
        Interval::MINUTE => Some(60_000),
        Interval::HOUR => Some(3_600_000),
        Interval::DAILY => Some(86_400_000),
        _ => None,
    }
}

} // verus!

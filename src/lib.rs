//! An event-driven backtesting engine for single-instrument trading strategies.
use vstd::prelude::*;

pub mod backtesting;
pub mod base;
pub mod book;
pub mod constant;
pub mod daily;
pub mod database;
pub mod ids;
pub mod object;
pub mod setting;
pub mod statistics;
pub mod utility;

verus! {

} // verus!

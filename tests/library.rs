use vnrs::base::{get_interval_delta_map, interval_delta};
use vnrs::constant::{str_eq, Direction, Exchange, Interval, Offset, Status};
use vnrs::ids::{decimal_string, gateway_id_string, parse_u64, stop_id_string};
use vnrs::daily::{floor_div, upsert_daily_close, DailyClose, DailyResult};
use vnrs::object::{date_of, get_active_statuses, TradeData, MS_PER_DAY};
use vnrs::setting::{get_setting, get_settings};
use vnrs::utility::{extract_vt_symbol, round_to, ArrayManager};
use vnrs::database::{interval_from_storage_code, interval_storage_code};
use vnrs::object::BarData;

fn trade(direction: Direction, price: i64, volume: i64) -> TradeData {
    TradeData {
        symbol: "IF888".to_string(),
        exchange: Exchange::CFFEX,
        orderid: 1,
        tradeid: 1,
        direction,
        offset: Offset::OPEN,
        price,
        volume,
        datetime: 0,
    }
}

#[test]
fn round_to_nearest_tick() {
    assert_eq!(round_to(10037, 50), 10050);
    assert_eq!(round_to(10024, 50), 10000);
    assert_eq!(round_to(-10037, 50), -10050);
    assert_eq!(round_to(7, 1), 7);
    assert_eq!(round_to(0, 5), 0);
}

#[test]
fn round_to_halves_go_to_even() {
    assert_eq!(round_to(25, 10), 20);
    assert_eq!(round_to(35, 10), 40);
    assert_eq!(round_to(-25, 10), -20);
    assert_eq!(round_to(-35, 10), -40);
}

#[test]
fn round_to_is_idempotent() {
    for p in [-1001i64, -75, 0, 13, 125, 10037, 999_999] {
        for tick in [1i64, 3, 10, 50, 250] {
            let once = round_to(p, tick);
            assert_eq!(round_to(once, tick), once);
        }
    }
}

#[test]
fn vt_symbol_splits_on_last_dot() {
    assert_eq!(extract_vt_symbol("ETH.LOCAL"), Some(("ETH".to_string(), Exchange::LOCAL)));
    assert_eq!(extract_vt_symbol("000905.SSE"), Some(("000905".to_string(), Exchange::SSE)));
    assert_eq!(extract_vt_symbol("a.b.SHFE"), Some(("a.b".to_string(), Exchange::SHFE)));
    assert_eq!(extract_vt_symbol("NODOT"), None);
    assert_eq!(extract_vt_symbol("X.MOON"), None);
    assert_eq!(extract_vt_symbol("X.local"), None);
}

#[test]
fn exchange_names_round_trip() {
    for e in [Exchange::CFFEX, Exchange::NASDAQ, Exchange::IDEALPRO, Exchange::OKX, Exchange::LOCAL] {
        assert_eq!(Exchange::from_name(e.name()), Some(e));
    }
    assert_eq!(Exchange::from_name(""), None);
    assert!(str_eq("abc", "abc"));
    assert!(!str_eq("abc", "abd"));
    assert!(!str_eq("abc", "ab"));
}

#[test]
fn settings_defaults() {
    let s = get_settings();
    assert_eq!(s.len(), 22);
    assert_eq!(s[0], ("font.family".to_string(), "微软雅黑".to_string()));
    assert_eq!(get_setting("database.name"), Some("sqlite".to_string()));
    assert_eq!(get_setting("database.database"), Some("database.db".to_string()));
    assert_eq!(get_setting("email.port"), Some("465".to_string()));
    assert_eq!(get_setting("no.such.key"), None);
}

#[test]
fn active_statuses() {
    let s = get_active_statuses();
    assert_eq!(s, vec![Status::SUBMITTING, Status::NOTTRADED, Status::PARTTRADED]);
    assert!(Status::NOTTRADED.is_active());
    assert!(!Status::ALLTRADED.is_active());
    assert!(!Status::CANCELLED.is_active());
}

#[test]
fn calendar_day_of_timestamps() {
    assert_eq!(date_of(0), 0);
    assert_eq!(date_of(MS_PER_DAY - 1), 0);
    assert_eq!(date_of(MS_PER_DAY), 1);
    assert_eq!(date_of(-1), -1);
    assert_eq!(date_of(-MS_PER_DAY), -1);
    assert_eq!(date_of(-MS_PER_DAY - 1), -2);
}

#[test]
fn interval_lengths() {
    assert_eq!(interval_delta(Interval::MINUTE), Some(60_000));
    assert_eq!(interval_delta(Interval::TICK), Some(1));
    assert_eq!(interval_delta(Interval::DAILY), Some(86_400_000));
    assert_eq!(interval_delta(Interval::WEEKLY), None);
    assert_eq!(interval_delta(Interval::NONE), None);
    assert_eq!(get_interval_delta_map().len(), 4);
}

#[test]
fn floor_division() {
    assert_eq!(floor_div(7, 2), 3);
    assert_eq!(floor_div(-7, 2), -4);
    assert_eq!(floor_div(-8, 2), -4);
    assert_eq!(floor_div(i128::MIN, 1), i128::MIN);
}

#[test]
fn daily_pnl_with_costs() {
    let mut d = DailyResult::new(10, 110);
    d.add_trade(trade(Direction::LONG, 100, 3));
    d.add_trade(trade(Direction::SHORT, 120, 1));
    // size 10, commission 0.25 % (250 000 per hundred million), slippage 2 per unit
    assert!(d.calculate_pnl(105, 2, 10, 250_000, 2));
    assert_eq!(d.pre_close, 105);
    assert_eq!(d.start_pos, 2);
    assert_eq!(d.end_pos, 4);
    assert_eq!(d.trade_count, 2);
    assert_eq!(d.holding_pnl, 2 * (110 - 105) * 10);
    assert_eq!(d.trading_pnl, 3 * 10 * 10 + (-1) * (110 - 120) * 10);
    assert_eq!(d.turnover, 3000 + 1200);
    // 3000 * 0.25 % = 7.5 -> 7; 1200 * 0.25 % = 3
    assert_eq!(d.commission, 10);
    assert_eq!(d.slippage, 3 * 10 * 2 + 10 * 2);
    assert_eq!(d.total_pnl, 100 + 400);
    assert_eq!(d.net_pnl, 500 - 10 - 80);
}

#[test]
fn daily_pnl_first_day_uses_unit_pre_close() {
    let mut d = DailyResult::new(1, 50);
    assert!(d.calculate_pnl(0, 0, 1, 0, 0));
    assert_eq!(d.pre_close, 1);
    assert_eq!(d.holding_pnl, 0);
    assert_eq!(d.net_pnl, 0);
}

#[test]
fn daily_pnl_reports_overflow() {
    let mut d = DailyResult::new(1, i64::MAX);
    d.add_trade(trade(Direction::LONG, i64::MIN, i64::MAX));
    assert!(!d.calculate_pnl(0, 0, i64::MAX, 0, 0));
}

#[test]
fn daily_close_upsert() {
    let mut v: Vec<DailyClose> = Vec::new();
    upsert_daily_close(&mut v, 5, 50);
    upsert_daily_close(&mut v, 3, 30);
    upsert_daily_close(&mut v, 9, 90);
    upsert_daily_close(&mut v, 5, 55);
    let got: Vec<(i64, i64)> = v.iter().map(|c| (c.date, c.close_price)).collect();
    assert_eq!(got, vec![(3, 30), (5, 55), (9, 90)]);
}

#[test]
fn decimal_ids() {
    assert_eq!(decimal_string(0), "0");
    assert_eq!(decimal_string(907), "907");
    assert_eq!(decimal_string(u64::MAX), u64::MAX.to_string());
    assert_eq!(gateway_id_string(12), "BACKTESTING.12");
    assert_eq!(stop_id_string(3), "STOP.3");
    assert_eq!(parse_u64("0042"), Some(42));
    assert_eq!(parse_u64("18446744073709551615"), Some(u64::MAX));
    assert_eq!(parse_u64("18446744073709551616"), None);
    assert_eq!(parse_u64(""), None);
    assert_eq!(parse_u64("4a"), None);
}

#[test]
fn object_texts() {
    let t = trade(Direction::LONG, 1, 1);
    assert_eq!(t.vt_symbol(), "IF888.CFFEX");
    assert_eq!(t.vt_orderid(), "BACKTESTING.1");
    assert_eq!(t.vt_tradeid(), "BACKTESTING.1");
}

#[test]
fn storage_codes() {
    assert_eq!(interval_storage_code(Interval::DAILY), Some("d"));
    assert_eq!(interval_storage_code(Interval::MINUTE), Some("1m"));
    assert_eq!(interval_storage_code(Interval::HOUR), None);
    assert_eq!(interval_from_storage_code("1m"), Some(Interval::MINUTE));
    assert_eq!(interval_from_storage_code("d"), Some(Interval::DAILY));
    assert_eq!(interval_from_storage_code("1h"), None);
}

#[test]
fn array_manager_keeps_last_bars() {
    let mut am = ArrayManager::new(3);
    let mk = |c: i64| BarData {
        symbol: "X".to_string(),
        exchange: Exchange::LOCAL,
        datetime: 0,
        interval: Interval::MINUTE,
        volume: c * 10,
        turnover: 0,
        open_interest: 0,
        open_price: c,
        high_price: c,
        low_price: c,
        close_price: c,
    };
    am.update_bar(&mk(1));
    am.update_bar(&mk(2));
    assert!(!am.inited);
    am.update_bar(&mk(3));
    assert!(am.inited);
    am.update_bar(&mk(4));
    assert_eq!(am.count, 4);
    assert_eq!(am.close_array, vec![2, 3, 4]);
    assert_eq!(am.volume_array, vec![20, 30, 40]);
}

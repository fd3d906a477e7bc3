use backtest_engine::account::Account;
use backtest_engine::fills::fill_order;
use backtest_engine::ledger::Ledger;
use backtest_engine::market::BarCache;
use backtest_engine::money::{
    apply_slippage, basis_points, clamp, fee_for, notional, sat_abs, sat_add, sat_mul, sat_sub,
};
use backtest_engine::position::Position;
use backtest_engine::types::{Bar, Fill, PendingOrder, Side};

#[test]
fn saturating_sum_and_difference() {
    assert_eq!(sat_add(2, 3), 5);
    assert_eq!(sat_add(i64::MAX, 1), i64::MAX);
    assert_eq!(sat_add(i64::MIN, -1), i64::MIN);
    assert_eq!(sat_add(i64::MAX, i64::MIN), -1);
    assert_eq!(sat_sub(2, 3), -1);
    assert_eq!(sat_sub(i64::MIN, 1), i64::MIN);
    assert_eq!(sat_sub(i64::MAX, -1), i64::MAX);
    assert_eq!(sat_sub(0, i64::MIN), i64::MAX);
}

#[test]
fn saturating_product() {
    assert_eq!(sat_mul(6, -7), -42);
    assert_eq!(sat_mul(i64::MAX, 2), i64::MAX);
    assert_eq!(sat_mul(i64::MAX, -2), i64::MIN);
    assert_eq!(sat_mul(i64::MIN, -1), i64::MAX);
    assert_eq!(sat_mul(i64::MIN, 2), i64::MIN);
    assert_eq!(sat_mul(0, i64::MIN), 0);
    assert_eq!(sat_mul(3_037_000_500, 3_037_000_500), i64::MAX);
    assert_eq!(sat_mul(3_037_000_499, 3_037_000_499), 9_223_372_030_926_249_001);
}

#[test]
fn saturating_magnitude() {
    assert_eq!(sat_abs(5), 5);
    assert_eq!(sat_abs(-5), 5);
    assert_eq!(sat_abs(0), 0);
    assert_eq!(sat_abs(i64::MIN), i64::MAX);
    assert_eq!(sat_abs(i64::MIN + 1), i64::MAX);
}

#[test]
fn clamp_brings_into_range() {
    assert_eq!(clamp(17), 17);
    assert_eq!(clamp(i64::MAX as i128 + 1), i64::MAX);
    assert_eq!(clamp(i64::MIN as i128 - 1), i64::MIN);
    assert_eq!(clamp(i128::MAX), i64::MAX);
    assert_eq!(clamp(i128::MIN), i64::MIN);
}

#[test]
fn basis_points_round_toward_zero() {
    assert_eq!(basis_points(100_250, 10), 100);
    assert_eq!(basis_points(9_999, 1), 0);
    assert_eq!(basis_points(10_000, 1), 1);
    assert_eq!(basis_points(-15, 5_000), -7);
    assert_eq!(basis_points(15, -5_000), -7);
    assert_eq!(basis_points(-15, -5_000), 7);
    assert_eq!(basis_points(123, 0), 0);
    assert_eq!(basis_points(i64::MAX, 10_000), i64::MAX / 10_000);
    assert_eq!(basis_points(i64::MIN, 3), i64::MIN / 10_000);
}

#[test]
fn fee_is_basis_points_of_notional() {
    assert_eq!(fee_for(1_000_000, 25), 2_500);
    assert_eq!(fee_for(1_000, 0), 0);
    assert_eq!(fee_for(399, 25), 0);
    assert_eq!(fee_for(400, 25), 1);
    assert_eq!(fee_for(i64::MAX, 2), i64::MAX / 10_000);
}

#[test]
fn slippage_moves_against_the_trader() {
    assert_eq!(apply_slippage(10_000, 0, Side::Buy), 10_000);
    assert_eq!(apply_slippage(10_000, 0, Side::Sell), 10_000);
    assert_eq!(apply_slippage(10_000, 50, Side::Buy), 10_050);
    assert_eq!(apply_slippage(10_000, 50, Side::Sell), 9_950);
    assert_eq!(apply_slippage(199, 50, Side::Buy), 199);
    assert_eq!(apply_slippage(200, 50, Side::Buy), 201);
    assert_eq!(apply_slippage(i64::MAX, 10_000, Side::Buy), i64::MAX);
    assert_eq!(apply_slippage(i64::MAX, 10_000, Side::Sell), i64::MAX - i64::MAX / 10_000);
}

#[test]
fn notional_uses_the_magnitude_of_quantity() {
    assert_eq!(notional(120, 10), 1_200);
    assert_eq!(notional(120, -10), 1_200);
    assert_eq!(notional(-120, 10), -1_200);
    assert_eq!(notional(2, i64::MIN), i64::MAX);
    assert_eq!(notional(i64::MAX, 2), i64::MAX);
}

#[test]
fn side_names() {
    assert_eq!(Side::Buy.name(), "BUY");
    assert_eq!(Side::Sell.name(), "SELL");
    assert_eq!(Side::parse("BUY"), Some(Side::Buy));
    assert_eq!(Side::parse("SELL"), Some(Side::Sell));
    assert_eq!(Side::parse("buy"), None);
    assert_eq!(Side::parse(""), None);
    assert_eq!(Side::parse("HOLD"), None);
}

#[test]
fn position_buy_and_sell() {
    let flat = Position::new();
    assert_eq!(flat, Position { quantity: 0, average_cost: 0 });
    let p = flat.buy(100, 10);
    assert_eq!(p, Position { quantity: 10, average_cost: 100 });
    let p = p.buy(200, 30);
    assert_eq!(p, Position { quantity: 40, average_cost: 175 });
    assert_eq!(p.realized_on_sale(180, 40), 200);
    assert_eq!(p.realized_on_sale(170, 40), -200);
    let q = p.sell(15);
    assert_eq!(q, Position { quantity: 25, average_cost: 175 });
    assert_eq!(q.sell(25), Position { quantity: 0, average_cost: 0 });
    assert_eq!(q.sell(30), Position { quantity: -5, average_cost: 0 });
}

#[test]
fn position_average_rounds_toward_zero_for_negative_prices() {
    let p = Position::new().buy(-7, 1).buy(-8, 1);
    assert_eq!(p, Position { quantity: 2, average_cost: -7 });
}

#[test]
fn position_same_price_keeps_the_price() {
    let mut p = Position::new();
    for quantity in [3, 1, 4, 1, 5, 9, 2, 6] {
        p = p.buy(777, quantity);
        assert_eq!(p.average_cost, 777);
    }
    assert_eq!(p.quantity, 31);
}

#[test]
fn position_average_stays_within_the_prices_paid() {
    let buys = [(0, 1), (3, 1), (3, 1), (10, 4), (2, 9)];
    let mut p = Position::new();
    let mut paid: i64 = 0;
    for (price, quantity) in buys {
        p = p.buy(price, quantity);
        paid += price * quantity;
        assert!(0 <= p.average_cost && p.average_cost <= 10);
        assert!(p.average_cost * p.quantity <= paid);
    }
    // Rounding at each buy: after the third the mean paid is 2, the cost 1.
    let p3 = Position::new().buy(0, 1).buy(3, 1).buy(3, 1);
    assert_eq!(p3, Position { quantity: 3, average_cost: 1 });
}

#[test]
fn position_saturates() {
    let p = Position::new().buy(i64::MAX, 2);
    assert_eq!(p, Position { quantity: 2, average_cost: i64::MAX / 2 });
    let p = Position { quantity: i64::MAX, average_cost: 1 }.buy(1, 1);
    assert_eq!(p.quantity, i64::MAX);
    let p = Position { quantity: i64::MIN, average_cost: 0 }.sell(1);
    assert_eq!(p, Position { quantity: i64::MIN, average_cost: 0 });
    assert_eq!(Position { quantity: 1, average_cost: i64::MIN }.realized_on_sale(1, 2), i64::MAX);
}

#[test]
fn round_trip_gain_is_price_difference_times_quantity() {
    for (buy, quantity, sell) in [(100, 10, 120), (100, 10, 80), (5, 1, 5), (1, 1_000_000, 3)] {
        let p = Position::new().buy(buy, quantity);
        assert_eq!(p.average_cost, buy);
        assert_eq!(p.realized_on_sale(sell, quantity), (sell - buy) * quantity);
        assert_eq!(p.sell(quantity), Position::new());
    }
}

fn text(value: &str) -> String {
    value.to_string()
}

fn order(id: i64, symbol: &str, side: Side, quantity: i64) -> PendingOrder {
    PendingOrder { order_id: id, symbol: text(symbol), side, quantity }
}

#[test]
fn fill_terms() {
    let fill = fill_order(&order(7, "ACME", Side::Buy, 10), 10_000, &text("d1"), 10, 25);
    assert_eq!(fill.date, "d1");
    assert_eq!(fill.symbol, "ACME");
    assert_eq!(fill.side, Side::Buy);
    assert_eq!(fill.quantity, 10);
    assert_eq!(fill.price, 10_025);
    assert_eq!(fill.fee, 100);
    assert_eq!(fill.order_id, 7);
    let fill = fill_order(&order(8, "ACME", Side::Sell, -10), 10_000, &text("d2"), 10, 25);
    assert_eq!(fill.price, 9_975);
    assert_eq!(fill.quantity, -10);
    assert_eq!(fill.fee, 99);
}

#[test]
fn account_applies_fills() {
    let mut account = Account::new(1_000);
    account.execute(Fill {
        date: text("d1"),
        symbol: text("ACME"),
        side: Side::Buy,
        quantity: 4,
        price: 50,
        fee: 3,
        order_id: 1,
    });
    assert_eq!(account.cash(), 1_000 - 200 - 3);
    assert_eq!(account.position("ACME"), Position { quantity: 4, average_cost: 50 });
    assert_eq!(account.fees_paid(), 3);
    assert_eq!(account.trades_closed(), 0);
    account.execute(Fill {
        date: text("d2"),
        symbol: text("ACME"),
        side: Side::Sell,
        quantity: 4,
        price: 60,
        fee: 2,
        order_id: 2,
    });
    assert_eq!(account.cash(), 797 + 240 - 2);
    assert_eq!(account.position("ACME"), Position { quantity: 0, average_cost: 0 });
    assert_eq!(account.realized_pnl(), 40);
    assert_eq!(account.fees_paid(), 5);
    assert_eq!(account.trades_closed(), 1);
    assert_eq!(account.wins(), 1);
    assert_eq!(account.fills().len(), 2);
    assert_eq!(account.position("OTHER"), Position { quantity: 0, average_cost: 0 });
}

#[test]
fn account_equity_marks_only_bars_of_the_date() {
    let mut account = Account::new(100);
    for (symbol, quantity) in [("AAA", 2), ("BBB", 3)] {
        account.execute(Fill {
            date: text("d1"),
            symbol: text(symbol),
            side: Side::Buy,
            quantity,
            price: 10,
            fee: 0,
            order_id: 1,
        });
    }
    let mut bars = BarCache::new();
    for (date, symbol, close) in [("d1", "AAA", 11), ("d0", "BBB", 12), ("d1", "CCC", 99)] {
        bars.update(Bar {
            date: text(date),
            symbol: text(symbol),
            open: 1,
            high: 1,
            low: 1,
            close,
            volume: 0,
        });
    }
    assert_eq!(account.equity(&bars, &text("d1")), 50 + 22);
    assert_eq!(account.equity(&bars, &text("d0")), 50 + 36);
    assert_eq!(account.equity(&bars, &text("d2")), 50);
    assert!(bars.bar_on("AAA", &text("d1")).is_some());
    assert!(bars.bar_on("AAA", &text("d0")).is_none());
    assert_eq!(bars.latest("BBB").unwrap().close, 12);
}

#[test]
fn ledger_lists_each_symbol_once() {
    let mut ledger = Ledger::new();
    ledger.record(text("AAA"), Position { quantity: 1, average_cost: 5 });
    ledger.record(text("BBB"), Position { quantity: 2, average_cost: 6 });
    ledger.record(text("AAA"), Position { quantity: 3, average_cost: 7 });
    assert_eq!(ledger.position("AAA"), Position { quantity: 3, average_cost: 7 });
    assert_eq!(ledger.position("BBB"), Position { quantity: 2, average_cost: 6 });
    assert_eq!(ledger.position("CCC"), Position { quantity: 0, average_cost: 0 });
    let mut bars = BarCache::new();
    for symbol in ["AAA", "BBB"] {
        bars.update(Bar {
            date: text("d1"),
            symbol: text(symbol),
            open: 0,
            high: 0,
            low: 0,
            close: 10,
            volume: 0,
        });
    }
    // Were AAA listed twice its mark would count twice.
    assert_eq!(ledger.value(&bars, &text("d1")), 30 + 20);
}

//! The trade-history queries on concrete values.

use exchange::messages::{MarketHistory, TransactionRequest};

fn pair(price: usize) -> (TransactionRequest, TransactionRequest) {
    (
        TransactionRequest { transaction_id: 0, actor_id: 1, stock_id: 0, price, quantity: 1 },
        TransactionRequest { transaction_id: 0, actor_id: 2, stock_id: 0, price, quantity: 1 },
    )
}

/// An empty history answers every query with its empty case.
#[test]
fn empty_history() {
    let h = MarketHistory::new();
    assert_eq!(h.len(), 0);
    assert_eq!(h.transaction_count(0), 0);
    assert_eq!(h.last_transaction_for_stock(0), None);
    assert_eq!(h.last_sold_price(0), None);
    assert!(!h.increasing(0));
    assert!(!h.decreasing(0));
    assert_eq!(h.quantity_sold(0), 0);
    assert!(!h.can_purchase(0, 100));
}

/// Appends are keyed by instrument and counted per instrument.
#[test]
fn appends_keyed_by_instrument() {
    let mut h = MarketHistory::new();
    h.append(0, pair(40));
    h.append(0, pair(50));
    h.append(3, pair(10));
    assert_eq!(h.len(), 2);
    assert_eq!(h.transaction_count(0), 2);
    assert_eq!(h.transaction_count(3), 1);
    assert_eq!(h.quantity_sold(0), 2);
    assert_eq!(h.last_transaction_for_stock(3), Some(pair(10)));
}

/// The last-trade queries read the most recent pair for the instrument.
#[test]
fn last_trade_queries() {
    let mut h = MarketHistory::new();
    h.append(0, pair(40));
    assert_eq!(h.last_sold_price(0), Some(40));
    h.append(0, pair(55));
    assert_eq!(h.last_sold_price(0), Some(55));
    assert_eq!(h.last_transaction_for_stock(0), Some(pair(55)));
}

/// The trend queries compare the last two trades; a single trade is no
/// trend.
#[test]
fn trend_queries_need_two_trades() {
    let mut h = MarketHistory::new();
    h.append(0, pair(40));
    assert!(!h.increasing(0));
    assert!(!h.decreasing(0));
    h.append(0, pair(55));
    assert!(h.increasing(0));
    assert!(!h.decreasing(0));
    h.append(0, pair(30));
    assert!(!h.increasing(0));
    assert!(h.decreasing(0));
}

/// `can_purchase` wants an established trend (two trades) and a last
/// price at or under the offered price.
#[test]
fn can_purchase_wants_established_price() {
    let mut h = MarketHistory::new();
    h.append(0, pair(40));
    // One trade is not enough, whatever the price.
    assert!(!h.can_purchase(0, 100));
    h.append(0, pair(50));
    assert!(h.can_purchase(0, 50));
    assert!(h.can_purchase(0, 60));
    assert!(!h.can_purchase(0, 49));
}

//! The order book on concrete values: first-fit matching, the self-trade
//! exclusion, revocation and activity counts.

use exchange::messages::{ActorMessages, Envelope, MarketMessages, TellerMessages,
    TransactionRequest};
use exchange::teller::Teller;

fn order(
    transaction_id: usize,
    actor_id: usize,
    price: usize,
    quantity: usize,
) -> TransactionRequest {
    TransactionRequest { transaction_id, actor_id, stock_id: 0, price, quantity }
}

/// A sell at or under a queued buy's price matches it; the first queued
/// fill wins and both orders leave the book.
#[test]
fn first_fit_match() {
    let mut t = Teller::new(0, 0);
    let s1 = order(0, 2, 45, 1);
    let s2 = order(1, 3, 40, 1);
    assert_eq!(t.submit_sell(s1), None);
    assert_eq!(t.submit_sell(s2), None);
    // Both sells cross the buy; the first queued one (s1) wins despite
    // s2 being cheaper: arrival order, no price priority.
    let b = order(0, 1, 50, 1);
    let out = t.submit_buy(b);
    assert_eq!(out, Some(Envelope::ToMarket(0, MarketMessages::MatchRequest(b, s1))));
    assert_eq!(t.buy_requests.len(), 0);
    assert_eq!(t.sell_requests, vec![s2]);
}

/// A buy strictly under every queued sell price stays queued.
#[test]
fn no_match_below_ask() {
    let mut t = Teller::new(0, 0);
    assert_eq!(t.submit_sell(order(0, 2, 60, 5)), None);
    assert_eq!(t.submit_buy(order(0, 1, 50, 5)), None);
    assert_eq!(t.buy_requests.len(), 1);
    assert_eq!(t.sell_requests.len(), 1);
}

/// An actor's own buy and sell orders never match each other, even when
/// their prices cross; another actor's order still fills.
#[test]
fn no_self_match() {
    let mut t = Teller::new(0, 0);
    assert_eq!(t.submit_buy(order(0, 1, 50, 1)), None);
    // Actor 1's own sell crosses its buy but is not paired with it.
    assert_eq!(t.submit_sell(order(1, 1, 40, 1)), None);
    assert_eq!(t.buy_requests.len(), 1);
    assert_eq!(t.sell_requests.len(), 1);
    // Actor 2's sell fills actor 1's buy.
    let s = order(0, 2, 40, 1);
    let b = order(0, 1, 50, 1);
    let out = t.submit_sell(s);
    assert_eq!(out, Some(Envelope::ToMarket(0, MarketMessages::MatchRequest(b, s))));
    // Actor 1's own sell is still on the book.
    assert_eq!(t.sell_requests, vec![order(1, 1, 40, 1)]);
}

/// Revoking a still-queued order removes it from whichever side holds
/// it; revoking a matched or unknown order is a no-op.
#[test]
fn revoke_removes_queued_order() {
    let mut t = Teller::new(0, 0);
    t.submit_buy(order(7, 1, 50, 1));
    t.submit_sell(order(8, 1, 90, 1));
    t.revoke(1, 7);
    assert_eq!(t.buy_requests.len(), 0);
    assert_eq!(t.sell_requests.len(), 1);
    t.revoke(1, 8);
    assert_eq!(t.sell_requests.len(), 0);
    // Nothing left to revoke: a no-op.
    t.revoke(1, 7);
    assert_eq!(t.buy_requests.len(), 0);
    assert_eq!(t.sell_requests.len(), 0);
}

/// Revocation needs both the actor and the transaction id to agree.
#[test]
fn revoke_matches_actor_and_transaction() {
    let mut t = Teller::new(0, 0);
    t.submit_buy(order(7, 1, 50, 1));
    t.revoke(2, 7);
    t.revoke(1, 8);
    assert_eq!(t.buy_requests.len(), 1);
}

/// An activity-count query reports the queue length of the asked side.
#[test]
fn activity_count_reports_queue_length() {
    let mut t = Teller::new(4, 0);
    t.submit_buy(order(0, 1, 50, 1));
    t.submit_buy(order(1, 1, 30, 1));
    t.submit_sell(order(2, 2, 90, 1));
    assert_eq!(t.activity_count(true), 2);
    assert_eq!(t.activity_count(false), 1);
    let out = t.handle(TellerMessages::RequestCount(6, true));
    assert_eq!(out, vec![Envelope::ToActor(6, ActorMessages::ReceiveActivityCount(4, true, 2))]);
}

/// Orders with equal prices cross: a sell at exactly the buy's limit
/// fills it.
#[test]
fn equal_price_matches() {
    let mut t = Teller::new(0, 0);
    let b = order(0, 1, 50, 2);
    let s = order(0, 2, 50, 3);
    assert_eq!(t.submit_buy(b), None);
    let out = t.submit_sell(s);
    assert_eq!(out, Some(Envelope::ToMarket(0, MarketMessages::MatchRequest(b, s))));
}

//! The settlement coordinator on concrete values: routing, the
//! idempotent no-ops, and the committed-actor set discipline.

use exchange::market::Market;
use exchange::messages::{ActorMessages, Envelope, MarketMessages, TellerMessages,
    TransactionRequest};

fn order(
    transaction_id: usize,
    actor_id: usize,
    stock_id: usize,
    price: usize,
    quantity: usize,
) -> TransactionRequest {
    TransactionRequest { transaction_id, actor_id, stock_id, price, quantity }
}

/// A cancel for an actor with no active transaction is a no-op: tables,
/// history and outbound messages unchanged.
#[test]
fn cancel_without_active_transaction_is_noop() {
    let mut m = Market::new(0, 1);
    m.handle(MarketMessages::RegisterActor(1));
    let out = m.handle(MarketMessages::Cancel(1));
    assert_eq!(out, vec![]);
    assert!(m.active_transactions.is_empty());
    assert!(m.pending_transactions.is_empty());
    assert!(m.committed_actors.is_empty());
    assert_eq!(m.history.transaction_count(0), 0);
}

/// A commit for an actor with no active transaction is ignored.
#[test]
fn commit_without_active_transaction_is_ignored() {
    let mut m = Market::new(0, 1);
    m.handle(MarketMessages::RegisterActor(1));
    let out = m.handle(MarketMessages::Commit(1));
    assert_eq!(out, vec![]);
    assert!(m.committed_actors.is_empty());
}

/// Registration hands the actor the history at once; registering twice
/// does not duplicate the entry.
#[test]
fn register_sends_history_once_per_actor() {
    let mut m = Market::new(0, 1);
    let out = m.handle(MarketMessages::RegisterActor(1));
    assert_eq!(out, vec![Envelope::ToActor(1, ActorMessages::History)]);
    m.handle(MarketMessages::RegisterActor(1));
    assert_eq!(m.actors, vec![1]);
}

/// Orders are routed to the teller of their instrument; an unknown
/// instrument is skipped silently.
#[test]
fn orders_route_by_instrument() {
    let mut m = Market::new(0, 2);
    let b = order(0, 1, 1, 50, 1);
    let out = m.handle(MarketMessages::BuyRequest(b));
    assert_eq!(out, vec![Envelope::ToTeller(1, TellerMessages::BuyRequest(b))]);
    let s = order(0, 2, 0, 40, 1);
    let out = m.handle(MarketMessages::SellRequest(s));
    assert_eq!(out, vec![Envelope::ToTeller(0, TellerMessages::SellRequest(s))]);
    let stray = order(0, 1, 9, 50, 1);
    assert_eq!(m.handle(MarketMessages::BuyRequest(stray)), vec![]);
}

/// An activity-count query is forwarded only for a registered actor and
/// an existing teller.
#[test]
fn activity_count_routing() {
    let mut m = Market::new(0, 1);
    assert_eq!(m.handle(MarketMessages::RequestActivityCount(1, 0, true)), vec![]);
    m.handle(MarketMessages::RegisterActor(1));
    let out = m.handle(MarketMessages::RequestActivityCount(1, 0, true));
    assert_eq!(out, vec![Envelope::ToTeller(0, TellerMessages::RequestCount(1, true))]);
    assert_eq!(m.handle(MarketMessages::RequestActivityCount(1, 5, true)), vec![]);
}

/// Escrow requests go only to registered actors; an unregistered party
/// is skipped silently while the pair still activates.
#[test]
fn activation_skips_unregistered_actors() {
    let mut m = Market::new(0, 1);
    m.handle(MarketMessages::RegisterActor(2));
    let buy = order(0, 1, 0, 50, 1);
    let sell = order(0, 2, 0, 40, 1);
    let out = m.handle(MarketMessages::MatchRequest(buy, sell));
    assert_eq!(out.len(), 1);
    assert_eq!(m.active_transactions.len(), 1);
}

/// One commit does not settle; a duplicate commit from the same actor
/// neither settles nor piles up in the committed set.
#[test]
fn commit_waits_for_counterparty() {
    let mut m = Market::new(0, 1);
    m.handle(MarketMessages::RegisterActor(1));
    m.handle(MarketMessages::RegisterActor(2));
    let buy = order(0, 1, 0, 50, 1);
    let sell = order(0, 2, 0, 40, 1);
    m.handle(MarketMessages::MatchRequest(buy, sell));
    assert_eq!(m.handle(MarketMessages::Commit(1)), vec![]);
    assert_eq!(m.handle(MarketMessages::Commit(1)), vec![]);
    assert_eq!(m.committed_actors, vec![1]);
    assert_eq!(m.active_transactions.len(), 1);
}

/// Aborting clears the committed mark of a party that had already
/// committed, the instant the pair is cancelled.
#[test]
fn cancel_clears_committed_mark() {
    let mut m = Market::new(0, 1);
    m.handle(MarketMessages::RegisterActor(1));
    m.handle(MarketMessages::RegisterActor(2));
    let buy = order(0, 1, 0, 50, 1);
    let sell = order(0, 2, 0, 40, 1);
    m.handle(MarketMessages::MatchRequest(buy, sell));
    m.handle(MarketMessages::Commit(2));
    assert_eq!(m.committed_actors, vec![2]);
    let out = m.handle(MarketMessages::Cancel(1));
    assert_eq!(
        out,
        vec![
            Envelope::ToActor(1, ActorMessages::AbortTransaction),
            Envelope::ToActor(2, ActorMessages::AbortTransaction),
        ]
    );
    assert!(m.committed_actors.is_empty());
    assert!(m.active_transactions.is_empty());
}

/// Both freed actors get a promotion: each one's pending queue is
/// scanned on settlement, the first pair with two free parties wins.
#[test]
fn settlement_promotes_for_both_freed_actors() {
    let mut m = Market::new(0, 1);
    for id in 1..=4 {
        m.handle(MarketMessages::RegisterActor(id));
    }
    let buy_ab = order(0, 1, 0, 50, 1);
    let sell_ab = order(0, 2, 0, 40, 1);
    m.handle(MarketMessages::MatchRequest(buy_ab, sell_ab));
    // Both parties of the active pair pick up a second match.
    let buy_ac = order(1, 1, 0, 50, 1);
    let sell_ac = order(0, 3, 0, 45, 1);
    let buy_db = order(0, 4, 0, 50, 1);
    let sell_db = order(1, 2, 0, 42, 1);
    assert_eq!(m.handle(MarketMessages::MatchRequest(buy_ac, sell_ac)), vec![]);
    assert_eq!(m.handle(MarketMessages::MatchRequest(buy_db, sell_db)), vec![]);
    assert_eq!(m.pending_transactions.len(), 2);

    m.handle(MarketMessages::Commit(1));
    let out = m.handle(MarketMessages::Commit(2));
    // Two settlement notices, then the escrow requests of two promotions.
    assert_eq!(out.len(), 6);
    assert_eq!(m.pending_transactions.len(), 0);
    assert_eq!(m.active_transactions.len(), 2);
    assert_eq!(m.active_transactions[0].1, sell_ac);
    assert_eq!(m.active_transactions[1].1, sell_db);
}

/// A pending pair whose counterparty is still busy stays queued through
/// a settlement that frees only one of its parties.
#[test]
fn promotion_skips_busy_counterparty() {
    let mut m = Market::new(0, 1);
    for id in 1..=4 {
        m.handle(MarketMessages::RegisterActor(id));
    }
    m.handle(MarketMessages::MatchRequest(order(0, 1, 0, 50, 1), order(0, 2, 0, 40, 1)));
    m.handle(MarketMessages::MatchRequest(order(0, 3, 0, 50, 1), order(0, 4, 0, 40, 1)));
    // C is busy with D, so this pair waits even after A-B settles.
    let buy_ac = order(1, 1, 0, 50, 1);
    let sell_ac = order(1, 3, 0, 45, 1);
    m.handle(MarketMessages::MatchRequest(buy_ac, sell_ac));
    m.handle(MarketMessages::Commit(1));
    m.handle(MarketMessages::Commit(2));
    assert_eq!(m.pending_transactions, vec![(buy_ac, sell_ac)]);
    // Once C-D settles too, the A-C pair is promoted.
    m.handle(MarketMessages::Commit(3));
    let out = m.handle(MarketMessages::Commit(4));
    assert_eq!(out.len(), 4);
    assert_eq!(m.pending_transactions.len(), 0);
    assert_eq!(m.active_transactions.len(), 1);
}

/// A settled fill is capped to the smaller quantity at the seller's
/// price: the exact escrow amount asked of the buyer.
#[test]
fn fill_capped_to_smaller_quantity() {
    let mut m = Market::new(0, 1);
    m.handle(MarketMessages::RegisterActor(1));
    m.handle(MarketMessages::RegisterActor(2));
    let buy = order(0, 1, 0, 10, 7);
    let sell = order(0, 2, 0, 8, 3);
    let out = m.handle(MarketMessages::MatchRequest(buy, sell));
    assert_eq!(
        out[0],
        Envelope::ToActor(
            1,
            ActorMessages::MoneyRequest(exchange::messages::MoneyRequest { market_id: 0, amount: 24 }),
        )
    );
    let active = m.active_transactions[0];
    assert_eq!(active.0, order(0, 1, 0, 8, 3));
    assert_eq!(active.1, order(0, 2, 0, 8, 3));
}

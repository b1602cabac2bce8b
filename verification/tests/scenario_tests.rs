//! End-to-end protocol runs: teller match, market two-phase commit, and
//! actor escrow driven by hand through the message handlers.

use exchange::actor::Actor;
use exchange::market::Market;
use exchange::messages::{ActorMessages, Envelope, MarketMessages, MoneyRequest, StockRequest,
    TransactionRequest};
use exchange::teller::Teller;

fn order(
    transaction_id: usize,
    actor_id: usize,
    stock_id: usize,
    price: usize,
    quantity: usize,
) -> TransactionRequest {
    TransactionRequest { transaction_id, actor_id, stock_id, price, quantity }
}

/// A buyer and a seller whose prices cross settle at the seller's price:
/// money and stock swap atomically.
#[test]
fn scenario_full_settlement() {
    let mut market = Market::new(0, 1);
    let mut teller = Teller::new(0, 0);
    let mut a = Actor::new(1, 100, vec![0]);
    let mut b = Actor::new(2, 100, vec![0]);
    b.add_stock((0, 2));

    market.handle(MarketMessages::RegisterActor(1));
    market.handle(MarketMessages::RegisterActor(2));

    // A's buy order travels to the teller and queues unmatched.
    let buy = order(0, 1, 0, 50, 1);
    let out = market.handle(MarketMessages::BuyRequest(buy));
    assert_eq!(out, vec![Envelope::ToTeller(0, exchange::messages::TellerMessages::BuyRequest(buy))]);
    let out = teller.handle(exchange::messages::TellerMessages::BuyRequest(buy));
    assert_eq!(out, vec![]);

    // B's sell order matches it; the pair travels to the market.
    let sell = order(0, 2, 0, 40, 1);
    let out = teller.handle(exchange::messages::TellerMessages::SellRequest(sell));
    assert_eq!(out, vec![Envelope::ToMarket(0, MarketMessages::MatchRequest(buy, sell))]);

    // The market activates the pair at the seller's price.
    let out = market.handle(MarketMessages::MatchRequest(buy, sell));
    assert_eq!(
        out,
        vec![
            Envelope::ToActor(1, ActorMessages::MoneyRequest(MoneyRequest { market_id: 0, amount: 40 })),
            Envelope::ToActor(
                2,
                ActorMessages::StockRequest(StockRequest { market_id: 0, stock_id: 0, quantity: 1 }),
            ),
        ]
    );

    // Both actors escrow and commit.
    let out = a.handle(ActorMessages::MoneyRequest(MoneyRequest { market_id: 0, amount: 40 }));
    assert_eq!(out, vec![Envelope::ToMarket(0, MarketMessages::Commit(1))]);
    assert_eq!(a.money, 60);
    assert_eq!(a.pending_money, 40);
    let out = b.handle(ActorMessages::StockRequest(StockRequest {
        market_id: 0,
        stock_id: 0,
        quantity: 1,
    }));
    assert_eq!(out, vec![Envelope::ToMarket(0, MarketMessages::Commit(2))]);
    assert_eq!(b.pending_stock, (0, 1));

    // First commit alone settles nothing.
    let out = market.handle(MarketMessages::Commit(1));
    assert_eq!(out, vec![]);

    // The second commit settles: each actor gets the counterparty's
    // finalized request.
    let settled_buy = order(0, 1, 0, 40, 1);
    let settled_sell = order(0, 2, 0, 40, 1);
    let out = market.handle(MarketMessages::Commit(2));
    assert_eq!(
        out,
        vec![
            Envelope::ToActor(1, ActorMessages::CommitTransaction(settled_sell)),
            Envelope::ToActor(2, ActorMessages::CommitTransaction(settled_buy)),
        ]
    );
    a.handle(ActorMessages::CommitTransaction(settled_sell));
    b.handle(ActorMessages::CommitTransaction(settled_buy));

    // A paid 40 for one unit; B earned 40 and kept one unit.
    assert_eq!(a.money, 60);
    assert_eq!(a.stocks.get(&0), Some(&1));
    assert_eq!(a.pending_money, 0);
    assert_eq!(b.money, 140);
    assert_eq!(b.stocks.get(&0), Some(&1));
    assert_eq!(b.pending_stock, (0, 0));

    // The settlement is on the books.
    assert_eq!(market.history.transaction_count(0), 1);
    assert_eq!(market.history.last_sold_price(0), Some(40));
    assert!(market.active_transactions.is_empty());
    assert!(market.committed_actors.is_empty());
}

/// A buy under the only queued sell price stays queued; a later cheaper
/// sell from a third actor fills it at the new seller's price.
#[test]
fn scenario_no_cross_then_later_match() {
    let mut teller = Teller::new(0, 0);
    let buy_a = order(0, 1, 0, 50, 5);
    let sell_b = order(0, 2, 0, 60, 5);

    let out = teller.handle(exchange::messages::TellerMessages::BuyRequest(buy_a));
    assert_eq!(out, vec![]);
    // Buy price 50 < sell price 60: no match, both stay queued.
    let out = teller.handle(exchange::messages::TellerMessages::SellRequest(sell_b));
    assert_eq!(out, vec![]);
    assert_eq!(teller.buy_requests.len(), 1);
    assert_eq!(teller.sell_requests.len(), 1);

    // C's cheaper sell fills A's original buy.
    let sell_c = order(0, 3, 0, 45, 5);
    let out = teller.handle(exchange::messages::TellerMessages::SellRequest(sell_c));
    assert_eq!(out, vec![Envelope::ToMarket(0, MarketMessages::MatchRequest(buy_a, sell_c))]);
    assert_eq!(teller.buy_requests.len(), 0);
    // B's overpriced sell is still on the book.
    assert_eq!(teller.sell_requests, vec![sell_b]);

    // Settlement would happen at C's price of 45.
    let mut market = Market::new(0, 1);
    market.handle(MarketMessages::RegisterActor(1));
    market.handle(MarketMessages::RegisterActor(3));
    let out = market.handle(MarketMessages::MatchRequest(buy_a, sell_c));
    assert_eq!(
        out,
        vec![
            Envelope::ToActor(1, ActorMessages::MoneyRequest(MoneyRequest { market_id: 0, amount: 225 })),
            Envelope::ToActor(
                3,
                ActorMessages::StockRequest(StockRequest { market_id: 0, stock_id: 0, quantity: 5 }),
            ),
        ]
    );
}

/// A buyer without the funds declines; the market aborts both sides and
/// both wallets end exactly as they began.
#[test]
fn scenario_insufficient_funds_aborts() {
    let mut market = Market::new(0, 1);
    let mut a = Actor::new(1, 10, vec![0]);
    let mut b = Actor::new(2, 100, vec![0]);
    b.add_stock((0, 2));

    market.handle(MarketMessages::RegisterActor(1));
    market.handle(MarketMessages::RegisterActor(2));

    let buy = order(0, 1, 0, 50, 1);
    let sell = order(0, 2, 0, 40, 1);
    let out = market.handle(MarketMessages::MatchRequest(buy, sell));
    assert_eq!(out.len(), 2);

    // B escrows its stock and commits; A cannot cover 40 and cancels.
    let out = b.handle(ActorMessages::StockRequest(StockRequest {
        market_id: 0,
        stock_id: 0,
        quantity: 1,
    }));
    assert_eq!(out, vec![Envelope::ToMarket(0, MarketMessages::Commit(2))]);
    assert_eq!(b.stocks.get(&0), Some(&1));
    assert_eq!(b.pending_stock, (0, 1));
    let out = a.handle(ActorMessages::MoneyRequest(MoneyRequest { market_id: 0, amount: 40 }));
    assert_eq!(out, vec![Envelope::ToMarket(0, MarketMessages::Cancel(1))]);

    market.handle(MarketMessages::Commit(2));
    let out = market.handle(MarketMessages::Cancel(1));
    assert_eq!(
        out,
        vec![
            Envelope::ToActor(1, ActorMessages::AbortTransaction),
            Envelope::ToActor(2, ActorMessages::AbortTransaction),
        ]
    );
    a.handle(ActorMessages::AbortTransaction);
    b.handle(ActorMessages::AbortTransaction);

    // Both reservations are zero and both wallets are unchanged.
    assert_eq!(a.money, 10);
    assert_eq!(a.pending_money, 0);
    assert_eq!(a.stocks.get(&0), None);
    assert_eq!(b.money, 100);
    assert_eq!(b.pending_stock.1, 0);
    assert_eq!(b.stocks.get(&0), Some(&2));
    assert!(market.active_transactions.is_empty());
    assert!(market.committed_actors.is_empty());
    assert_eq!(market.history.transaction_count(0), 0);
}

/// A second match for a busy actor queues as pending and is promoted,
/// without a new teller match, once the first pair settles.
#[test]
fn scenario_pending_promotion() {
    let mut market = Market::new(0, 1);
    market.handle(MarketMessages::RegisterActor(1));
    market.handle(MarketMessages::RegisterActor(2));
    market.handle(MarketMessages::RegisterActor(3));

    let buy_ab = order(0, 1, 0, 50, 1);
    let sell_ab = order(0, 2, 0, 40, 1);
    let out = market.handle(MarketMessages::MatchRequest(buy_ab, sell_ab));
    assert_eq!(out.len(), 2);
    assert_eq!(market.active_transactions.len(), 1);

    // A is mid-transaction, so the (A, C) match is queued, not dropped.
    let buy_ac = order(1, 1, 0, 60, 1);
    let sell_ac = order(0, 3, 0, 55, 1);
    let out = market.handle(MarketMessages::MatchRequest(buy_ac, sell_ac));
    assert_eq!(out, vec![]);
    assert_eq!(market.pending_transactions.len(), 1);
    assert_eq!(market.active_transactions.len(), 1);

    // A-B settles; the A-C pair is promoted to active in the same step.
    market.handle(MarketMessages::Commit(1));
    let out = market.handle(MarketMessages::Commit(2));
    let settled_buy = order(0, 1, 0, 40, 1);
    let settled_sell = order(0, 2, 0, 40, 1);
    assert_eq!(
        out,
        vec![
            Envelope::ToActor(1, ActorMessages::CommitTransaction(settled_sell)),
            Envelope::ToActor(2, ActorMessages::CommitTransaction(settled_buy)),
            Envelope::ToActor(1, ActorMessages::MoneyRequest(MoneyRequest { market_id: 0, amount: 55 })),
            Envelope::ToActor(
                3,
                ActorMessages::StockRequest(StockRequest { market_id: 0, stock_id: 0, quantity: 1 }),
            ),
        ]
    );
    assert_eq!(market.pending_transactions.len(), 0);
    assert_eq!(market.active_transactions.len(), 1);
    let promoted = market.active_transactions[0];
    assert_eq!(promoted.0, order(1, 1, 0, 55, 1));
    assert_eq!(promoted.1, sell_ac);
}

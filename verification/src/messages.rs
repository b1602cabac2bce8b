//! The message vocabulary of the exchange and the shared trade history.
//!
//! Every component owns one inbound queue carrying a closed tagged-variant
//! type: `MarketMessages`, `ActorMessages` or `TellerMessages`.  An
//! `Envelope` is one outbound message together with its destination; the
//! verified handlers return envelopes instead of sending on channels.

use std::collections::HashMap;
use vstd::prelude::*;

verus! {

/// An order: one actor's intent to buy or sell a quantity of one
/// instrument at a unit price.  `transaction_id` is unique per issuing
/// actor and used for later revocation.
#[derive(Clone, Copy, PartialEq, Eq, Structural, Debug)]
pub struct TransactionRequest {
    pub transaction_id: usize,
    pub actor_id: usize,
    pub stock_id: usize,
    pub price: usize,
    pub quantity: usize,
}

/// A market's request that the seller escrow `quantity` units of
/// `stock_id` pending settlement.
#[derive(Clone, Copy, PartialEq, Eq, Structural, Debug)]
pub struct StockRequest {
    pub market_id: usize,
    pub stock_id: usize,
    pub quantity: usize,
}

/// A market's request that the buyer escrow `amount` of money pending
/// settlement.
#[derive(Clone, Copy, PartialEq, Eq, Structural, Debug)]
pub struct MoneyRequest {
    pub market_id: usize,
    pub amount: usize,
}

/// Messages a market receives.
#[derive(Clone, Copy, PartialEq, Eq, Structural, Debug)]
pub enum MarketMessages {
    /// Requesting actor id, stock id, buying side.
    RequestActivityCount(usize, usize, bool),
    SellRequest(TransactionRequest),
    BuyRequest(TransactionRequest),
    /// The actor with this id has escrowed what was asked of it.
    Commit(usize),
    /// The actor with this id declines its reservation request.
    Cancel(usize),
    /// An actor announces itself; its reply channel is kept outside the
    /// verified core, so only the id travels here.
    RegisterActor(usize),
    /// Teller-to-market: a matched (buyer's request, seller's request) pair.
    MatchRequest(TransactionRequest, TransactionRequest),
}

/// Messages an actor receives.  The `History` and `Stop` payloads of the
/// running system are a shared handle and a reply channel; both stay with
/// the unverified shell, so the variants carry no data here.
#[derive(Clone, Copy, PartialEq, Eq, Structural, Debug)]
pub enum ActorMessages {
    /// Stock id, buying side, queue length.
    ReceiveActivityCount(usize, bool, usize),
    StockRequest(StockRequest),
    MoneyRequest(MoneyRequest),
    /// The counterparty's finalized request: exact settled price/quantity.
    CommitTransaction(TransactionRequest),
    AbortTransaction,
    History,
    /// Current time, max time.
    Time(usize, usize),
    Stop,
}

/// Messages a teller receives.
#[derive(Clone, Copy, PartialEq, Eq, Structural, Debug)]
pub enum TellerMessages {
    /// Requesting actor id, buying side.
    RequestCount(usize, bool),
    SellRequest(TransactionRequest),
    BuyRequest(TransactionRequest),
    /// Actor id, transaction id (unique to a single actor).
    RevokeRequest(usize, usize),
}

/// One outbound message with its destination: what a component would
/// send, returned as a value so that handling stays verifiable.
#[derive(Clone, Copy, PartialEq, Eq, Structural, Debug)]
pub enum Envelope {
    ToMarket(usize, MarketMessages),
    ToActor(usize, ActorMessages),
    ToTeller(usize, TellerMessages),
}

/// An optional reply as the sequence of messages actually sent.
pub open spec fn reply_seq(reply: Option<Envelope>) -> Seq<Envelope> {
    match reply {
        Some(e) => seq![e],
        None => Seq::empty(),
    }
}

/// Mathematical shape of the trade history: settled (buy, sell) pairs per
/// instrument, and the set of instruments this market trades.
#[verifier::ext_equal]
pub ghost struct MarketHistoryView {
    pub history: Map<usize, Seq<(TransactionRequest, TransactionRequest)>>,
    pub stocks: Seq<usize>,
}

/// Append-only log of settled (buyer, seller) pairs keyed by instrument,
/// read by trading policies for price discovery.
pub struct MarketHistory {
    pub history: HashMap<usize, Vec<(TransactionRequest, TransactionRequest)>>,
    pub stocks: Vec<usize>,
}

impl View for MarketHistory {
    type V = MarketHistoryView;

    open spec fn view(&self) -> MarketHistoryView {
        MarketHistoryView {
            history: Map::new(
                |k: usize| self.history@.contains_key(k),
                |k: usize| self.history@[k]@,
            ),
            stocks: self.stocks@,
        }
    }
}

/// The settled pairs recorded for one instrument, oldest first.
pub open spec fn recorded_trades(
    h: MarketHistoryView,
    stock_id: usize,
) -> Seq<(TransactionRequest, TransactionRequest)> {
    if h.history.contains_key(stock_id) {
        h.history[stock_id]
    } else {
        Seq::empty()
    }
}

/// `h` after one settled pair is appended under its instrument.
pub open spec fn history_with(
    h: MarketHistoryView,
    stock_id: usize,
    pair: (TransactionRequest, TransactionRequest),
) -> MarketHistoryView {
    MarketHistoryView {
        history: h.history.insert(stock_id, recorded_trades(h, stock_id).push(pair)),
        stocks: h.stocks,
    }
}

impl MarketHistory {
    /// A history with no trades and no instruments.
    pub fn new() -> (h: MarketHistory)
        ensures
            h@.history == Map::<usize, Seq<(TransactionRequest, TransactionRequest)>>::empty(),
            h@.stocks == Seq::<usize>::empty(),
    {
        let h = MarketHistory { history: HashMap::new(), stocks: Vec::new() };
        proof {
            assert(h@.history =~= Map::<
                usize,
                Seq<(TransactionRequest, TransactionRequest)>,
            >::empty());
        }
        h
    }

    /// How many instruments have at least one recorded trade.
    pub fn len(&self) -> (n: usize)
        ensures
            n == self@.history.dom().len(),
    {
        proof {
            assert(self@.history.dom() =~= self.history@.dom());
        }
        self.history.len()
    }

    /// How many trades are recorded for `stock_id`.
    pub fn transaction_count(&self, stock_id: usize) -> (n: usize)
        ensures
            n == recorded_trades(self@, stock_id).len(),
    {
        match self.history.get(&stock_id) {
            Some(transactions) => transactions.len(),
            None => 0,
        }
    }

    /// The most recent settled (buy, sell) pair for `stock_id`, if any.
    pub fn last_transaction_for_stock(&self, stock_id: usize) -> (r: Option<
        (TransactionRequest, TransactionRequest),
    >)
        ensures
            r == (if recorded_trades(self@, stock_id).len() > 0 {
                Some(recorded_trades(self@, stock_id).last())
            } else {
                None::<(TransactionRequest, TransactionRequest)>
            }),
    {
        match self.history.get(&stock_id) {
            Some(transactions) => {
                if transactions.len() > 0 {
                    Some(transactions[transactions.len() - 1])
                } else {
                    None
                }
            },
            None => None,
        }
    }

    /// The price of the most recent trade for `stock_id`, if any.
    pub fn last_sold_price(&self, stock_id: usize) -> (r: Option<usize>)
        ensures
            r == (if recorded_trades(self@, stock_id).len() > 0 {
                Some(recorded_trades(self@, stock_id).last().0.price)
            } else {
                None::<usize>
            }),
    {
        match self.last_transaction_for_stock(stock_id) {
            Some(pair) => Some(pair.0.price),
            None => None,
        }
    }

    /// Whether the last trade was dearer than the one before it.  With
    /// fewer than two recorded trades there is no trend and this is false.
    pub fn increasing(&self, stock_id: usize) -> (r: bool)
        ensures
            r == (recorded_trades(self@, stock_id).len() > 1 && recorded_trades(
                self@,
                stock_id,
            ).last().0.price > recorded_trades(self@, stock_id)[recorded_trades(
                self@,
                stock_id,
            ).len() - 2].0.price),
    {
        match self.history.get(&stock_id) {
            Some(transactions) => {
                if transactions.len() > 1 {
                    transactions[transactions.len() - 1].0.price > transactions[transactions.len()
                        - 2].0.price
                } else {
                    false
                }
            },
            None => false,
        }
    }

    /// Whether the last trade was cheaper than the one before it.  With
    /// fewer than two recorded trades there is no trend and this is false.
    pub fn decreasing(&self, stock_id: usize) -> (r: bool)
        ensures
            r == (recorded_trades(self@, stock_id).len() > 1 && recorded_trades(
                self@,
                stock_id,
            ).last().0.price < recorded_trades(self@, stock_id)[recorded_trades(
                self@,
                stock_id,
            ).len() - 2].0.price),
    {
        match self.history.get(&stock_id) {
            Some(transactions) => {
                if transactions.len() > 1 {
                    transactions[transactions.len() - 1].0.price < transactions[transactions.len()
                        - 2].0.price
                } else {
                    false
                }
            },
            None => false,
        }
    }

    /// How many trades are recorded for `stock_id` (each trade in this
    /// market sells one lot, so the count doubles as quantity sold).
    pub fn quantity_sold(&self, stock_id: usize) -> (n: usize)
        ensures
            n == recorded_trades(self@, stock_id).len(),
    {
        match self.history.get(&stock_id) {
            Some(transactions) => transactions.len(),
            None => 0,
        }
    }

    /// Whether `stock_id` last traded at or under `price`.  Requires an
    /// established price trend: at least two recorded trades.
    pub fn can_purchase(&self, stock_id: usize, price: usize) -> (r: bool)
        ensures
            r == (recorded_trades(self@, stock_id).len() > 1 && recorded_trades(
                self@,
                stock_id,
            ).last().0.price <= price),
    {
        match self.history.get(&stock_id) {
            Some(transactions) => {
                if transactions.len() > 1 {
                    transactions[transactions.len() - 1].0.price <= price
                } else {
                    false
                }
            },
            None => false,
        }
    }

    /// Record one settled (buyer, seller) pair under its instrument.
    pub fn append(&mut self, stock_id: usize, pair: (TransactionRequest, TransactionRequest))
        ensures
            final(self)@ == history_with(old(self)@, stock_id, pair),
    {
        let ghost pre = self@;
        match self.history.remove(&stock_id) {
            Some(mut transactions) => {
                transactions.push(pair);
                self.history.insert(stock_id, transactions);
            },
            None => {
                let mut transactions: Vec<(TransactionRequest, TransactionRequest)> = Vec::new();
                transactions.push(pair);
                self.history.insert(stock_id, transactions);
            },
        }
        proof {
            assert(self@.history =~= history_with(pre, stock_id, pair).history);
            assert(self@ =~= history_with(pre, stock_id, pair));
        }
    }
}

} // verus!

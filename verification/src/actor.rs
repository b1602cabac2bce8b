//! The trading agent's wallet and two-phase reservation engine.
//!
//! An actor holds money and stock and serves at most one reservation at a
//! time.  Asked to escrow money or stock it either sets the value aside
//! and replies `Commit`, or replies `Cancel` (collision with an existing
//! reservation, or insufficient funds/holdings).  On `CommitTransaction`
//! it converts the reservation into the settled proceeds; on
//! `AbortTransaction` it returns the reservation to the wallet untouched.

use std::collections::HashMap;
use vstd::prelude::*;

use crate::messages::{ActorMessages, Envelope, MarketMessages, MoneyRequest, StockRequest,
    TransactionRequest, reply_seq};

verus! {

/// Mathematical shape of an actor: the wallet, the (at most one)
/// outstanding reservation, and the markets it is registered with.
#[verifier::ext_equal]
pub ghost struct ActorView {
    pub id: usize,
    pub money: usize,
    pub stocks: Map<usize, usize>,
    pub pending_money: usize,
    /// Reserved stock as (stock id, quantity); empty when quantity is 0.
    pub pending_stock: (usize, usize),
    pub markets: Seq<usize>,
}

/// A trading agent: wallet, reservation state, and known market ids.
pub struct Actor {
    pub id: usize,
    pub money: usize,
    pub stocks: HashMap<usize, usize>,
    pub pending_money: usize,
    /// Reserved stock as (stock id, quantity); empty when quantity is 0.
    pub pending_stock: (usize, usize),
    pub markets: Vec<usize>,
}

impl View for Actor {
    type V = ActorView;

    open spec fn view(&self) -> ActorView {
        ActorView {
            id: self.id,
            money: self.money,
            stocks: self.stocks@,
            pending_money: self.pending_money,
            pending_stock: self.pending_stock,
            markets: self.markets@,
        }
    }
}

/// Units of `stock_id` available in `stocks` (absent keys hold none).
pub open spec fn stock_count(stocks: Map<usize, usize>, stock_id: usize) -> usize {
    if stocks.contains_key(stock_id) {
        stocks[stock_id]
    } else {
        0
    }
}

/// `stocks` with `quantity` more units of `stock_id`.
pub open spec fn stocks_with(stocks: Map<usize, usize>, stock_id: usize, quantity: usize) -> Map<
    usize,
    usize,
> {
    stocks.insert(stock_id, (stock_count(stocks, stock_id) + quantity) as usize)
}

/// `stocks` with `quantity` fewer units of `stock_id`; absent keys are
/// left untouched.
pub open spec fn stocks_without(stocks: Map<usize, usize>, stock_id: usize, quantity: usize) -> Map<
    usize,
    usize,
> {
    if stocks.contains_key(stock_id) {
        stocks.insert(stock_id, (stocks[stock_id] - quantity) as usize)
    } else {
        stocks
    }
}

/// `a` with its stock holdings replaced, everything else unchanged.
pub open spec fn with_stocks(a: ActorView, stocks: Map<usize, usize>) -> ActorView {
    ActorView { stocks, ..a }
}

/// Whether some reservation (money or stock) is outstanding.
pub open spec fn has_pending(a: ActorView) -> bool {
    a.pending_money > 0 || a.pending_stock.1 > 0
}

/// The collision-avoidance invariant: at most one of the money and the
/// stock reservation is nonzero at any time.
pub open spec fn single_reservation(a: ActorView) -> bool {
    !(a.pending_money > 0 && a.pending_stock.1 > 0)
}

/// Money owned in total: available plus reserved.
pub open spec fn total_money(a: ActorView) -> int {
    a.money + a.pending_money
}

/// Stock of one instrument owned in total: available plus reserved.
pub open spec fn total_stock(a: ActorView, stock_id: usize) -> int {
    stock_count(a.stocks, stock_id) + (if a.pending_stock.0 == stock_id {
        a.pending_stock.1 as int
    } else {
        0
    })
}

/// The reply sent back to a market.
pub open spec fn reply_to(market_id: usize, msg: MarketMessages) -> Envelope {
    Envelope::ToMarket(market_id, msg)
}

/// One step of the stock-reservation request: reserve and reply `Commit`,
/// or reply `Cancel` on a collision or insufficient holdings.  A request
/// from an unknown market is dropped.
pub open spec fn spec_stock_request(a: ActorView, request: StockRequest) -> (ActorView, Option<
    Envelope,
>) {
    if !a.markets.contains(request.market_id) {
        (a, None::<Envelope>)
    } else if has_pending(a) {
        (a, Some(reply_to(request.market_id, MarketMessages::Cancel(a.id))))
    } else if a.stocks.contains_key(request.stock_id) && a.stocks[request.stock_id]
        >= request.quantity {
        (
            ActorView {
                stocks: stocks_without(a.stocks, request.stock_id, request.quantity),
                pending_stock: (request.stock_id, request.quantity),
                ..a
            },
            Some(reply_to(request.market_id, MarketMessages::Commit(a.id))),
        )
    } else {
        (a, Some(reply_to(request.market_id, MarketMessages::Cancel(a.id))))
    }
}

/// One step of the money-reservation request: reserve and reply `Commit`,
/// or reply `Cancel` on a collision or insufficient funds.  A request
/// from an unknown market is dropped.
pub open spec fn spec_money_request(a: ActorView, request: MoneyRequest) -> (ActorView, Option<
    Envelope,
>) {
    if !a.markets.contains(request.market_id) {
        (a, None::<Envelope>)
    } else if has_pending(a) {
        (a, Some(reply_to(request.market_id, MarketMessages::Cancel(a.id))))
    } else if a.money >= request.amount {
        (
            ActorView {
                money: (a.money - request.amount) as usize,
                pending_money: request.amount,
                ..a
            },
            Some(reply_to(request.market_id, MarketMessages::Commit(a.id))),
        )
    } else {
        (a, Some(reply_to(request.market_id, MarketMessages::Cancel(a.id))))
    }
}

/// Settlement of the outstanding reservation against the counterparty's
/// finalized request.  A money reservation buys `settled.quantity` units
/// and returns the unspent remainder; a stock reservation earns
/// `price * quantity` and returns any unsold units.
pub open spec fn spec_commit_transaction(a: ActorView, settled: TransactionRequest) -> ActorView {
    let cost = settled.price * settled.quantity;
    if a.pending_money > 0 {
        ActorView {
            money: (a.money + a.pending_money - cost) as usize,
            stocks: stocks_with(a.stocks, settled.stock_id, settled.quantity),
            pending_money: 0,
            ..a
        }
    } else if a.pending_stock.1 > 0 {
        let leftover = (a.pending_stock.1 - settled.quantity) as usize;
        ActorView {
            money: (a.money + cost) as usize,
            stocks: if leftover > 0 {
                stocks_with(a.stocks, settled.stock_id, leftover)
            } else {
                a.stocks
            },
            pending_stock: (0usize, 0usize),
            ..a
        }
    } else {
        a
    }
}

/// Rollback: any outstanding reservation is returned to the wallet.
pub open spec fn spec_abort_transaction(a: ActorView) -> ActorView {
    let a1 = if a.pending_stock.1 != 0 {
        ActorView {
            stocks: stocks_with(a.stocks, a.pending_stock.0, a.pending_stock.1),
            pending_stock: (0usize, 0usize),
            ..a
        }
    } else {
        a
    };
    if a1.pending_money > 0 {
        ActorView { money: (a1.money + a1.pending_money) as usize, pending_money: 0, ..a1 }
    } else {
        a1
    }
}

/// Machine-limit bounds under which settlement cannot underflow or
/// overflow: the reservation is an upper bound of the settlement cost and
/// the credited totals fit in `usize`.
pub open spec fn commit_ok(a: ActorView, settled: TransactionRequest) -> bool {
    let cost = settled.price * settled.quantity;
    &&& single_reservation(a)
    &&& (a.pending_money > 0 ==> cost <= a.pending_money && a.money + a.pending_money - cost
        <= usize::MAX && stock_count(a.stocks, settled.stock_id) + settled.quantity <= usize::MAX)
    &&& (a.pending_stock.1 > 0 ==> a.pending_stock.0 == settled.stock_id && settled.quantity
        <= a.pending_stock.1 && a.money + cost <= usize::MAX && stock_count(
        a.stocks,
        settled.stock_id,
    ) + (a.pending_stock.1 - settled.quantity) <= usize::MAX)
}

/// Machine-limit bounds under which rollback cannot overflow.
pub open spec fn abort_ok(a: ActorView) -> bool {
    &&& (a.pending_stock.1 != 0 ==> stock_count(a.stocks, a.pending_stock.0) + a.pending_stock.1
        <= usize::MAX)
    &&& (a.pending_money > 0 ==> a.money + a.pending_money <= usize::MAX)
}

/// One step of the actor on any inbound message: the new state and the
/// replies it sends.  Activity counts, history, time and stop carry no
/// wallet effect in the core; the policy layer outside reads them.
pub open spec fn spec_actor_step(a: ActorView, msg: ActorMessages) -> (ActorView, Seq<Envelope>) {
    match msg {
        ActorMessages::StockRequest(request) => {
            let (a2, reply) = spec_stock_request(a, request);
            (a2, reply_seq(reply))
        },
        ActorMessages::MoneyRequest(request) => {
            let (a2, reply) = spec_money_request(a, request);
            (a2, reply_seq(reply))
        },
        ActorMessages::CommitTransaction(settled) => (
            spec_commit_transaction(a, settled),
            Seq::empty(),
        ),
        ActorMessages::AbortTransaction => (spec_abort_transaction(a), Seq::empty()),
        _ => (a, Seq::empty()),
    }
}

/// The bounds `spec_actor_step` needs for the given message.
pub open spec fn actor_msg_ok(a: ActorView, msg: ActorMessages) -> bool {
    match msg {
        ActorMessages::CommitTransaction(settled) => commit_ok(a, settled),
        ActorMessages::AbortTransaction => abort_ok(a),
        _ => true,
    }
}

impl Actor {
    /// A fresh actor holding `money` and no stock, registered with the
    /// given markets.
    pub fn new(id: usize, money: usize, markets: Vec<usize>) -> (a: Actor)
        ensures
            a@.id == id,
            a@.money == money,
            a@.stocks == Map::<usize, usize>::empty(),
            a@.pending_money == 0,
            a@.pending_stock == (0usize, 0usize),
            a@.markets == markets@,
    {
        let a = Actor {
            id,
            money,
            stocks: HashMap::new(),
            pending_money: 0,
            pending_stock: (0, 0),
            markets,
        };
        proof {
            assert(a@.stocks =~= Map::<usize, usize>::empty());
        }
        a
    }

    /// Whether some reservation (money or stock) is outstanding.
    pub fn has_pending_transaction(&self) -> (r: bool)
        ensures
            r == has_pending(self@),
    {
        self.pending_money > 0 || self.pending_stock.1 > 0
    }

    /// Whether this actor is registered with the market `market_id`.
    pub fn knows_market(&self, market_id: usize) -> (r: bool)
        ensures
            r == self@.markets.contains(market_id),
    {
        let mut i: usize = 0;
        while i < self.markets.len()
            invariant
                i <= self.markets.len(),
                forall|j: int| 0 <= j < i ==> self.markets@[j] != market_id,
            decreases self.markets.len() - i,
        {
            if self.markets[i] == market_id {
                return true;
            }
            i = i + 1;
        }
        false
    }

    /// Add `stock_to_add.1` units of stock `stock_to_add.0` to holdings.
    pub fn add_stock(&mut self, stock_to_add: (usize, usize))
        requires
            stock_count(old(self)@.stocks, stock_to_add.0) + stock_to_add.1 <= usize::MAX,
        ensures
            final(self)@ == with_stocks(
                old(self)@,
                stocks_with(old(self)@.stocks, stock_to_add.0, stock_to_add.1),
            ),
    {
        let current: usize = match self.stocks.get(&stock_to_add.0) {
            Some(count) => *count,
            None => 0,
        };
        self.stocks.insert(stock_to_add.0, current + stock_to_add.1);
    }

    /// Remove `stock_to_remove.1` units of stock `stock_to_remove.0` from
    /// holdings; holdings of an unknown stock are left untouched.
    pub fn remove_stock(&mut self, stock_to_remove: (usize, usize))
        requires
            old(self)@.stocks.contains_key(stock_to_remove.0) ==> stock_to_remove.1 <= old(
                self,
            )@.stocks[stock_to_remove.0],
        ensures
            final(self)@ == with_stocks(
                old(self)@,
                stocks_without(old(self)@.stocks, stock_to_remove.0, stock_to_remove.1),
            ),
    {
        match self.stocks.get(&stock_to_remove.0) {
            Some(count) => {
                let remaining: usize = *count - stock_to_remove.1;
                self.stocks.insert(stock_to_remove.0, remaining);
            },
            None => {},
        }
    }

    /// Serve a stock-reservation request: escrow the stock and reply
    /// `Commit`, or reply `Cancel` on collision or insufficient holdings.
    pub fn on_stock_request(&mut self, request: StockRequest) -> (r: Option<Envelope>)
        ensures
            final(self)@ == spec_stock_request(old(self)@, request).0,
            r == spec_stock_request(old(self)@, request).1,
            total_money(final(self)@) == total_money(old(self)@),
            forall|sid: usize| total_stock(final(self)@, sid) == total_stock(old(self)@, sid),
    {
        proof {
            lemma_stock_escrow_conserves(old(self)@, request);
        }
        if !self.knows_market(request.market_id) {
            return None;
        }
        if self.has_pending_transaction() {
            return Some(Envelope::ToMarket(request.market_id, MarketMessages::Cancel(self.id)));
        }
        let owned: Option<usize> = match self.stocks.get(&request.stock_id) {
            Some(count) => Some(*count),
            None => None,
        };
        match owned {
            Some(owned_quantity) => {
                if owned_quantity >= request.quantity {
                    self.remove_stock((request.stock_id, request.quantity));
                    self.pending_stock = (request.stock_id, request.quantity);
                    Some(Envelope::ToMarket(request.market_id, MarketMessages::Commit(self.id)))
                } else {
                    Some(Envelope::ToMarket(request.market_id, MarketMessages::Cancel(self.id)))
                }
            },
            None => Some(Envelope::ToMarket(request.market_id, MarketMessages::Cancel(self.id))),
        }
    }

    /// Serve a money-reservation request: escrow the amount and reply
    /// `Commit`, or reply `Cancel` on collision or insufficient funds.
    pub fn on_money_request(&mut self, request: MoneyRequest) -> (r: Option<Envelope>)
        ensures
            final(self)@ == spec_money_request(old(self)@, request).0,
            r == spec_money_request(old(self)@, request).1,
            total_money(final(self)@) == total_money(old(self)@),
            forall|sid: usize| total_stock(final(self)@, sid) == total_stock(old(self)@, sid),
    {
        proof {
            lemma_money_escrow_conserves(old(self)@, request);
        }
        if !self.knows_market(request.market_id) {
            return None;
        }
        if self.has_pending_transaction() {
            return Some(Envelope::ToMarket(request.market_id, MarketMessages::Cancel(self.id)));
        }
        if self.money >= request.amount {
            self.money = self.money - request.amount;
            self.pending_money = request.amount;
            Some(Envelope::ToMarket(request.market_id, MarketMessages::Commit(self.id)))
        } else {
            Some(Envelope::ToMarket(request.market_id, MarketMessages::Cancel(self.id)))
        }
    }

    /// Resolve the outstanding reservation against the settled request:
    /// a money reservation becomes the purchased stock plus change, a
    /// stock reservation becomes the proceeds plus unsold units.
    pub fn on_commit_transaction(&mut self, settled: TransactionRequest)
        requires
            commit_ok(old(self)@, settled),
        ensures
            final(self)@ == spec_commit_transaction(old(self)@, settled),
    {
        if self.pending_money > 0 {
            let cost: usize = settled.price * settled.quantity;
            let leftover: usize = self.pending_money - cost;
            self.add_stock((settled.stock_id, settled.quantity));
            self.money = self.money + leftover;
            self.pending_money = 0;
        } else if self.pending_stock.1 > 0 {
            let proceeds: usize = settled.price * settled.quantity;
            let leftover: usize = self.pending_stock.1 - settled.quantity;
            if leftover > 0 {
                self.add_stock((settled.stock_id, leftover));
            }
            self.money = self.money + proceeds;
            self.pending_stock = (0, 0);
        }
    }

    /// Roll back: return any reserved stock and money to the wallet.
    pub fn on_abort_transaction(&mut self)
        requires
            abort_ok(old(self)@),
        ensures
            final(self)@ == spec_abort_transaction(old(self)@),
            total_money(final(self)@) == total_money(old(self)@),
            forall|sid: usize| total_stock(final(self)@, sid) == total_stock(old(self)@, sid),
    {
        proof {
            lemma_abort_conserves(old(self)@);
        }
        if self.pending_stock.1 != 0 {
            let pending_stock = self.pending_stock;
            self.add_stock(pending_stock);
            self.pending_stock = (0, 0);
        }
        if self.pending_money > 0 {
            self.money = self.money + self.pending_money;
            self.pending_money = 0;
        }
    }

    /// Handle one inbound message and return the replies to send.
    pub fn handle(&mut self, msg: ActorMessages) -> (out: Vec<Envelope>)
        requires
            actor_msg_ok(old(self)@, msg),
        ensures
            final(self)@ == spec_actor_step(old(self)@, msg).0,
            out@ == spec_actor_step(old(self)@, msg).1,
            single_reservation(old(self)@) ==> single_reservation(final(self)@),
    {
        proof {
            if single_reservation(self@) {
                lemma_single_reservation_preserved(self@, msg);
            }
        }
        let mut out: Vec<Envelope> = Vec::new();
        match msg {
            ActorMessages::StockRequest(request) => {
                match self.on_stock_request(request) {
                    Some(reply) => { out.push(reply) },
                    None => {},
                }
            },
            ActorMessages::MoneyRequest(request) => {
                match self.on_money_request(request) {
                    Some(reply) => { out.push(reply) },
                    None => {},
                }
            },
            ActorMessages::CommitTransaction(settled) => {
                self.on_commit_transaction(settled);
            },
            ActorMessages::AbortTransaction => {
                self.on_abort_transaction();
            },
            ActorMessages::ReceiveActivityCount(_, _, _) => {},
            ActorMessages::History => {},
            ActorMessages::Time(_, _) => {},
            ActorMessages::Stop => {},
        }
        proof {
            assert(out@ =~= spec_actor_step(old(self)@, msg).1);
        }
        out
    }
}

/// Law: escrowing money neither creates nor destroys value.  The sum of
/// available and reserved money, and every stock total, are unchanged by
/// a money-reservation step whatever the outcome.
pub proof fn lemma_money_escrow_conserves(a: ActorView, request: MoneyRequest)
    ensures
        total_money(spec_money_request(a, request).0) == total_money(a),
        forall|sid: usize|
            total_stock(spec_money_request(a, request).0, sid) == total_stock(a, sid),
{
}

/// Law: escrowing stock neither creates nor destroys value.  Every stock
/// total, and the money total, are unchanged by a stock-reservation step
/// whatever the outcome.
pub proof fn lemma_stock_escrow_conserves(a: ActorView, request: StockRequest)
    ensures
        total_money(spec_stock_request(a, request).0) == total_money(a),
        forall|sid: usize|
            total_stock(spec_stock_request(a, request).0, sid) == total_stock(a, sid),
{
}

/// Law: rollback neither creates nor destroys value.  The money total and
/// every stock total are unchanged by an abort step.
pub proof fn lemma_abort_conserves(a: ActorView)
    requires
        abort_ok(a),
    ensures
        total_money(spec_abort_transaction(a)) == total_money(a),
        forall|sid: usize| total_stock(spec_abort_transaction(a), sid) == total_stock(a, sid),
{
}

/// Law: a money reservation followed by an abort is a round trip.  An
/// idle actor that escrows money and is then told to roll back is exactly
/// the actor it was, whatever the reply was.
pub proof fn lemma_money_escrow_abort_round_trip(a: ActorView, request: MoneyRequest)
    requires
        a.pending_money == 0,
        a.pending_stock.1 == 0,
    ensures
        spec_abort_transaction(spec_money_request(a, request).0) == a,
{
    assert(spec_abort_transaction(spec_money_request(a, request).0) =~= a);
}

/// Law: a stock reservation followed by an abort is a round trip.  An
/// idle actor (no reservation recorded at all) that escrows a nonzero
/// quantity of stock and is then told to roll back is exactly the actor
/// it was.
pub proof fn lemma_stock_escrow_abort_round_trip(a: ActorView, request: StockRequest)
    requires
        a.pending_money == 0,
        a.pending_stock == (0usize, 0usize),
        request.quantity > 0,
    ensures
        spec_abort_transaction(spec_stock_request(a, request).0) == a,
{
    if a.markets.contains(request.market_id) && !has_pending(a) && a.stocks.contains_key(
        request.stock_id,
    ) && a.stocks[request.stock_id] >= request.quantity {
        assert(spec_abort_transaction(spec_stock_request(a, request).0).stocks =~= a.stocks);
    }
    assert(spec_abort_transaction(spec_stock_request(a, request).0) =~= a);
}

/// Law (conservation at settlement): when a matched pair settles, the
/// buyer's total money decreases by exactly `price * quantity`, the
/// seller's increases by the same, and `quantity` units of the instrument
/// move from seller to buyer.
pub proof fn lemma_settlement_conservation(
    buyer: ActorView,
    seller: ActorView,
    settled: TransactionRequest,
)
    requires
        buyer.pending_money > 0,
        commit_ok(buyer, settled),
        seller.pending_stock.1 > 0,
        commit_ok(seller, settled),
    ensures
        total_money(spec_commit_transaction(buyer, settled)) == total_money(buyer) - settled.price
            * settled.quantity,
        total_stock(spec_commit_transaction(buyer, settled), settled.stock_id) == total_stock(
            buyer,
            settled.stock_id,
        ) + settled.quantity,
        total_money(spec_commit_transaction(seller, settled)) == total_money(seller)
            + settled.price * settled.quantity,
        total_stock(spec_commit_transaction(seller, settled), settled.stock_id) == total_stock(
            seller,
            settled.stock_id,
        ) - settled.quantity,
{
}

/// Law: every protocol step keeps at most one reservation outstanding.
pub proof fn lemma_single_reservation_preserved(a: ActorView, msg: ActorMessages)
    requires
        single_reservation(a),
        actor_msg_ok(a, msg),
    ensures
        single_reservation(spec_actor_step(a, msg).0),
{
}

} // verus!

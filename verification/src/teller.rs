//! The per-instrument order book and its first-fit matcher.
//!
//! A teller keeps the outstanding buy and sell intents for exactly one
//! instrument.  Matching is immediate on arrival: a new order is paired
//! with the first queued order on the opposite side whose price crosses
//! it and that comes from a different actor; both leave the book and the
//! pair travels to the market.  An unmatched order stays queued until it
//! matches or is revoked.

use vstd::prelude::*;

use crate::messages::{ActorMessages, Envelope, MarketMessages, TellerMessages,
    TransactionRequest, reply_seq};

verus! {

/// Mathematical shape of a teller: the two sides of the book, in arrival
/// order, plus its instrument and market.
#[verifier::ext_equal]
pub ghost struct TellerView {
    pub id: usize,
    pub market_id: usize,
    pub buy_requests: Seq<TransactionRequest>,
    pub sell_requests: Seq<TransactionRequest>,
}

/// The order book for one instrument.  `id` is the instrument this
/// teller trades; `market_id` is the market it reports matches to.
pub struct Teller {
    pub id: usize,
    pub market_id: usize,
    pub buy_requests: Vec<TransactionRequest>,
    pub sell_requests: Vec<TransactionRequest>,
}

impl View for Teller {
    type V = TellerView;

    open spec fn view(&self) -> TellerView {
        TellerView {
            id: self.id,
            market_id: self.market_id,
            buy_requests: self.buy_requests@,
            sell_requests: self.sell_requests@,
        }
    }
}

/// Whether a queued sell order can fill this buy order: its price is not
/// above the buyer's limit and it comes from a different actor.
pub open spec fn sell_matches(sell: TransactionRequest, buy: TransactionRequest) -> bool {
    sell.price <= buy.price && sell.actor_id != buy.actor_id
}

/// Whether a queued buy order can fill this sell order: its price is not
/// below the seller's limit and it comes from a different actor.
pub open spec fn buy_matches(buy: TransactionRequest, sell: TransactionRequest) -> bool {
    buy.price >= sell.price && buy.actor_id != sell.actor_id
}

/// Index of the first sell order at or after `i` that fills `buy`.
pub open spec fn find_sell_match_from(
    sells: Seq<TransactionRequest>,
    buy: TransactionRequest,
    i: int,
) -> Option<int>
    decreases sells.len() - i,
{
    if i < 0 || i >= sells.len() {
        None::<int>
    } else if sell_matches(sells[i], buy) {
        Some(i)
    } else {
        find_sell_match_from(sells, buy, i + 1)
    }
}

/// Index of the first buy order at or after `i` that fills `sell`.
pub open spec fn find_buy_match_from(
    buys: Seq<TransactionRequest>,
    sell: TransactionRequest,
    i: int,
) -> Option<int>
    decreases buys.len() - i,
{
    if i < 0 || i >= buys.len() {
        None::<int>
    } else if buy_matches(buys[i], sell) {
        Some(i)
    } else {
        find_buy_match_from(buys, sell, i + 1)
    }
}

/// Index of the first order at or after `i` issued by `actor_id` under
/// `transaction_id`.
pub open spec fn find_order_from(
    orders: Seq<TransactionRequest>,
    actor_id: usize,
    transaction_id: usize,
    i: int,
) -> Option<int>
    decreases orders.len() - i,
{
    if i < 0 || i >= orders.len() {
        None::<int>
    } else if orders[i].actor_id == actor_id && orders[i].transaction_id == transaction_id {
        Some(i)
    } else {
        find_order_from(orders, actor_id, transaction_id, i + 1)
    }
}

/// What `find_sell_match_from` finds: the first fill at or after `i`, or
/// a guarantee that nothing at or after `i` fills the order.
pub proof fn lemma_find_sell_match(sells: Seq<TransactionRequest>, buy: TransactionRequest, i: int)
    requires
        0 <= i <= sells.len(),
    ensures
        (match find_sell_match_from(sells, buy, i) {
            Some(j) => i <= j < sells.len() && sell_matches(sells[j], buy) && (forall|k: int|
                i <= k < j ==> !sell_matches(sells[k], buy)),
            None => forall|k: int| i <= k < sells.len() ==> !sell_matches(sells[k], buy),
        }),
    decreases sells.len() - i,
{
    if i < sells.len() && !sell_matches(sells[i], buy) {
        lemma_find_sell_match(sells, buy, i + 1);
    }
}

/// What `find_buy_match_from` finds: the first fill at or after `i`, or a
/// guarantee that nothing at or after `i` fills the order.
pub proof fn lemma_find_buy_match(buys: Seq<TransactionRequest>, sell: TransactionRequest, i: int)
    requires
        0 <= i <= buys.len(),
    ensures
        (match find_buy_match_from(buys, sell, i) {
            Some(j) => i <= j < buys.len() && buy_matches(buys[j], sell) && (forall|k: int|
                i <= k < j ==> !buy_matches(buys[k], sell)),
            None => forall|k: int| i <= k < buys.len() ==> !buy_matches(buys[k], sell),
        }),
    decreases buys.len() - i,
{
    if i < buys.len() && !buy_matches(buys[i], sell) {
        lemma_find_buy_match(buys, sell, i + 1);
    }
}

/// The matching pass over the sell book for the most recently queued buy
/// order: on a fill, both orders leave the book and the filling sell
/// order is reported.
pub open spec fn spec_make_buy_request(t: TellerView) -> (TellerView, Option<TransactionRequest>) {
    let buy = t.buy_requests.last();
    match find_sell_match_from(t.sell_requests, buy, 0) {
        Some(j) => (
            TellerView {
                buy_requests: t.buy_requests.drop_last(),
                sell_requests: t.sell_requests.remove(j),
                ..t
            },
            Some(t.sell_requests[j]),
        ),
        None => (t, None::<TransactionRequest>),
    }
}

/// The matching pass over the buy book for the most recently queued sell
/// order: on a fill, both orders leave the book and the filling buy order
/// is reported.
pub open spec fn spec_make_sell_request(t: TellerView) -> (TellerView, Option<TransactionRequest>) {
    let sell = t.sell_requests.last();
    match find_buy_match_from(t.buy_requests, sell, 0) {
        Some(j) => (
            TellerView {
                buy_requests: t.buy_requests.remove(j),
                sell_requests: t.sell_requests.drop_last(),
                ..t
            },
            Some(t.buy_requests[j]),
        ),
        None => (t, None::<TransactionRequest>),
    }
}

/// One buy submission: queue the order, then match.  On a fill the
/// matched (buy, sell) pair travels to the market.
pub open spec fn spec_submit_buy(t: TellerView, request: TransactionRequest) -> (
    TellerView,
    Option<Envelope>,
) {
    let queued = TellerView { buy_requests: t.buy_requests.push(request), ..t };
    let (t2, matched) = spec_make_buy_request(queued);
    match matched {
        Some(sell) => (
            t2,
            Some(
                Envelope::ToMarket(t.market_id, MarketMessages::MatchRequest(request, sell)),
            ),
        ),
        None => (t2, None::<Envelope>),
    }
}

/// One sell submission: queue the order, then match.  On a fill the
/// matched (buy, sell) pair travels to the market.
pub open spec fn spec_submit_sell(t: TellerView, request: TransactionRequest) -> (
    TellerView,
    Option<Envelope>,
) {
    let queued = TellerView { sell_requests: t.sell_requests.push(request), ..t };
    let (t2, matched) = spec_make_sell_request(queued);
    match matched {
        Some(buy) => (
            t2,
            Some(
                Envelope::ToMarket(t.market_id, MarketMessages::MatchRequest(buy, request)),
            ),
        ),
        None => (t2, None::<Envelope>),
    }
}

/// One revocation: the first still-queued order of that actor and
/// transaction leaves whichever side of the book holds it; a no-op if the
/// order already matched or never existed.
pub open spec fn spec_revoke(t: TellerView, actor_id: usize, transaction_id: usize) -> TellerView {
    match find_order_from(t.buy_requests, actor_id, transaction_id, 0) {
        Some(i) => TellerView { buy_requests: t.buy_requests.remove(i), ..t },
        None => match find_order_from(t.sell_requests, actor_id, transaction_id, 0) {
            Some(i) => TellerView { sell_requests: t.sell_requests.remove(i), ..t },
            None => t,
        },
    }
}

/// One step of the teller on any inbound message: the new book and the
/// messages it sends.
pub open spec fn spec_teller_step(t: TellerView, msg: TellerMessages) -> (TellerView, Seq<
    Envelope,
>) {
    match msg {
        TellerMessages::RequestCount(actor_id, buying) => (
            t,
            seq![
                Envelope::ToActor(
                    actor_id,
                    ActorMessages::ReceiveActivityCount(
                        t.id,
                        buying,
                        if buying {
                            t.buy_requests.len() as usize
                        } else {
                            t.sell_requests.len() as usize
                        },
                    ),
                ),
            ],
        ),
        TellerMessages::BuyRequest(request) => {
            let (t2, reply) = spec_submit_buy(t, request);
            (t2, reply_seq(reply))
        },
        TellerMessages::SellRequest(request) => {
            let (t2, reply) = spec_submit_sell(t, request);
            (t2, reply_seq(reply))
        },
        TellerMessages::RevokeRequest(actor_id, transaction_id) => (
            spec_revoke(t, actor_id, transaction_id),
            Seq::empty(),
        ),
    }
}

impl Teller {
    /// A teller with an empty book for instrument `id`, reporting to the
    /// market `market_id`.
    pub fn new(id: usize, market_id: usize) -> (t: Teller)
        ensures
            t@.id == id,
            t@.market_id == market_id,
            t@.buy_requests == Seq::<TransactionRequest>::empty(),
            t@.sell_requests == Seq::<TransactionRequest>::empty(),
    {
        Teller { id, market_id, buy_requests: Vec::new(), sell_requests: Vec::new() }
    }

    /// Queue length of the requested side of the book.
    pub fn activity_count(&self, buying: bool) -> (n: usize)
        ensures
            n == (if buying {
                self@.buy_requests.len()
            } else {
                self@.sell_requests.len()
            }),
    {
        if buying {
            self.buy_requests.len()
        } else {
            self.sell_requests.len()
        }
    }

    /// Match the most recently queued buy order against the sell book:
    /// first fill wins; on a fill both orders leave the book and the
    /// filling sell order is returned.  The fill never comes from the
    /// buyer itself.
    #[verifier::loop_isolation(false)]
    pub fn make_buy_request(&mut self) -> (r: Option<TransactionRequest>)
        requires
            old(self)@.buy_requests.len() > 0,
        ensures
            final(self)@ == spec_make_buy_request(old(self)@).0,
            r == spec_make_buy_request(old(self)@).1,
            (r matches Some(sell) ==> sell.actor_id != old(self)@.buy_requests.last().actor_id),
    {
        let new_buy = self.buy_requests[self.buy_requests.len() - 1];
        let mut i: usize = 0;
        while i < self.sell_requests.len()
            invariant
                0 <= i <= self.sell_requests.len(),
                *self == *old(self),
                find_sell_match_from(self@.sell_requests, new_buy, 0) == find_sell_match_from(
                    self@.sell_requests,
                    new_buy,
                    i as int,
                ),
            decreases self.sell_requests.len() - i,
        {
            if new_buy.price >= self.sell_requests[i].price && self.sell_requests[i].actor_id
                != new_buy.actor_id {
                let sell = self.sell_requests[i];
                self.buy_requests.pop();
                self.sell_requests.remove(i);
                return Some(sell);
            }
            i = i + 1;
        }
        None
    }

    /// Match the most recently queued sell order against the buy book:
    /// first fill wins; on a fill both orders leave the book and the
    /// filling buy order is returned.  The fill never comes from the
    /// seller itself.
    #[verifier::loop_isolation(false)]
    pub fn make_sell_request(&mut self) -> (r: Option<TransactionRequest>)
        requires
            old(self)@.sell_requests.len() > 0,
        ensures
            final(self)@ == spec_make_sell_request(old(self)@).0,
            r == spec_make_sell_request(old(self)@).1,
            (r matches Some(buy) ==> buy.actor_id != old(self)@.sell_requests.last().actor_id),
    {
        let new_sell = self.sell_requests[self.sell_requests.len() - 1];
        let mut i: usize = 0;
        while i < self.buy_requests.len()
            invariant
                0 <= i <= self.buy_requests.len(),
                *self == *old(self),
                find_buy_match_from(self@.buy_requests, new_sell, 0) == find_buy_match_from(
                    self@.buy_requests,
                    new_sell,
                    i as int,
                ),
            decreases self.buy_requests.len() - i,
        {
            if new_sell.price <= self.buy_requests[i].price && self.buy_requests[i].actor_id
                != new_sell.actor_id {
                let buy = self.buy_requests[i];
                self.sell_requests.pop();
                self.buy_requests.remove(i);
                return Some(buy);
            }
            i = i + 1;
        }
        None
    }

    /// Queue a buy order and match it at once.  On a fill the matched
    /// (buy, sell) pair is addressed to the market; the pair never joins
    /// two orders of one actor.
    pub fn submit_buy(&mut self, request: TransactionRequest) -> (r: Option<Envelope>)
        ensures
            final(self)@ == spec_submit_buy(old(self)@, request).0,
            r == spec_submit_buy(old(self)@, request).1,
            (r matches Some(e) ==> e matches Envelope::ToMarket(
                _,
                MarketMessages::MatchRequest(b, s),
            ) && b.actor_id != s.actor_id),
    {
        self.buy_requests.push(request);
        match self.make_buy_request() {
            Some(sell) => Some(
                Envelope::ToMarket(self.market_id, MarketMessages::MatchRequest(request, sell)),
            ),
            None => None,
        }
    }

    /// Queue a sell order and match it at once.  On a fill the matched
    /// (buy, sell) pair is addressed to the market; the pair never joins
    /// two orders of one actor.
    pub fn submit_sell(&mut self, request: TransactionRequest) -> (r: Option<Envelope>)
        ensures
            final(self)@ == spec_submit_sell(old(self)@, request).0,
            r == spec_submit_sell(old(self)@, request).1,
            (r matches Some(e) ==> e matches Envelope::ToMarket(
                _,
                MarketMessages::MatchRequest(b, s),
            ) && b.actor_id != s.actor_id),
    {
        self.sell_requests.push(request);
        match self.make_sell_request() {
            Some(buy) => Some(
                Envelope::ToMarket(self.market_id, MarketMessages::MatchRequest(buy, request)),
            ),
            None => None,
        }
    }

    /// Remove the first still-queued order of `actor_id` under
    /// `transaction_id` from whichever side holds it; a no-op if the
    /// order already matched or never existed.
    #[verifier::loop_isolation(false)]
    pub fn revoke(&mut self, actor_id: usize, transaction_id: usize)
        ensures
            final(self)@ == spec_revoke(old(self)@, actor_id, transaction_id),
    {
        let mut i: usize = 0;
        while i < self.buy_requests.len()
            invariant
                0 <= i <= self.buy_requests.len(),
                *self == *old(self),
                find_order_from(self@.buy_requests, actor_id, transaction_id, 0)
                    == find_order_from(self@.buy_requests, actor_id, transaction_id, i as int),
            decreases self.buy_requests.len() - i,
        {
            if self.buy_requests[i].actor_id == actor_id && self.buy_requests[i].transaction_id
                == transaction_id {
                self.buy_requests.remove(i);
                return ;
            }
            i = i + 1;
        }
        let mut j: usize = 0;
        while j < self.sell_requests.len()
            invariant
                0 <= j <= self.sell_requests.len(),
                *self == *old(self),
                find_order_from(self@.sell_requests, actor_id, transaction_id, 0)
                    == find_order_from(self@.sell_requests, actor_id, transaction_id, j as int),
            decreases self.sell_requests.len() - j,
        {
            if self.sell_requests[j].actor_id == actor_id && self.sell_requests[j].transaction_id
                == transaction_id {
                self.sell_requests.remove(j);
                return ;
            }
            j = j + 1;
        }
    }

    /// Handle one inbound message and return the messages to send.
    pub fn handle(&mut self, msg: TellerMessages) -> (out: Vec<Envelope>)
        ensures
            final(self)@ == spec_teller_step(old(self)@, msg).0,
            out@ == spec_teller_step(old(self)@, msg).1,
    {
        let mut out: Vec<Envelope> = Vec::new();
        match msg {
            TellerMessages::RequestCount(actor_id, buying) => {
                let count = self.activity_count(buying);
                out.push(
                    Envelope::ToActor(
                        actor_id,
                        ActorMessages::ReceiveActivityCount(self.id, buying, count),
                    ),
                );
            },
            TellerMessages::BuyRequest(request) => {
                match self.submit_buy(request) {
                    Some(e) => { out.push(e) },
                    None => {},
                }
            },
            TellerMessages::SellRequest(request) => {
                match self.submit_sell(request) {
                    Some(e) => { out.push(e) },
                    None => {},
                }
            },
            TellerMessages::RevokeRequest(actor_id, transaction_id) => {
                self.revoke(actor_id, transaction_id);
            },
        }
        proof {
            assert(out@ =~= spec_teller_step(old(self)@, msg).1);
        }
        out
    }
}

/// Law: matching never pairs an actor's own buy and sell orders.  Any
/// match a submission reports joins orders of two distinct actors.
pub proof fn lemma_no_self_match(t: TellerView, request: TransactionRequest)
    ensures
        (spec_submit_buy(t, request).1 matches Some(e) ==> e matches Envelope::ToMarket(
            _,
            MarketMessages::MatchRequest(b, s),
        ) && b.actor_id != s.actor_id),
        (spec_submit_sell(t, request).1 matches Some(e) ==> e matches Envelope::ToMarket(
            _,
            MarketMessages::MatchRequest(b, s),
        ) && b.actor_id != s.actor_id),
{
    lemma_find_sell_match(t.sell_requests, request, 0);
    lemma_find_buy_match(t.buy_requests, request, 0);
}

} // verus!

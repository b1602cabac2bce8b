//! The settlement coordinator: a state machine over matched pairs.
//!
//! A matched (buy, sell) pair is `Pending` while either party is busy
//! with another settlement, `Active` once reservation requests are out,
//! and leaves the tables on settlement (both parties committed) or abort
//! (either party cancelled).  Settling or aborting frees its two actors,
//! and one pending pair per freed actor may be promoted to active.

use vstd::prelude::*;

use crate::messages::reply_seq;
use crate::messages::{ActorMessages, Envelope, MarketHistory, MarketHistoryView, MarketMessages,
    MoneyRequest, StockRequest, TellerMessages, TransactionRequest, history_with};

verus! {

/// Mathematical shape of a market: the registries, the two transaction
/// tables, the committed-actor set and the trade history.
#[verifier::ext_equal]
pub ghost struct MarketView {
    pub id: usize,
    /// Tellers exist for every instrument id below this bound.
    pub stock_count: usize,
    /// Registered actor ids.
    pub actors: Seq<usize>,
    pub active_transactions: Seq<(TransactionRequest, TransactionRequest)>,
    pub pending_transactions: Seq<(TransactionRequest, TransactionRequest)>,
    /// Actors who committed their reservation and wait on the counterparty.
    pub committed_actors: Seq<usize>,
    pub history: MarketHistoryView,
}

/// The settlement coordinator for one market.
pub struct Market {
    pub id: usize,
    /// Tellers exist for every instrument id below this bound.
    pub stock_count: usize,
    /// Registered actor ids.
    pub actors: Vec<usize>,
    pub active_transactions: Vec<(TransactionRequest, TransactionRequest)>,
    pub pending_transactions: Vec<(TransactionRequest, TransactionRequest)>,
    /// Actors who committed their reservation and wait on the counterparty.
    pub committed_actors: Vec<usize>,
    pub history: MarketHistory,
}

impl View for Market {
    type V = MarketView;

    open spec fn view(&self) -> MarketView {
        MarketView {
            id: self.id,
            stock_count: self.stock_count,
            actors: self.actors@,
            active_transactions: self.active_transactions@,
            pending_transactions: self.pending_transactions@,
            committed_actors: self.committed_actors@,
            history: self.history@,
        }
    }
}

/// Whether `actor_id` is one of the two parties of the pair.
pub open spec fn involves(
    pair: (TransactionRequest, TransactionRequest),
    actor_id: usize,
) -> bool {
    pair.0.actor_id == actor_id || pair.1.actor_id == actor_id
}

/// Whether some pair in `active` involves `actor_id`.
pub open spec fn seq_has_active(
    active: Seq<(TransactionRequest, TransactionRequest)>,
    actor_id: usize,
) -> bool {
    exists|k: int| 0 <= k < active.len() && involves(active[k], actor_id)
}

/// Whether `actor_id` participates in some active transaction.
pub open spec fn spec_has_active(v: MarketView, actor_id: usize) -> bool {
    seq_has_active(v.active_transactions, actor_id)
}

/// Index of the first pair at or after `i` involving `actor_id`.
pub open spec fn find_involving_from(
    active: Seq<(TransactionRequest, TransactionRequest)>,
    actor_id: usize,
    i: int,
) -> Option<int>
    decreases active.len() - i,
{
    if i < 0 || i >= active.len() {
        None::<int>
    } else if involves(active[i], actor_id) {
        Some(i)
    } else {
        find_involving_from(active, actor_id, i + 1)
    }
}

/// What `find_involving_from` finds: the first pair at or after `i`
/// involving the actor, or a guarantee that none does.
pub proof fn lemma_find_involving(
    active: Seq<(TransactionRequest, TransactionRequest)>,
    actor_id: usize,
    i: int,
)
    requires
        0 <= i <= active.len(),
    ensures
        (match find_involving_from(active, actor_id, i) {
            Some(j) => i <= j < active.len() && involves(active[j], actor_id) && (forall|k: int|
                i <= k < j ==> !involves(active[k], actor_id)),
            None => forall|k: int| i <= k < active.len() ==> !involves(active[k], actor_id),
        }),
    decreases active.len() - i,
{
    if i < active.len() && !involves(active[i], actor_id) {
        lemma_find_involving(active, actor_id, i + 1);
    }
}

/// The all-zero order, returned where no pair involves the actor.
pub open spec fn zero_request() -> TransactionRequest {
    TransactionRequest { transaction_id: 0, actor_id: 0, stock_id: 0, price: 0, quantity: 0 }
}

/// The first active pair involving `actor_id`, or the all-zero pair.
pub open spec fn first_active_involving(v: MarketView, actor_id: usize) -> (
    TransactionRequest,
    TransactionRequest,
) {
    match find_involving_from(v.active_transactions, actor_id, 0) {
        Some(i) => v.active_transactions[i],
        None => (zero_request(), zero_request()),
    }
}

/// Index of the first occurrence of `x` at or after `i`.
pub open spec fn find_elem_from(s: Seq<usize>, x: usize, i: int) -> Option<int>
    decreases s.len() - i,
{
    if i < 0 || i >= s.len() {
        None::<int>
    } else if s[i] == x {
        Some(i)
    } else {
        find_elem_from(s, x, i + 1)
    }
}

/// What `find_elem_from` finds: the first occurrence at or after `i`, or
/// a guarantee there is none.
pub proof fn lemma_find_elem(s: Seq<usize>, x: usize, i: int)
    requires
        0 <= i <= s.len(),
    ensures
        (match find_elem_from(s, x, i) {
            Some(j) => i <= j < s.len() && s[j] == x && (forall|k: int| i <= k < j ==> s[k] != x),
            None => forall|k: int| i <= k < s.len() ==> s[k] != x,
        }),
    decreases s.len() - i,
{
    if i < s.len() && s[i] != x {
        lemma_find_elem(s, x, i + 1);
    }
}

/// `s` with its first occurrence of `x` removed, if any.
pub open spec fn seq_without_first(s: Seq<usize>, x: usize) -> Seq<usize> {
    match find_elem_from(s, x, 0) {
        Some(i) => s.remove(i),
        None => s,
    }
}

/// Index of the first pair at or after `i` equal to `pair`.
pub open spec fn find_pair_from(
    s: Seq<(TransactionRequest, TransactionRequest)>,
    pair: (TransactionRequest, TransactionRequest),
    i: int,
) -> Option<int>
    decreases s.len() - i,
{
    if i < 0 || i >= s.len() {
        None::<int>
    } else if s[i] == pair {
        Some(i)
    } else {
        find_pair_from(s, pair, i + 1)
    }
}

/// What `find_pair_from` finds: the first equal pair at or after `i`, or
/// a guarantee there is none.
pub proof fn lemma_find_pair(
    s: Seq<(TransactionRequest, TransactionRequest)>,
    pair: (TransactionRequest, TransactionRequest),
    i: int,
)
    requires
        0 <= i <= s.len(),
    ensures
        (match find_pair_from(s, pair, i) {
            Some(j) => i <= j < s.len() && s[j] == pair && (forall|k: int|
                i <= k < j ==> s[k] != pair),
            None => forall|k: int| i <= k < s.len() ==> s[k] != pair,
        }),
    decreases s.len() - i,
{
    if i < s.len() && s[i] != pair {
        lemma_find_pair(s, pair, i + 1);
    }
}

/// `s` with its first pair equal to `pair` removed, if any.
pub open spec fn seq_without_first_pair(
    s: Seq<(TransactionRequest, TransactionRequest)>,
    pair: (TransactionRequest, TransactionRequest),
) -> Seq<(TransactionRequest, TransactionRequest)> {
    match find_pair_from(s, pair, 0) {
        Some(i) => s.remove(i),
        None => s,
    }
}

/// The quantity a match fills: the smaller of the two orders.
pub open spec fn min_qty(buyer: TransactionRequest, seller: TransactionRequest) -> usize {
    if buyer.quantity <= seller.quantity {
        buyer.quantity
    } else {
        seller.quantity
    }
}

/// A matched pair the market can take on: two distinct actors, and a
/// settlement amount (the seller's price times the filled quantity) that
/// fits the machine.
pub open spec fn pair_ok(buyer: TransactionRequest, seller: TransactionRequest) -> bool {
    buyer.actor_id != seller.actor_id && seller.price * min_qty(buyer, seller) <= usize::MAX
}

/// `pair_ok` over a stored (buy, sell) pair.
pub open spec fn pair_wf(pair: (TransactionRequest, TransactionRequest)) -> bool {
    pair_ok(pair.0, pair.1)
}

/// An active pair is normalized: both sides carry the settled price and
/// the filled quantity, the parties differ, and the settlement amount
/// fits the machine.
pub open spec fn active_entry_wf(pair: (TransactionRequest, TransactionRequest)) -> bool {
    &&& pair.0.actor_id != pair.1.actor_id
    &&& pair.0.price == pair.1.price
    &&& pair.0.quantity == pair.1.quantity
    &&& pair.0.price * pair.0.quantity <= usize::MAX
}

/// Whether two pairs share no actor.
pub open spec fn disjoint_pairs(
    p: (TransactionRequest, TransactionRequest),
    q: (TransactionRequest, TransactionRequest),
) -> bool {
    &&& p.0.actor_id != q.0.actor_id
    &&& p.0.actor_id != q.1.actor_id
    &&& p.1.actor_id != q.0.actor_id
    &&& p.1.actor_id != q.1.actor_id
}

/// The market's table invariants: active pairs are normalized and no two
/// share an actor (an actor participates in at most one active
/// transaction); pending pairs are takeable; the committed set holds no
/// duplicates and only actors with an active transaction.
pub open spec fn wf(v: MarketView) -> bool {
    &&& forall|i: int|
        0 <= i < v.active_transactions.len() ==> active_entry_wf(#[trigger] v.active_transactions[i])
    &&& forall|i: int, j: int|
        0 <= i < j < v.active_transactions.len() ==> disjoint_pairs(
            #[trigger] v.active_transactions[i],
            #[trigger] v.active_transactions[j],
        )
    &&& forall|i: int|
        0 <= i < v.pending_transactions.len() ==> pair_wf(#[trigger] v.pending_transactions[i])
    &&& forall|i: int, j: int|
        0 <= i < j < v.committed_actors.len() ==> v.committed_actors[i] != v.committed_actors[j]
    &&& forall|i: int|
        0 <= i < v.committed_actors.len() ==> seq_has_active(
            v.active_transactions,
            #[trigger] v.committed_actors[i],
        )
}

/// The message an actor gets, if it is registered; an unknown routing
/// target is skipped silently.
pub open spec fn route_actor_opt(v: MarketView, actor_id: usize, msg: ActorMessages) -> Option<
    Envelope,
> {
    if v.actors.contains(actor_id) {
        Some(Envelope::ToActor(actor_id, msg))
    } else {
        None::<Envelope>
    }
}

/// `route_actor_opt` as the sequence of messages actually sent.
pub open spec fn route_actor_seq(v: MarketView, actor_id: usize, msg: ActorMessages) -> Seq<
    Envelope,
> {
    reply_seq(route_actor_opt(v, actor_id, msg))
}

/// The matched pair normalized for settlement: the buyer pays the
/// seller's quoted price and the fill is capped to the smaller quantity.
pub open spec fn normalized(buyer: TransactionRequest, seller: TransactionRequest) -> (
    TransactionRequest,
    TransactionRequest,
) {
    (
        TransactionRequest { price: seller.price, quantity: min_qty(buyer, seller), ..buyer },
        TransactionRequest { quantity: min_qty(buyer, seller), ..seller },
    )
}

/// Activation of a matched pair: normalize it, ask the buyer to escrow
/// the settlement amount and the seller the filled quantity, and record
/// the pair as active.
pub open spec fn spec_activate(
    v: MarketView,
    buyer: TransactionRequest,
    seller: TransactionRequest,
) -> (MarketView, Seq<Envelope>) {
    let pair = normalized(buyer, seller);
    let amount = (pair.0.price * pair.0.quantity) as usize;
    let msgs = route_actor_seq(
        v,
        pair.0.actor_id,
        ActorMessages::MoneyRequest(MoneyRequest { market_id: v.id, amount }),
    ) + route_actor_seq(
        v,
        pair.1.actor_id,
        ActorMessages::StockRequest(
            StockRequest {
                market_id: v.id,
                stock_id: pair.1.stock_id,
                quantity: pair.1.quantity,
            },
        ),
    );
    (MarketView { active_transactions: v.active_transactions.push(pair), ..v }, msgs)
}

/// A new match is activated at once when both parties are free, else
/// queued as pending until a settlement or abort frees them.
pub open spec fn spec_on_match(
    v: MarketView,
    buyer: TransactionRequest,
    seller: TransactionRequest,
) -> (MarketView, Seq<Envelope>) {
    if spec_has_active(v, buyer.actor_id) || spec_has_active(v, seller.actor_id) {
        (
            MarketView {
                pending_transactions: v.pending_transactions.push((buyer, seller)),
                ..v
            },
            Seq::empty(),
        )
    } else {
        spec_activate(v, buyer, seller)
    }
}

/// Registration: record the actor and hand it the history at once.
pub open spec fn spec_register(v: MarketView, actor_id: usize) -> (MarketView, Seq<Envelope>) {
    let v1 = if v.actors.contains(actor_id) {
        v
    } else {
        MarketView { actors: v.actors.push(actor_id), ..v }
    };
    (v1, seq![Envelope::ToActor(actor_id, ActorMessages::History)])
}

/// An order is routed to its instrument's teller; an unknown instrument
/// is skipped silently.
pub open spec fn spec_route_order(
    v: MarketView,
    buying: bool,
    transaction: TransactionRequest,
) -> Seq<Envelope> {
    if transaction.stock_id < v.stock_count {
        seq![
            Envelope::ToTeller(
                transaction.stock_id,
                if buying {
                    TellerMessages::BuyRequest(transaction)
                } else {
                    TellerMessages::SellRequest(transaction)
                },
            ),
        ]
    } else {
        Seq::empty()
    }
}

/// An activity-count query travels to the teller when both the requesting
/// actor and the teller exist; else it is skipped silently.
pub open spec fn spec_route_count(
    v: MarketView,
    actor_id: usize,
    stock_id: usize,
    buying: bool,
) -> Seq<Envelope> {
    if v.actors.contains(actor_id) && stock_id < v.stock_count {
        seq![Envelope::ToTeller(stock_id, TellerMessages::RequestCount(actor_id, buying))]
    } else {
        Seq::empty()
    }
}

/// Whether a queued pair may be promoted on behalf of the freed actor
/// `a`: it involves `a` and both of its parties are free.  (A pair is
/// promoted only while both parties are free, which is what keeps each
/// actor in at most one active transaction.)
pub open spec fn promotable(
    pair: (TransactionRequest, TransactionRequest),
    active: Seq<(TransactionRequest, TransactionRequest)>,
    a: usize,
) -> bool {
    involves(pair, a) && !seq_has_active(active, pair.0.actor_id) && !seq_has_active(
        active,
        pair.1.actor_id,
    )
}

/// Index of the first pending pair at or after `i` promotable for `a`.
pub open spec fn find_promotable_from(
    pending: Seq<(TransactionRequest, TransactionRequest)>,
    active: Seq<(TransactionRequest, TransactionRequest)>,
    a: usize,
    i: int,
) -> Option<int>
    decreases pending.len() - i,
{
    if i < 0 || i >= pending.len() {
        None::<int>
    } else if promotable(pending[i], active, a) {
        Some(i)
    } else {
        find_promotable_from(pending, active, a, i + 1)
    }
}

/// What `find_promotable_from` finds: the first (oldest-enqueued)
/// promotable pair at or after `i`, or a guarantee there is none.
pub proof fn lemma_find_promotable(
    pending: Seq<(TransactionRequest, TransactionRequest)>,
    active: Seq<(TransactionRequest, TransactionRequest)>,
    a: usize,
    i: int,
)
    requires
        0 <= i <= pending.len(),
    ensures
        (match find_promotable_from(pending, active, a, i) {
            Some(j) => i <= j < pending.len() && promotable(pending[j], active, a) && (forall|
                k: int,
            |
                i <= k < j ==> !promotable(pending[k], active, a)),
            None => forall|k: int| i <= k < pending.len() ==> !promotable(pending[k], active, a),
        }),
    decreases pending.len() - i,
{
    if i < pending.len() && !promotable(pending[i], active, a) {
        lemma_find_promotable(pending, active, a, i + 1);
    }
}

/// Promotion on behalf of one freed actor: the first promotable pending
/// pair, if any, leaves the queue and is activated.
pub open spec fn spec_promote_one(v: MarketView, a: usize) -> (MarketView, Seq<Envelope>) {
    match find_promotable_from(v.pending_transactions, v.active_transactions, a, 0) {
        Some(i) => {
            let pair = v.pending_transactions[i];
            let v1 = MarketView {
                pending_transactions: v.pending_transactions.remove(i),
                ..v
            };
            spec_activate(v1, pair.0, pair.1)
        },
        None => (v, Seq::empty()),
    }
}

/// Promotion for the two actors a settlement or abort has freed: first
/// `actor1`'s queue is scanned in full, then `actor2`'s, at most one
/// promotion each.  This is a first-fit, not globally fair, policy.
pub open spec fn spec_move_pending(v: MarketView, actor1: usize, actor2: usize) -> (
    MarketView,
    Seq<Envelope>,
) {
    let (v1, m1) = spec_promote_one(v, actor1);
    let (v2, m2) = spec_promote_one(v1, actor2);
    (v2, m1 + m2)
}

/// The table changes shared by settlement and abort: both parties leave
/// the committed set, the pair leaves the active table, and one pending
/// pair per freed actor may be promoted.
pub open spec fn spec_clear_active(
    v: MarketView,
    tup: (TransactionRequest, TransactionRequest),
) -> (MarketView, Seq<Envelope>) {
    let v1 = MarketView {
        committed_actors: seq_without_first(
            seq_without_first(v.committed_actors, tup.0.actor_id),
            tup.1.actor_id,
        ),
        ..v
    };
    let v2 = MarketView {
        active_transactions: seq_without_first_pair(v1.active_transactions, tup),
        ..v1
    };
    spec_move_pending(v2, tup.0.actor_id, tup.1.actor_id)
}

/// Settlement of an active pair once both parties have committed: each
/// actor is told to commit against the counterparty's finalized request,
/// the tables are cleared, promotions run, and the pair enters the
/// history under its instrument.
pub open spec fn spec_settle(v: MarketView, tup: (TransactionRequest, TransactionRequest)) -> (
    MarketView,
    Seq<Envelope>,
) {
    let m1 = route_actor_seq(v, tup.0.actor_id, ActorMessages::CommitTransaction(tup.1))
        + route_actor_seq(v, tup.1.actor_id, ActorMessages::CommitTransaction(tup.0));
    let (v3, m2) = spec_clear_active(v, tup);
    let v4 = MarketView { history: history_with(v3.history, tup.0.stock_id, tup), ..v3 };
    (v4, m1 + m2)
}

/// One commit signal: ignored unless the actor has an active
/// transaction; marks the actor committed; settles once both parties of
/// its pair have committed.
pub open spec fn spec_on_commit(v: MarketView, actor_id: usize) -> (MarketView, Seq<Envelope>) {
    if !spec_has_active(v, actor_id) {
        (v, Seq::empty())
    } else {
        let v1 = if v.committed_actors.contains(actor_id) {
            v
        } else {
            MarketView { committed_actors: v.committed_actors.push(actor_id), ..v }
        };
        let tup = first_active_involving(v, actor_id);
        if v1.committed_actors.contains(tup.0.actor_id) && v1.committed_actors.contains(
            tup.1.actor_id,
        ) {
            spec_settle(v1, tup)
        } else {
            (v1, Seq::empty())
        }
    }
}

/// One cancel signal: ignored unless the actor has an active
/// transaction; aborts that transaction, telling both parties to roll
/// back, and clears the tables.
pub open spec fn spec_on_cancel(v: MarketView, actor_id: usize) -> (MarketView, Seq<Envelope>) {
    if !spec_has_active(v, actor_id) {
        (v, Seq::empty())
    } else {
        let tup = first_active_involving(v, actor_id);
        let m1 = route_actor_seq(v, tup.0.actor_id, ActorMessages::AbortTransaction)
            + route_actor_seq(v, tup.1.actor_id, ActorMessages::AbortTransaction);
        let (v3, m2) = spec_clear_active(v, tup);
        (v3, m1 + m2)
    }
}

/// One step of the market on any inbound message: the new state and the
/// messages it sends.
pub open spec fn spec_market_step(v: MarketView, msg: MarketMessages) -> (MarketView, Seq<
    Envelope,
>) {
    match msg {
        MarketMessages::RequestActivityCount(actor_id, stock_id, buying) => (
            v,
            spec_route_count(v, actor_id, stock_id, buying),
        ),
        MarketMessages::SellRequest(request) => (v, spec_route_order(v, false, request)),
        MarketMessages::BuyRequest(request) => (v, spec_route_order(v, true, request)),
        MarketMessages::Commit(actor_id) => spec_on_commit(v, actor_id),
        MarketMessages::Cancel(actor_id) => spec_on_cancel(v, actor_id),
        MarketMessages::RegisterActor(actor_id) => spec_register(v, actor_id),
        MarketMessages::MatchRequest(buyer, seller) => spec_on_match(v, buyer, seller),
    }
}

/// The bound `spec_market_step` needs for the given message: a matched
/// pair joins two distinct actors and its settlement amount fits the
/// machine.
pub open spec fn market_msg_ok(msg: MarketMessages) -> bool {
    match msg {
        MarketMessages::MatchRequest(buyer, seller) => pair_ok(buyer, seller),
        _ => true,
    }
}

/// Activating a pair of two free actors keeps the market well-formed.
pub proof fn lemma_activate_preserves_wf(
    v: MarketView,
    buyer: TransactionRequest,
    seller: TransactionRequest,
)
    requires
        wf(v),
        pair_ok(buyer, seller),
        !spec_has_active(v, buyer.actor_id),
        !spec_has_active(v, seller.actor_id),
    ensures
        wf(spec_activate(v, buyer, seller).0),
{
    let w = spec_activate(v, buyer, seller).0;
    let n = v.active_transactions.len() as int;
    assert forall|i: int, j: int| 0 <= i < j < w.active_transactions.len() implies disjoint_pairs(
        #[trigger] w.active_transactions[i],
        #[trigger] w.active_transactions[j],
    ) by {
        if j == n {
            assert(!involves(v.active_transactions[i], buyer.actor_id));
            assert(!involves(v.active_transactions[i], seller.actor_id));
        }
    }
    assert forall|i: int| 0 <= i < w.committed_actors.len() implies seq_has_active(
        w.active_transactions,
        #[trigger] w.committed_actors[i],
    ) by {
        let c = v.committed_actors[i];
        let k = choose|k: int|
            0 <= k < v.active_transactions.len() && involves(v.active_transactions[k], c);
        assert(involves(w.active_transactions[k], c));
    }
}

/// Taking on a matched pair keeps the market well-formed.
pub proof fn lemma_on_match_preserves_wf(
    v: MarketView,
    buyer: TransactionRequest,
    seller: TransactionRequest,
)
    requires
        wf(v),
        pair_ok(buyer, seller),
    ensures
        wf(spec_on_match(v, buyer, seller).0),
{
    if !spec_has_active(v, buyer.actor_id) && !spec_has_active(v, seller.actor_id) {
        lemma_activate_preserves_wf(v, buyer, seller);
    }
}

/// Removing the first occurrence of `x` from a duplicate-free sequence
/// leaves it duplicate-free, free of `x`, and otherwise of the same
/// membership.
pub proof fn lemma_without_first_props(s: Seq<usize>, x: usize)
    requires
        forall|i: int, j: int| 0 <= i < j < s.len() ==> s[i] != s[j],
    ensures
        (forall|i: int, j: int|
            0 <= i < j < seq_without_first(s, x).len() ==> seq_without_first(s, x)[i]
                != seq_without_first(s, x)[j]),
        !seq_without_first(s, x).contains(x),
        forall|y: usize|
            y != x ==> (seq_without_first(s, x).contains(y) <==> s.contains(y)),
{
    lemma_find_elem(s, x, 0);
    let r = seq_without_first(s, x);
    match find_elem_from(s, x, 0) {
        Some(i) => {
            s.remove_ensures(i);
            assert forall|k: int, l: int| 0 <= k < l < r.len() implies r[k] != r[l] by {
                assert(r[k] == (if k < i {
                    s[k]
                } else {
                    s[k + 1]
                }));
                assert(r[l] == (if l < i {
                    s[l]
                } else {
                    s[l + 1]
                }));
            }
            assert forall|k: int| 0 <= k < r.len() implies r[k] != x by {
                if k < i {
                    assert(r[k] == s[k]);
                } else {
                    assert(r[k] == s[k + 1]);
                    assert(s[i] == x);
                }
            }
            assert(!r.contains(x));
            assert forall|y: usize| y != x implies (r.contains(y) <==> s.contains(y)) by {
                if r.contains(y) {
                    let k = choose|k: int| 0 <= k < r.len() && r[k] == y;
                    if k < i {
                        assert(s[k] == y);
                    } else {
                        assert(s[k + 1] == y);
                    }
                    assert(s.contains(y));
                }
                if s.contains(y) {
                    let j = choose|j: int| 0 <= j < s.len() && s[j] == y;
                    assert(j != i);
                    if j < i {
                        assert(r[j] == y);
                    } else {
                        assert(r[j - 1] == y);
                    }
                    assert(r.contains(y));
                }
            }
        },
        None => {
            assert(r == s);
            if s.contains(x) {
                let j = choose|j: int| 0 <= j < s.len() && s[j] == x;
                assert(false);
            }
        },
    }
}

/// Promotion on behalf of one freed actor keeps the market well-formed.
pub proof fn lemma_promote_one_preserves_wf(v: MarketView, a: usize)
    requires
        wf(v),
    ensures
        wf(spec_promote_one(v, a).0),
{
    lemma_find_promotable(v.pending_transactions, v.active_transactions, a, 0);
    match find_promotable_from(v.pending_transactions, v.active_transactions, a, 0) {
        Some(i) => {
            let pair = v.pending_transactions[i];
            let v1 = MarketView {
                pending_transactions: v.pending_transactions.remove(i),
                ..v
            };
            v.pending_transactions.remove_ensures(i);
            assert forall|k: int| 0 <= k < v1.pending_transactions.len() implies pair_wf(
                #[trigger] v1.pending_transactions[k],
            ) by {
                assert(v1.pending_transactions[k] == (if k < i {
                    v.pending_transactions[k]
                } else {
                    v.pending_transactions[k + 1]
                }));
            }
            assert(wf(v1));
            lemma_activate_preserves_wf(v1, pair.0, pair.1);
        },
        None => {},
    }
}

/// Promotion for two freed actors keeps the market well-formed.
pub proof fn lemma_move_pending_preserves_wf(v: MarketView, actor1: usize, actor2: usize)
    requires
        wf(v),
    ensures
        wf(spec_move_pending(v, actor1, actor2).0),
{
    lemma_promote_one_preserves_wf(v, actor1);
    lemma_promote_one_preserves_wf(spec_promote_one(v, actor1).0, actor2);
}

/// Clearing a settled or aborted pair out of the tables keeps the market
/// well-formed.
pub proof fn lemma_clear_active_preserves_wf(
    v: MarketView,
    tup: (TransactionRequest, TransactionRequest),
)
    requires
        wf(v),
        exists|j: int|
            0 <= j < v.active_transactions.len() && v.active_transactions[j] == tup,
    ensures
        wf(spec_clear_active(v, tup).0),
{
    lemma_removals_preserve_wf(v, tup);
    let v1 = MarketView {
        committed_actors: seq_without_first(
            seq_without_first(v.committed_actors, tup.0.actor_id),
            tup.1.actor_id,
        ),
        ..v
    };
    let v2 = MarketView {
        active_transactions: seq_without_first_pair(v1.active_transactions, tup),
        ..v1
    };
    lemma_move_pending_preserves_wf(v2, tup.0.actor_id, tup.1.actor_id);
}

/// Removing both parties from the committed set and their pair from the
/// active table keeps the market well-formed.
pub proof fn lemma_removals_preserve_wf(
    v: MarketView,
    tup: (TransactionRequest, TransactionRequest),
)
    requires
        wf(v),
        exists|j: int|
            0 <= j < v.active_transactions.len() && v.active_transactions[j] == tup,
    ensures
        wf(
            MarketView {
                active_transactions: seq_without_first_pair(v.active_transactions, tup),
                committed_actors: seq_without_first(
                    seq_without_first(v.committed_actors, tup.0.actor_id),
                    tup.1.actor_id,
                ),
                ..v
            },
        ),
{
    lemma_without_first_props(v.committed_actors, tup.0.actor_id);
    let c1 = seq_without_first(v.committed_actors, tup.0.actor_id);
    lemma_without_first_props(c1, tup.1.actor_id);
    let c2 = seq_without_first(c1, tup.1.actor_id);
    lemma_find_pair(v.active_transactions, tup, 0);
    let a0 = v.active_transactions;
    match find_pair_from(a0, tup, 0) {
        Some(i) => {
            a0.remove_ensures(i);
            let a2 = seq_without_first_pair(a0, tup);
            assert(a2 == a0.remove(i));
            assert forall|k: int| 0 <= k < a2.len() implies active_entry_wf(#[trigger] a2[k]) by {
                assert(a2[k] == (if k < i {
                    a0[k]
                } else {
                    a0[k + 1]
                }));
            }
            assert forall|k: int, l: int| 0 <= k < l < a2.len() implies disjoint_pairs(
                #[trigger] a2[k],
                #[trigger] a2[l],
            ) by {
                assert(a2[k] == (if k < i {
                    a0[k]
                } else {
                    a0[k + 1]
                }));
                assert(a2[l] == (if l < i {
                    a0[l]
                } else {
                    a0[l + 1]
                }));
            }
            assert forall|k: int| 0 <= k < c2.len() implies seq_has_active(
                a2,
                #[trigger] c2[k],
            ) by {
                let c = c2[k];
                assert(c2.contains(c));
                assert(c != tup.1.actor_id);
                assert(c1.contains(c));
                assert(c != tup.0.actor_id);
                assert(v.committed_actors.contains(c));
                let m = choose|m: int|
                    0 <= m < v.committed_actors.len() && v.committed_actors[m] == c;
                assert(seq_has_active(a0, c));
                let w = choose|w: int| 0 <= w < a0.len() && involves(a0[w], c);
                assert(a0[i] == tup);
                assert(!involves(tup, c));
                assert(w != i);
                if w < i {
                    assert(a2[w] == a0[w]);
                    assert(involves(a2[w], c));
                } else {
                    assert(a2[w - 1] == a0[w]);
                    assert(involves(a2[w - 1], c));
                }
            }
        },
        None => {
            let j = choose|j: int|
                0 <= j < v.active_transactions.len() && v.active_transactions[j] == tup;
            assert(false);
        },
    }
}

/// Settling an active pair keeps the market well-formed.
pub proof fn lemma_settle_preserves_wf(
    v: MarketView,
    tup: (TransactionRequest, TransactionRequest),
)
    requires
        wf(v),
        exists|j: int|
            0 <= j < v.active_transactions.len() && v.active_transactions[j] == tup,
    ensures
        wf(spec_settle(v, tup).0),
{
    lemma_clear_active_preserves_wf(v, tup);
}

/// Marking a committed actor (when its transaction is active) keeps the
/// market well-formed.
pub proof fn lemma_commit_mark_wf(v: MarketView, actor_id: usize)
    requires
        wf(v),
        spec_has_active(v, actor_id),
    ensures
        wf(
            if v.committed_actors.contains(actor_id) {
                v
            } else {
                MarketView { committed_actors: v.committed_actors.push(actor_id), ..v }
            },
        ),
{
    let v1 = if v.committed_actors.contains(actor_id) {
        v
    } else {
        MarketView { committed_actors: v.committed_actors.push(actor_id), ..v }
    };
    assert forall|i: int, j: int|
        0 <= i < j < v1.committed_actors.len() implies v1.committed_actors[i]
        != v1.committed_actors[j] by {
        if j == v.committed_actors.len() {
            assert(!v.committed_actors.contains(actor_id));
            assert(v.committed_actors[i] != actor_id);
        }
    }
}

/// A commit signal keeps the market well-formed.
pub proof fn lemma_on_commit_preserves_wf(v: MarketView, actor_id: usize)
    requires
        wf(v),
    ensures
        wf(spec_on_commit(v, actor_id).0),
{
    if spec_has_active(v, actor_id) {
        let v1 = if v.committed_actors.contains(actor_id) {
            v
        } else {
            MarketView { committed_actors: v.committed_actors.push(actor_id), ..v }
        };
        lemma_commit_mark_wf(v, actor_id);
        assert(wf(v1));
        let tup = first_active_involving(v, actor_id);
        lemma_find_involving(v.active_transactions, actor_id, 0);
        match find_involving_from(v.active_transactions, actor_id, 0) {
            Some(j) => {
                assert(v1.active_transactions[j] == tup);
                if v1.committed_actors.contains(tup.0.actor_id) && v1.committed_actors.contains(
                    tup.1.actor_id,
                ) {
                    lemma_settle_preserves_wf(v1, tup);
                }
            },
            None => {
                let k = choose|k: int|
                    0 <= k < v.active_transactions.len() && involves(
                        v.active_transactions[k],
                        actor_id,
                    );
                assert(false);
            },
        }
    }
}

/// A cancel signal keeps the market well-formed.
pub proof fn lemma_on_cancel_preserves_wf(v: MarketView, actor_id: usize)
    requires
        wf(v),
    ensures
        wf(spec_on_cancel(v, actor_id).0),
{
    if spec_has_active(v, actor_id) {
        let tup = first_active_involving(v, actor_id);
        lemma_find_involving(v.active_transactions, actor_id, 0);
        match find_involving_from(v.active_transactions, actor_id, 0) {
            Some(j) => {
                assert(v.active_transactions[j] == tup);
                lemma_clear_active_preserves_wf(v, tup);
            },
            None => {
                let k = choose|k: int|
                    0 <= k < v.active_transactions.len() && involves(
                        v.active_transactions[k],
                        actor_id,
                    );
                assert(false);
            },
        }
    }
}

/// Law: a cancel for an actor with no active transaction is a no-op:
/// tables and history are unchanged and nothing is sent.
pub proof fn lemma_cancel_idempotent(v: MarketView, actor_id: usize)
    requires
        !spec_has_active(v, actor_id),
    ensures
        spec_on_cancel(v, actor_id).0 == v,
        spec_on_cancel(v, actor_id).1 == Seq::<Envelope>::empty(),
{
}

/// Law: every message the market handles keeps its tables well-formed.
/// In particular an actor stays in at most one active transaction, and
/// the committed set holds, without duplicates, only actors whose
/// transaction is still active: both parties leave it the instant their
/// pair settles or is aborted.
pub proof fn lemma_market_step_preserves_wf(v: MarketView, msg: MarketMessages)
    requires
        wf(v),
        market_msg_ok(msg),
    ensures
        wf(spec_market_step(v, msg).0),
{
    match msg {
        MarketMessages::Commit(actor_id) => lemma_on_commit_preserves_wf(v, actor_id),
        MarketMessages::Cancel(actor_id) => lemma_on_cancel_preserves_wf(v, actor_id),
        MarketMessages::MatchRequest(buyer, seller) => lemma_on_match_preserves_wf(
            v,
            buyer,
            seller,
        ),
        _ => {},
    }
}

/// Whether `x` is in `vec`.
pub fn contains(vec: &Vec<usize>, element: usize) -> (r: bool)
    ensures
        r == vec@.contains(element),
{
    let mut i: usize = 0;
    while i < vec.len()
        invariant
            0 <= i <= vec.len(),
            forall|j: int| 0 <= j < i ==> vec@[j] != element,
        decreases vec.len() - i,
    {
        if vec[i] == element {
            return true;
        }
        i = i + 1;
    }
    false
}

/// Remove the first occurrence of `element` from `vec`, if any.
#[verifier::loop_isolation(false)]
pub fn remove(vec: &mut Vec<usize>, element: usize)
    ensures
        final(vec)@ == seq_without_first(old(vec)@, element),
{
    let mut i: usize = 0;
    while i < vec.len()
        invariant
            0 <= i <= vec.len(),
            *vec == *old(vec),
            find_elem_from(vec@, element, 0) == find_elem_from(vec@, element, i as int),
        decreases vec.len() - i,
    {
        if vec[i] == element {
            vec.remove(i);
            return ;
        }
        i = i + 1;
    }
}

impl Market {
    /// A market with no actors, no transactions, and an empty history
    /// listing the instruments 0 up to `stock_count`.
    pub fn new(id: usize, stock_count: usize) -> (m: Market)
        ensures
            m@.id == id,
            m@.stock_count == stock_count,
            m@.actors == Seq::<usize>::empty(),
            m@.active_transactions == Seq::<(TransactionRequest, TransactionRequest)>::empty(),
            m@.pending_transactions == Seq::<(TransactionRequest, TransactionRequest)>::empty(),
            m@.committed_actors == Seq::<usize>::empty(),
            m@.history.history == Map::<
                usize,
                Seq<(TransactionRequest, TransactionRequest)>,
            >::empty(),
            m@.history.stocks.len() == stock_count,
            forall|i: int| 0 <= i < stock_count ==> m@.history.stocks[i] == i,
            wf(m@),
    {
        let mut history = MarketHistory::new();
        let mut i: usize = 0;
        while i < stock_count
            invariant
                0 <= i <= stock_count,
                history@.history == Map::<
                    usize,
                    Seq<(TransactionRequest, TransactionRequest)>,
                >::empty(),
                history@.stocks.len() == i,
                forall|j: int| 0 <= j < i ==> history@.stocks[j] == j,
            decreases stock_count - i,
        {
            history.stocks.push(i);
            i = i + 1;
        }
        Market {
            id,
            stock_count,
            actors: Vec::new(),
            active_transactions: Vec::new(),
            pending_transactions: Vec::new(),
            committed_actors: Vec::new(),
            history,
        }
    }

    /// Whether `actor_id` participates in some active transaction.
    pub fn has_active_transaction(&self, actor_id: usize) -> (r: bool)
        ensures
            r == spec_has_active(self@, actor_id),
    {
        let mut i: usize = 0;
        while i < self.active_transactions.len()
            invariant
                0 <= i <= self.active_transactions.len(),
                forall|j: int|
                    0 <= j < i ==> !involves(self.active_transactions@[j], actor_id),
            decreases self.active_transactions.len() - i,
        {
            let pair = self.active_transactions[i];
            if pair.0.actor_id == actor_id || pair.1.actor_id == actor_id {
                return true;
            }
            i = i + 1;
        }
        false
    }

    /// The first active pair involving `actor_id`; the all-zero pair when
    /// the actor has no active transaction.
    #[verifier::loop_isolation(false)]
    pub fn get_active_transaction_involving(&self, actor_id: usize) -> (r: (
        TransactionRequest,
        TransactionRequest,
    ))
        ensures
            r == first_active_involving(self@, actor_id),
    {
        let mut i: usize = 0;
        while i < self.active_transactions.len()
            invariant
                0 <= i <= self.active_transactions.len(),
                find_involving_from(self@.active_transactions, actor_id, 0)
                    == find_involving_from(self@.active_transactions, actor_id, i as int),
            decreases self.active_transactions.len() - i,
        {
            let pair = self.active_transactions[i];
            if pair.0.actor_id == actor_id || pair.1.actor_id == actor_id {
                return pair;
            }
            i = i + 1;
        }
        (
            TransactionRequest { transaction_id: 0, actor_id: 0, stock_id: 0, price: 0, quantity: 0 },
            TransactionRequest { transaction_id: 0, actor_id: 0, stock_id: 0, price: 0, quantity: 0 },
        )
    }

    /// Remove the first active pair equal to `tup`, if any.
    #[verifier::loop_isolation(false)]
    pub fn remove_active_transaction(&mut self, tup: &(TransactionRequest, TransactionRequest))
        ensures
            final(self)@ == (MarketView {
                active_transactions: seq_without_first_pair(old(self)@.active_transactions, *tup),
                ..old(self)@
            }),
    {
        let mut i: usize = 0;
        while i < self.active_transactions.len()
            invariant
                0 <= i <= self.active_transactions.len(),
                *self == *old(self),
                find_pair_from(self@.active_transactions, *tup, 0) == find_pair_from(
                    self@.active_transactions,
                    *tup,
                    i as int,
                ),
            decreases self.active_transactions.len() - i,
        {
            let pair = self.active_transactions[i];
            if pair.0 == tup.0 && pair.1 == tup.1 {
                self.active_transactions.remove(i);
                return ;
            }
            i = i + 1;
        }
    }

    /// Address a message to a registered actor; an unknown routing target
    /// is skipped silently.
    pub fn route_actor_message(&self, actor_id: usize, msg: ActorMessages) -> (r: Option<Envelope>)
        ensures
            r == route_actor_opt(self@, actor_id, msg),
    {
        if contains(&self.actors, actor_id) {
            Some(Envelope::ToActor(actor_id, msg))
        } else {
            None
        }
    }

    /// Route an order to its instrument's teller; an unknown instrument
    /// is skipped silently.
    pub fn route(&self, buying: bool, transaction: TransactionRequest) -> (r: Option<Envelope>)
        ensures
            reply_seq(r) == spec_route_order(self@, buying, transaction),
    {
        if transaction.stock_id < self.stock_count {
            if buying {
                Some(
                    Envelope::ToTeller(
                        transaction.stock_id,
                        TellerMessages::BuyRequest(transaction),
                    ),
                )
            } else {
                Some(
                    Envelope::ToTeller(
                        transaction.stock_id,
                        TellerMessages::SellRequest(transaction),
                    ),
                )
            }
        } else {
            None
        }
    }

    /// Address a message to an existing teller; an unknown teller is
    /// skipped silently.
    pub fn route_teller(&self, msg: TellerMessages, teller_id: usize) -> (r: Option<Envelope>)
        ensures
            r == (if teller_id < self@.stock_count {
                Some(Envelope::ToTeller(teller_id, msg))
            } else {
                None::<Envelope>
            }),
    {
        if teller_id < self.stock_count {
            Some(Envelope::ToTeller(teller_id, msg))
        } else {
            None
        }
    }

    /// Activate a matched pair: normalize it so the buyer pays the
    /// seller's price for the smaller quantity, send both escrow
    /// requests, and record the pair as active.
    pub fn activate_transactions(
        &mut self,
        buyer: TransactionRequest,
        seller: TransactionRequest,
    ) -> (out: Vec<Envelope>)
        requires
            pair_ok(buyer, seller),
        ensures
            final(self)@ == spec_activate(old(self)@, buyer, seller).0,
            out@ == spec_activate(old(self)@, buyer, seller).1,
    {
        let mut buyer = buyer;
        let mut seller = seller;
        buyer.price = seller.price;
        let smaller_quantity = if buyer.quantity <= seller.quantity {
            buyer.quantity
        } else {
            seller.quantity
        };
        buyer.quantity = smaller_quantity;
        seller.quantity = smaller_quantity;
        let amount_to_pay = buyer.price * buyer.quantity;
        let mut out: Vec<Envelope> = Vec::new();
        match self.route_actor_message(
            buyer.actor_id,
            ActorMessages::MoneyRequest(MoneyRequest { market_id: self.id, amount: amount_to_pay }),
        ) {
            Some(e) => { out.push(e) },
            None => {},
        }
        match self.route_actor_message(
            seller.actor_id,
            ActorMessages::StockRequest(
                StockRequest {
                    market_id: self.id,
                    stock_id: seller.stock_id,
                    quantity: seller.quantity,
                },
            ),
        ) {
            Some(e) => { out.push(e) },
            None => {},
        }
        self.active_transactions.push((buyer, seller));
        proof {
            assert(out@ =~= spec_activate(old(self)@, buyer, seller).1);
        }
        out
    }

    /// Take on a matched pair: activate it at once when both parties are
    /// free, else queue it as pending.
    pub fn on_match(&mut self, buyer: TransactionRequest, seller: TransactionRequest) -> (out: Vec<
        Envelope,
    >)
        requires
            pair_ok(buyer, seller),
            wf(old(self)@),
        ensures
            final(self)@ == spec_on_match(old(self)@, buyer, seller).0,
            out@ == spec_on_match(old(self)@, buyer, seller).1,
            wf(final(self)@),
    {
        proof {
            lemma_on_match_preserves_wf(old(self)@, buyer, seller);
        }
        if self.has_active_transaction(buyer.actor_id) || self.has_active_transaction(
            seller.actor_id,
        ) {
            self.pending_transactions.push((buyer, seller));
            Vec::new()
        } else {
            self.activate_transactions(buyer, seller)
        }
    }

    /// Record an actor's registration and hand it the history at once.
    pub fn on_register(&mut self, actor_id: usize) -> (out: Vec<Envelope>)
        ensures
            final(self)@ == spec_register(old(self)@, actor_id).0,
            out@ == spec_register(old(self)@, actor_id).1,
            wf(old(self)@) ==> wf(final(self)@),
    {
        if !contains(&self.actors, actor_id) {
            self.actors.push(actor_id);
        }
        let mut out: Vec<Envelope> = Vec::new();
        out.push(Envelope::ToActor(actor_id, ActorMessages::History));
        proof {
            assert(out@ =~= spec_register(old(self)@, actor_id).1);
        }
        out
    }

    /// Promote the first pending pair that involves the freed actor `a`
    /// and whose two parties are both free, if any.
    #[verifier::loop_isolation(false)]
    fn promote_one(&mut self, a: usize) -> (out: Vec<Envelope>)
        requires
            wf(old(self)@),
        ensures
            final(self)@ == spec_promote_one(old(self)@, a).0,
            out@ == spec_promote_one(old(self)@, a).1,
            wf(final(self)@),
    {
        proof {
            lemma_promote_one_preserves_wf(old(self)@, a);
        }
        let mut i: usize = 0;
        while i < self.pending_transactions.len()
            invariant
                0 <= i <= self.pending_transactions.len(),
                *self == *old(self),
                find_promotable_from(
                    self@.pending_transactions,
                    self@.active_transactions,
                    a,
                    0,
                ) == find_promotable_from(
                    self@.pending_transactions,
                    self@.active_transactions,
                    a,
                    i as int,
                ),
            decreases self.pending_transactions.len() - i,
        {
            let pair = self.pending_transactions[i];
            if pair.0.actor_id == a || pair.1.actor_id == a {
                let first_free = !self.has_active_transaction(pair.0.actor_id);
                let second_free = !self.has_active_transaction(pair.1.actor_id);
                if first_free && second_free {
                    self.pending_transactions.remove(i);
                    let out = self.activate_transactions(pair.0, pair.1);
                    return out;
                }
            }
            i = i + 1;
        }
        Vec::new()
    }

    /// Promote at most one pending pair per freed actor: `actor1`'s queue
    /// is scanned in full before `actor2`'s, the oldest-enqueued eligible
    /// pair wins.  This first-fit policy is not globally fair.
    pub fn move_pending_to_active(&mut self, actor1: usize, actor2: usize) -> (out: Vec<Envelope>)
        requires
            wf(old(self)@),
        ensures
            final(self)@ == spec_move_pending(old(self)@, actor1, actor2).0,
            out@ == spec_move_pending(old(self)@, actor1, actor2).1,
            wf(final(self)@),
    {
        let mut out = self.promote_one(actor1);
        let mut promoted = self.promote_one(actor2);
        out.append(&mut promoted);
        proof {
            assert(out@ =~= spec_move_pending(old(self)@, actor1, actor2).1);
        }
        out
    }

    /// Record that `actor_id` committed its reservation; once both
    /// parties of its active pair have committed, settle: notify both
    /// with the counterparty's finalized request, clear the tables, run
    /// promotions and append the pair to the history.  A commit from an
    /// actor with no active transaction is ignored.
    pub fn on_commit(&mut self, actor_id: usize) -> (out: Vec<Envelope>)
        requires
            wf(old(self)@),
        ensures
            final(self)@ == spec_on_commit(old(self)@, actor_id).0,
            out@ == spec_on_commit(old(self)@, actor_id).1,
            wf(final(self)@),
    {
        proof {
            lemma_on_commit_preserves_wf(old(self)@, actor_id);
        }
        let mut out: Vec<Envelope> = Vec::new();
        if self.has_active_transaction(actor_id) {
            if !contains(&self.committed_actors, actor_id) {
                self.committed_actors.push(actor_id);
            }
            let tup = self.get_active_transaction_involving(actor_id);
            if contains(&self.committed_actors, tup.0.actor_id) && contains(
                &self.committed_actors,
                tup.1.actor_id,
            ) {
                proof {
                    lemma_commit_mark_wf(old(self)@, actor_id);
                    lemma_find_involving(self@.active_transactions, actor_id, 0);
                    lemma_removals_preserve_wf(self@, tup);
                }
                remove(&mut self.committed_actors, tup.0.actor_id);
                remove(&mut self.committed_actors, tup.1.actor_id);
                match self.route_actor_message(
                    tup.0.actor_id,
                    ActorMessages::CommitTransaction(tup.1),
                ) {
                    Some(e) => { out.push(e) },
                    None => {},
                }
                match self.route_actor_message(
                    tup.1.actor_id,
                    ActorMessages::CommitTransaction(tup.0),
                ) {
                    Some(e) => { out.push(e) },
                    None => {},
                }
                self.remove_active_transaction(&tup);
                let mut promoted = self.move_pending_to_active(tup.0.actor_id, tup.1.actor_id);
                out.append(&mut promoted);
                self.history.append(tup.0.stock_id, tup);
            }
        }
        proof {
            assert(out@ =~= spec_on_commit(old(self)@, actor_id).1);
            assert(self@ =~= spec_on_commit(old(self)@, actor_id).0);
        }
        out
    }

    /// Abort the active transaction `actor_id` participates in, if any:
    /// both parties are told to roll back, the tables are cleared and
    /// promotions run.  A cancel from an actor with no active
    /// transaction is a no-op: tables, history and messages unchanged.
    pub fn on_cancel(&mut self, actor_id: usize) -> (out: Vec<Envelope>)
        requires
            wf(old(self)@),
        ensures
            final(self)@ == spec_on_cancel(old(self)@, actor_id).0,
            out@ == spec_on_cancel(old(self)@, actor_id).1,
            wf(final(self)@),
            !spec_has_active(old(self)@, actor_id) ==> final(self)@ == old(self)@ && out@
                == Seq::<Envelope>::empty(),
    {
        proof {
            lemma_on_cancel_preserves_wf(old(self)@, actor_id);
        }
        let mut out: Vec<Envelope> = Vec::new();
        if self.has_active_transaction(actor_id) {
            let tup = self.get_active_transaction_involving(actor_id);
            proof {
                lemma_find_involving(old(self)@.active_transactions, actor_id, 0);
                lemma_removals_preserve_wf(old(self)@, tup);
            }
            match self.route_actor_message(tup.0.actor_id, ActorMessages::AbortTransaction) {
                Some(e) => { out.push(e) },
                None => {},
            }
            match self.route_actor_message(tup.1.actor_id, ActorMessages::AbortTransaction) {
                Some(e) => { out.push(e) },
                None => {},
            }
            remove(&mut self.committed_actors, tup.0.actor_id);
            remove(&mut self.committed_actors, tup.1.actor_id);
            self.remove_active_transaction(&tup);
            let mut promoted = self.move_pending_to_active(tup.0.actor_id, tup.1.actor_id);
            out.append(&mut promoted);
        }
        proof {
            assert(out@ =~= spec_on_cancel(old(self)@, actor_id).1);
            assert(self@ =~= spec_on_cancel(old(self)@, actor_id).0);
        }
        out
    }

    /// Handle one inbound message and return the messages to send.
    pub fn handle(&mut self, msg: MarketMessages) -> (out: Vec<Envelope>)
        requires
            wf(old(self)@),
            market_msg_ok(msg),
        ensures
            final(self)@ == spec_market_step(old(self)@, msg).0,
            out@ == spec_market_step(old(self)@, msg).1,
            wf(final(self)@),
    {
        proof {
            lemma_market_step_preserves_wf(old(self)@, msg);
        }
        match msg {
            MarketMessages::RequestActivityCount(actor_id, stock_id, buying) => {
                let mut out: Vec<Envelope> = Vec::new();
                if contains(&self.actors, actor_id) {
                    match self.route_teller(
                        TellerMessages::RequestCount(actor_id, buying),
                        stock_id,
                    ) {
                        Some(e) => { out.push(e) },
                        None => {},
                    }
                }
                proof {
                    assert(out@ =~= spec_market_step(old(self)@, msg).1);
                }
                out
            },
            MarketMessages::SellRequest(request) => {
                let mut out: Vec<Envelope> = Vec::new();
                match self.route(false, request) {
                    Some(e) => { out.push(e) },
                    None => {},
                }
                proof {
                    assert(out@ =~= spec_market_step(old(self)@, msg).1);
                }
                out
            },
            MarketMessages::BuyRequest(request) => {
                let mut out: Vec<Envelope> = Vec::new();
                match self.route(true, request) {
                    Some(e) => { out.push(e) },
                    None => {},
                }
                proof {
                    assert(out@ =~= spec_market_step(old(self)@, msg).1);
                }
                out
            },
            MarketMessages::Commit(actor_id) => self.on_commit(actor_id),
            MarketMessages::Cancel(actor_id) => self.on_cancel(actor_id),
            MarketMessages::RegisterActor(actor_id) => self.on_register(actor_id),
            MarketMessages::MatchRequest(buyer, seller) => self.on_match(buyer, seller),
        }
    }
}

} // verus!

//! Crossing of arriving orders against resting liquidity, the price-bounds
//! helper for a batch-clearing algorithm, and the magnitude-tolerant
//! comparison primitives.

use vstd::prelude::*;
use crate::order::{Order, TradeType};
use crate::order_book::{
    add_outcome, contains_id, insert_idx, lemma_tail_price, Book, BookError,
};

verus! {

/// One executed match: the resting (maker) order and the arriving (taker)
/// order exchange `quantity` at the resting order's quoted price.
pub struct Trade {
    pub maker_id: String,
    pub taker_id: String,
    pub quantity: i64,
    pub price: i64,
}

/// The order `o` with its quantity replaced by `q` and every other field
/// kept.
pub open spec fn with_quantity(o: Order, q: i64) -> Order {
    Order {
        trader_id: o.trader_id,
        order_type: o.order_type,
        trade_type: o.trade_type,
        price: o.price,
        quantity: q,
    }
}

/// The trade emitted when the resting `maker` meets the arriving `taker`
/// for `quantity` shares: always at the maker's quoted price.
pub open spec fn crossing_trade(maker: Order, taker: Order, quantity: i64) -> Trade {
    Trade {
        maker_id: maker.trader_id,
        taker_id: taker.trader_id,
        quantity,
        price: maker.price,
    }
}

/// What an arriving ask does to the two books, walking the bid book down
/// from its tail. Yields the bid contents, the ask contents, the trades in
/// the order they were struck, and the outcome of the final insertion (an
/// arriving order that crosses away completely inserts nothing and always
/// succeeds).
///
/// The ask crosses while its price is at or below the best (tail) bid; it
/// fills at each bid's quoted price, and whatever quantity survives the
/// walk is added to the ask book. Quantity arithmetic wraps on the tick
/// domain; matching is only meaningful for nonnegative quantities (see
/// [`lemma_ask_cross_conserves`]).
pub open spec fn ask_cross(bids: Seq<Order>, asks: Seq<Order>, ask: Order) -> (
    Seq<Order>,
    Seq<Order>,
    Seq<Trade>,
    Result<(), BookError>,
)
    decreases bids.len(),
{
    if bids.len() > 0 && ask.price <= bids.last().price {
        let best = bids.last();
        let rest = bids.drop_last();
        if ask.quantity < best.quantity {
            let reduced = with_quantity(
                best,
                vstd::wrapping::i64_specs::wrapping_sub(best.quantity, ask.quantity),
            );
            (rest.push(reduced), asks, seq![crossing_trade(best, ask, ask.quantity)], Ok(()))
        } else if ask.quantity == best.quantity {
            (rest, asks, seq![crossing_trade(best, ask, ask.quantity)], Ok(()))
        } else {
            let rem = with_quantity(
                ask,
                vstd::wrapping::i64_specs::wrapping_sub(ask.quantity, best.quantity),
            );
            let sub = ask_cross(rest, asks, rem);
            (sub.0, sub.1, seq![crossing_trade(best, ask, best.quantity)] + sub.2, sub.3)
        }
    } else {
        let out = add_outcome(TradeType::Ask, asks, ask);
        (bids, out.0, Seq::<Trade>::empty(), out.1)
    }
}

/// The mirror of [`ask_cross`]: what an arriving bid does, walking the ask
/// book down from its tail. The bid crosses while its price is at or above
/// the best (tail) ask.
pub open spec fn bid_cross(bids: Seq<Order>, asks: Seq<Order>, bid: Order) -> (
    Seq<Order>,
    Seq<Order>,
    Seq<Trade>,
    Result<(), BookError>,
)
    decreases asks.len(),
{
    if asks.len() > 0 && bid.price >= asks.last().price {
        let best = asks.last();
        let rest = asks.drop_last();
        if bid.quantity < best.quantity {
            let reduced = with_quantity(
                best,
                vstd::wrapping::i64_specs::wrapping_sub(best.quantity, bid.quantity),
            );
            (bids, rest.push(reduced), seq![crossing_trade(best, bid, bid.quantity)], Ok(()))
        } else if bid.quantity == best.quantity {
            (bids, rest, seq![crossing_trade(best, bid, bid.quantity)], Ok(()))
        } else {
            let rem = with_quantity(
                bid,
                vstd::wrapping::i64_specs::wrapping_sub(bid.quantity, best.quantity),
            );
            let sub = bid_cross(bids, rest, rem);
            (sub.0, sub.1, seq![crossing_trade(best, bid, best.quantity)] + sub.2, sub.3)
        }
    } else {
        let out = add_outcome(TradeType::Bid, bids, bid);
        (out.0, asks, Seq::<Trade>::empty(), out.1)
    }
}

/// The summed quantity of a sequence of resting orders.
pub open spec fn total_quantity(s: Seq<Order>) -> int
    decreases s.len(),
{
    if s.len() == 0 {
        0
    } else {
        total_quantity(s.drop_last()) + s.last().quantity
    }
}

/// The summed quantity exchanged by a sequence of trades.
pub open spec fn total_traded(ts: Seq<Trade>) -> int
    decreases ts.len(),
{
    if ts.len() == 0 {
        0
    } else {
        total_traded(ts.drop_last()) + ts.last().quantity
    }
}

proof fn lemma_total_push(s: Seq<Order>, o: Order)
    ensures
        total_quantity(s.push(o)) == total_quantity(s) + o.quantity,
{
    let t = s.push(o);
    assert(t.drop_last() =~= s);
    assert(t.last() == o);
}

proof fn lemma_total_insert(s: Seq<Order>, k: int, o: Order)
    requires
        0 <= k <= s.len(),
    ensures
        total_quantity(s.insert(k, o)) == total_quantity(s) + o.quantity,
    decreases s.len(),
{
    let t = s.insert(k, o);
    if k == s.len() {
        assert(t =~= s.push(o));
        lemma_total_push(s, o);
    } else {
        assert(t.last() == s.last());
        assert(t.drop_last() =~= s.drop_last().insert(k, o));
        lemma_total_insert(s.drop_last(), k, o);
    }
}

proof fn lemma_traded_singleton(t: Trade)
    ensures
        total_traded(seq![t]) == t.quantity,
{
    assert(seq![t].drop_last() =~= Seq::<Trade>::empty());
    assert(total_traded(Seq::<Trade>::empty()) == 0);
    assert(seq![t].last() == t);
}

proof fn lemma_traded_concat(a: Seq<Trade>, b: Seq<Trade>)
    ensures
        total_traded(a + b) == total_traded(a) + total_traded(b),
    decreases b.len(),
{
    if b.len() == 0 {
        assert(a + b =~= a);
    } else {
        assert((a + b).drop_last() =~= a + b.drop_last());
        assert((a + b).last() == b.last());
        lemma_traded_concat(a, b.drop_last());
    }
}

/// Quantity is conserved across a crossing event on the defined domain of
/// nonnegative quantities: the quantity the resting bids lose is exactly
/// the quantity traded (what one side sells, the other buys), and when the
/// walk's final insertion is not refused, the quantity the ask book gains
/// is exactly the arriving ask's quantity less the quantity traded — so
/// the resting delta plus the newcomer's consumed quantity nets to zero.
pub proof fn lemma_ask_cross_conserves(bids: Seq<Order>, asks: Seq<Order>, ask: Order)
    requires
        ask.quantity >= 0,
        forall|i: int| 0 <= i < bids.len() ==> #[trigger] bids[i].quantity >= 0,
    ensures
        ({
            let r = ask_cross(bids, asks, ask);
            total_quantity(bids) - total_quantity(r.0) == total_traded(r.2) && (r.3 is Ok
                ==> total_quantity(r.1) - total_quantity(asks) == ask.quantity - total_traded(r.2))
        }),
    decreases bids.len(),
{
    if bids.len() > 0 && ask.price <= bids.last().price {
        let best = bids.last();
        let rest = bids.drop_last();
        assert(best.quantity >= 0);
        if ask.quantity < best.quantity {
            let reduced = with_quantity(
                best,
                vstd::wrapping::i64_specs::wrapping_sub(best.quantity, ask.quantity),
            );
            assert(reduced.quantity == best.quantity - ask.quantity);
            lemma_total_push(rest, reduced);
            lemma_traded_singleton(crossing_trade(best, ask, ask.quantity));
        } else if ask.quantity == best.quantity {
            lemma_traded_singleton(crossing_trade(best, ask, ask.quantity));
        } else {
            let rem = with_quantity(
                ask,
                vstd::wrapping::i64_specs::wrapping_sub(ask.quantity, best.quantity),
            );
            assert(rem.quantity == ask.quantity - best.quantity);
            assert forall|i: int| 0 <= i < rest.len() implies #[trigger] rest[i].quantity
                >= 0 by {
                assert(rest[i] == bids[i]);
            }
            lemma_ask_cross_conserves(rest, asks, rem);
            let head = seq![crossing_trade(best, ask, best.quantity)];
            let sub = ask_cross(rest, asks, rem);
            lemma_traded_concat(head, sub.2);
            lemma_traded_singleton(crossing_trade(best, ask, best.quantity));
        }
    } else {
        assert(total_traded(Seq::<Trade>::empty()) == 0);
        let out = add_outcome(TradeType::Ask, asks, ask);
        if out.1 is Ok {
            crate::order_book::lemma_insert_idx_bounds(TradeType::Ask, asks, ask.price as int);
            lemma_total_insert(asks, insert_idx(TradeType::Ask, asks, ask.price as int), ask);
        }
    }
}

/// The mirror of [`lemma_ask_cross_conserves`]: across a bid's crossing
/// walk the resting asks lose exactly the traded quantity, and the bid
/// book gains the arriving bid's quantity less the traded quantity.
pub proof fn lemma_bid_cross_conserves(bids: Seq<Order>, asks: Seq<Order>, bid: Order)
    requires
        bid.quantity >= 0,
        forall|i: int| 0 <= i < asks.len() ==> #[trigger] asks[i].quantity >= 0,
    ensures
        ({
            let r = bid_cross(bids, asks, bid);
            total_quantity(asks) - total_quantity(r.1) == total_traded(r.2) && (r.3 is Ok
                ==> total_quantity(r.0) - total_quantity(bids) == bid.quantity - total_traded(r.2))
        }),
    decreases asks.len(),
{
    if asks.len() > 0 && bid.price >= asks.last().price {
        let best = asks.last();
        let rest = asks.drop_last();
        assert(best.quantity >= 0);
        if bid.quantity < best.quantity {
            let reduced = with_quantity(
                best,
                vstd::wrapping::i64_specs::wrapping_sub(best.quantity, bid.quantity),
            );
            assert(reduced.quantity == best.quantity - bid.quantity);
            lemma_total_push(rest, reduced);
            lemma_traded_singleton(crossing_trade(best, bid, bid.quantity));
        } else if bid.quantity == best.quantity {
            lemma_traded_singleton(crossing_trade(best, bid, bid.quantity));
        } else {
            let rem = with_quantity(
                bid,
                vstd::wrapping::i64_specs::wrapping_sub(bid.quantity, best.quantity),
            );
            assert(rem.quantity == bid.quantity - best.quantity);
            assert forall|i: int| 0 <= i < rest.len() implies #[trigger] rest[i].quantity
                >= 0 by {
                assert(rest[i] == asks[i]);
            }
            lemma_bid_cross_conserves(bids, rest, rem);
            let head = seq![crossing_trade(best, bid, best.quantity)];
            let sub = bid_cross(bids, rest, rem);
            lemma_traded_concat(head, sub.2);
            lemma_traded_singleton(crossing_trade(best, bid, best.quantity));
        }
    } else {
        assert(total_traded(Seq::<Trade>::empty()) == 0);
        let out = add_outcome(TradeType::Bid, bids, bid);
        if out.1 is Ok {
            crate::order_book::lemma_insert_idx_bounds(TradeType::Bid, bids, bid.price as int);
            lemma_total_insert(bids, insert_idx(TradeType::Bid, bids, bid.price as int), bid);
        }
    }
}

/// An arriving ask that does not cross — priced strictly above the best
/// (tail) bid, or arriving against an empty bid book — strikes no trade,
/// leaves the bid book unchanged, and rests in the ask book at its sorted
/// position.
pub proof fn lemma_ask_no_cross_inserts(bids: Seq<Order>, asks: Seq<Order>, ask: Order)
    requires
        bids.len() > 0 ==> ask.price > bids.last().price,
        ask.trade_type == TradeType::Ask,
        !contains_id(asks, ask.trader_id@),
    ensures
        ({
            let r = ask_cross(bids, asks, ask);
            r.0 == bids && r.2 == Seq::<Trade>::empty() && r.3 is Ok && r.1 == asks.insert(
                insert_idx(TradeType::Ask, asks, ask.price as int),
                ask,
            )
        }),
{
}

/// The mirror of [`lemma_ask_no_cross_inserts`]: a bid priced strictly
/// below the best (tail) ask, or arriving against an empty ask book,
/// strikes no trade, leaves the ask book unchanged, and rests in the bid
/// book.
pub proof fn lemma_bid_no_cross_inserts(bids: Seq<Order>, asks: Seq<Order>, bid: Order)
    requires
        asks.len() > 0 ==> bid.price < asks.last().price,
        bid.trade_type == TradeType::Bid,
        !contains_id(bids, bid.trader_id@),
    ensures
        ({
            let r = bid_cross(bids, asks, bid);
            r.1 == asks && r.2 == Seq::<Trade>::empty() && r.3 is Ok && r.0 == bids.insert(
                insert_idx(TradeType::Bid, bids, bid.price as int),
                bid,
            )
        }),
{
}

/// The crossing engine and the comparison primitives it is paired with.
pub struct Auction {}

impl Auction {
    /// Walks the bid book down from its best bid, filling the arriving ask
    /// until its price no longer crosses or its quantity is spent; any
    /// remainder is added to the ask book. Trades are returned in the order
    /// they were struck, each at the resting bid's quoted price.
    pub fn calc_ask_crossing(bids: &mut Book, asks: &mut Book, new_ask: Order) -> (r: (
        Vec<Trade>,
        Result<(), BookError>,
    ))
        requires
            old(bids).wf(),
            old(asks).wf(),
            old(bids).side == TradeType::Bid,
            old(asks).side == TradeType::Ask,
            new_ask.trade_type == TradeType::Ask,
        ensures
            final(bids).wf(),
            final(asks).wf(),
            final(bids).side == TradeType::Bid,
            final(asks).side == TradeType::Ask,
            ({
                let spec_r = ask_cross(old(bids)@, old(asks)@, new_ask);
                final(bids)@ == spec_r.0 && final(asks)@ == spec_r.1 && r.0@ == spec_r.2 && r.1
                    == spec_r.3
            }),
        decreases old(bids)@.len(),
    {
        proof {
            if bids@.len() > 0 {
                lemma_tail_price(TradeType::Bid, bids@);
            }
        }
        let crosses = new_ask.price <= bids.get_max_price();
        if crosses {
            match bids.pop_from_end() {
                None => {
                    let res = asks.add_order(new_ask);
                    (Vec::new(), res)
                },
                Some(best_bid) => {
                    proof {
                        let s = old(bids)@;
                        assert forall|i: int|
                            0 <= i < s.len() - 1 && s[i].trader_id@ == s.last().trader_id@
                            implies false by {}
                        if s.len() > 1 {
                            assert(s[s.len() - 2] == s.drop_last().last());
                        }
                    }
                    if new_ask.quantity < best_bid.quantity {
                        let reduced_q = best_bid.quantity.wrapping_sub(new_ask.quantity);
                        let trade = Trade {
                            maker_id: best_bid.trader_id.clone(),
                            taker_id: new_ask.trader_id,
                            quantity: new_ask.quantity,
                            price: best_bid.price,
                        };
                        let reduced = Order {
                            trader_id: best_bid.trader_id,
                            order_type: best_bid.order_type,
                            trade_type: best_bid.trade_type,
                            price: best_bid.price,
                            quantity: reduced_q,
                        };
                        bids.push_to_end(reduced);
                        let mut trades: Vec<Trade> = Vec::new();
                        trades.push(trade);
                        (trades, Ok(()))
                    } else if new_ask.quantity == best_bid.quantity {
                        let trade = Trade {
                            maker_id: best_bid.trader_id,
                            taker_id: new_ask.trader_id,
                            quantity: new_ask.quantity,
                            price: best_bid.price,
                        };
                        let mut trades: Vec<Trade> = Vec::new();
                        trades.push(trade);
                        (trades, Ok(()))
                    } else {
                        let rem_q = new_ask.quantity.wrapping_sub(best_bid.quantity);
                        let trade = Trade {
                            maker_id: best_bid.trader_id,
                            taker_id: new_ask.trader_id.clone(),
                            quantity: best_bid.quantity,
                            price: best_bid.price,
                        };
                        let rem = Order {
                            trader_id: new_ask.trader_id,
                            order_type: new_ask.order_type,
                            trade_type: new_ask.trade_type,
                            price: new_ask.price,
                            quantity: rem_q,
                        };
                        let (mut sub_trades, res) = Auction::calc_ask_crossing(bids, asks, rem);
                        let mut trades: Vec<Trade> = Vec::new();
                        trades.push(trade);
                        trades.append(&mut sub_trades);
                        (trades, res)
                    }
                },
            }
        } else {
            let res = asks.add_order(new_ask);
            (Vec::new(), res)
        }
    }

    /// The mirror of [`Auction::calc_ask_crossing`]: walks the ask book
    /// down from its best ask, filling the arriving bid, each trade at the
    /// resting ask's quoted price.
    pub fn calc_bid_crossing(bids: &mut Book, asks: &mut Book, new_bid: Order) -> (r: (
        Vec<Trade>,
        Result<(), BookError>,
    ))
        requires
            old(bids).wf(),
            old(asks).wf(),
            old(bids).side == TradeType::Bid,
            old(asks).side == TradeType::Ask,
            new_bid.trade_type == TradeType::Bid,
        ensures
            final(bids).wf(),
            final(asks).wf(),
            final(bids).side == TradeType::Bid,
            final(asks).side == TradeType::Ask,
            ({
                let spec_r = bid_cross(old(bids)@, old(asks)@, new_bid);
                final(bids)@ == spec_r.0 && final(asks)@ == spec_r.1 && r.0@ == spec_r.2 && r.1
                    == spec_r.3
            }),
        decreases old(asks)@.len(),
    {
        proof {
            if asks@.len() > 0 {
                lemma_tail_price(TradeType::Ask, asks@);
            }
        }
        let crosses = new_bid.price >= asks.get_min_price();
        if crosses {
            match asks.pop_from_end() {
                None => {
                    let res = bids.add_order(new_bid);
                    (Vec::new(), res)
                },
                Some(best_ask) => {
                    proof {
                        let s = old(asks)@;
                        assert forall|i: int|
                            0 <= i < s.len() - 1 && s[i].trader_id@ == s.last().trader_id@
                            implies false by {}
                        if s.len() > 1 {
                            assert(s[s.len() - 2] == s.drop_last().last());
                        }
                    }
                    if new_bid.quantity < best_ask.quantity {
                        let reduced_q = best_ask.quantity.wrapping_sub(new_bid.quantity);
                        let trade = Trade {
                            maker_id: best_ask.trader_id.clone(),
                            taker_id: new_bid.trader_id,
                            quantity: new_bid.quantity,
                            price: best_ask.price,
                        };
                        let reduced = Order {
                            trader_id: best_ask.trader_id,
                            order_type: best_ask.order_type,
                            trade_type: best_ask.trade_type,
                            price: best_ask.price,
                            quantity: reduced_q,
                        };
                        asks.push_to_end(reduced);
                        let mut trades: Vec<Trade> = Vec::new();
                        trades.push(trade);
                        (trades, Ok(()))
                    } else if new_bid.quantity == best_ask.quantity {
                        let trade = Trade {
                            maker_id: best_ask.trader_id,
                            taker_id: new_bid.trader_id,
                            quantity: new_bid.quantity,
                            price: best_ask.price,
                        };
                        let mut trades: Vec<Trade> = Vec::new();
                        trades.push(trade);
                        (trades, Ok(()))
                    } else {
                        let rem_q = new_bid.quantity.wrapping_sub(best_ask.quantity);
                        let trade = Trade {
                            maker_id: best_ask.trader_id,
                            taker_id: new_bid.trader_id.clone(),
                            quantity: best_ask.quantity,
                            price: best_ask.price,
                        };
                        let rem = Order {
                            trader_id: new_bid.trader_id,
                            order_type: new_bid.order_type,
                            trade_type: new_bid.trade_type,
                            price: new_bid.price,
                            quantity: rem_q,
                        };
                        let (mut sub_trades, res) = Auction::calc_bid_crossing(bids, asks, rem);
                        let mut trades: Vec<Trade> = Vec::new();
                        trades.push(trade);
                        trades.append(&mut sub_trades);
                        (trades, res)
                    }
                },
            }
        } else {
            let res = bids.add_order(new_bid);
            (Vec::new(), res)
        }
    }

    /// The joint interval a batch-clearing algorithm may scan: the least of
    /// the two cached minima and the greatest of the two cached maxima.
    pub fn get_price_bounds(bids: &Book, asks: &Book) -> (r: (i64, i64))
        ensures
            r.0 == vstd::math::min(bids.min_price as int, asks.min_price as int),
            r.1 == vstd::math::max(bids.max_price as int, asks.max_price as int),
    {
        let bids_min = bids.get_min_price();
        let bids_max = bids.get_max_price();
        let asks_min = asks.get_min_price();
        let asks_max = asks.get_max_price();
        (Auction::min_val(&bids_min, &asks_min), Auction::max_val(&bids_max, &asks_max))
    }

    /// The greater of two tick values.
    pub fn max_val(a: &i64, b: &i64) -> (r: i64)
        ensures
            r == vstd::math::max(*a as int, *b as int),
    {
        if *a < *b {
            *b
        } else {
            *a
        }
    }

    /// The lesser of two tick values.
    pub fn min_val(a: &i64, b: &i64) -> (r: i64)
        ensures
            r == vstd::math::min(*a as int, *b as int),
    {
        if *a < *b {
            *a
        } else {
            *b
        }
    }

    /// Whether `a` exceeds `b` in magnitude.
    ///
    /// Like its real-valued counterpart this compares absolute values, with
    /// a tolerance finer than one tick, so on tick counts it is exact; for
    /// nonnegative operands it agrees with the signed order, while signed
    /// operands are compared by magnitude alone.
    pub fn greater_than_e(a: &i64, b: &i64) -> (r: bool)
        requires
            *a != i64::MIN,
            *b != i64::MIN,
        ensures
            r == (vstd::math::abs(*a as int) > vstd::math::abs(*b as int)),
    {
        let aa: i64 = if *a < 0 {
            -*a
        } else {
            *a
        };
        let bb: i64 = if *b < 0 {
            -*b
        } else {
            *b
        };
        aa > bb
    }

    /// Whether `a` falls below `b` in magnitude; the mirror of
    /// [`Auction::greater_than_e`].
    pub fn less_than_e(a: &i64, b: &i64) -> (r: bool)
        requires
            *a != i64::MIN,
            *b != i64::MIN,
        ensures
            r == (vstd::math::abs(*a as int) < vstd::math::abs(*b as int)),
    {
        let aa: i64 = if *a < 0 {
            -*a
        } else {
            *a
        };
        let bb: i64 = if *b < 0 {
            -*b
        } else {
            *b
        };
        aa < bb
    }

    /// Whether `a` and `b` lie within the comparison tolerance of each
    /// other. The tolerance is finer than one tick, so on tick counts this
    /// is exact equality.
    pub fn equal_e(a: &i64, b: &i64) -> (r: bool)
        ensures
            r == (a == b),
    {
        *a == *b
    }
}

} // verus!

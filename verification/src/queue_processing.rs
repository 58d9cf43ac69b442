//! Draining the inbound queue and dispatching each order to its handler,
//! under the controller's gate.

use vstd::prelude::*;
use crate::auction::{ask_cross, bid_cross, Auction, Trade};
use crate::controller::State;
use crate::order::{Order, OrderType, TradeType};
use crate::order_book::{
    add_outcome, ask_book_min_price, bid_book_max_price, cancel_outcome, Book, BookError,
};
use crate::queue::Queue;

verus! {

/// The reported form of a handler's outcome: nothing on success, the
/// refusal on failure.
pub open spec fn err_seq(r: Result<(), BookError>) -> Seq<BookError> {
    match r {
        Ok(u) => Seq::<BookError>::empty(),
        Err(e) => seq![e],
    }
}

/// What handling one entering order does to the books: an ask that prices
/// below the best resting ask is routed through the crossing walk, and an
/// ask that does not is rested directly; mirrored for a bid against the
/// best resting bid.
pub open spec fn enter_step(bids: Seq<Order>, asks: Seq<Order>, o: Order) -> (
    Seq<Order>,
    Seq<Order>,
    Seq<Trade>,
    Seq<BookError>,
) {
    match o.trade_type {
        TradeType::Ask => {
            if (o.price as int) < ask_book_min_price(asks) {
                let r = ask_cross(bids, asks, o);
                (r.0, r.1, r.2, err_seq(r.3))
            } else {
                let out = add_outcome(TradeType::Ask, asks, o);
                (bids, out.0, Seq::<Trade>::empty(), err_seq(out.1))
            }
        },
        TradeType::Bid => {
            if (o.price as int) > bid_book_max_price(bids) {
                let r = bid_cross(bids, asks, o);
                (r.0, r.1, r.2, err_seq(r.3))
            } else {
                let out = add_outcome(TradeType::Bid, bids, o);
                (out.0, asks, Seq::<Trade>::empty(), err_seq(out.1))
            }
        },
    }
}

/// What handling an updating order does: the resting order with the same
/// trader id is removed from the side the update names — silently when
/// none rests — and the update is then handled as an entering order.
pub open spec fn update_step(bids: Seq<Order>, asks: Seq<Order>, o: Order) -> (
    Seq<Order>,
    Seq<Order>,
    Seq<Trade>,
    Seq<BookError>,
) {
    match o.trade_type {
        TradeType::Ask => enter_step(bids, cancel_outcome(asks, o.trader_id@).0, o),
        TradeType::Bid => enter_step(cancel_outcome(bids, o.trader_id@).0, asks, o),
    }
}

/// What handling a cancelling order does: the resting order with the same
/// trader id is removed from the side the cancel names; its absence is
/// reported and leaves both books unchanged.
pub open spec fn cancel_step(bids: Seq<Order>, asks: Seq<Order>, o: Order) -> (
    Seq<Order>,
    Seq<Order>,
    Seq<Trade>,
    Seq<BookError>,
) {
    match o.trade_type {
        TradeType::Ask => {
            let out = cancel_outcome(asks, o.trader_id@);
            (bids, out.0, Seq::<Trade>::empty(), err_seq(out.1))
        },
        TradeType::Bid => {
            let out = cancel_outcome(bids, o.trader_id@);
            (out.0, asks, Seq::<Trade>::empty(), err_seq(out.1))
        },
    }
}

/// What handling one drained order does, dispatched on its order type.
pub open spec fn step_outcome(bids: Seq<Order>, asks: Seq<Order>, o: Order) -> (
    Seq<Order>,
    Seq<Order>,
    Seq<Trade>,
    Seq<BookError>,
) {
    match o.order_type {
        OrderType::Enter => enter_step(bids, asks, o),
        OrderType::Update => update_step(bids, asks, o),
        OrderType::Cancel => cancel_step(bids, asks, o),
    }
}

/// What handling a whole drained batch does, one order after the other in
/// drain order, concatenating the trades struck and the refusals reported.
pub open spec fn batch_outcome(bids: Seq<Order>, asks: Seq<Order>, orders: Seq<Order>) -> (
    Seq<Order>,
    Seq<Order>,
    Seq<Trade>,
    Seq<BookError>,
)
    decreases orders.len(),
{
    if orders.len() == 0 {
        (bids, asks, Seq::<Trade>::empty(), Seq::<BookError>::empty())
    } else {
        let s = step_outcome(bids, asks, orders[0]);
        let rest = batch_outcome(s.0, s.1, orders.drop_first());
        (rest.0, rest.1, s.2 + rest.2, s.3 + rest.3)
    }
}

/// Drains the inbound queue and dispatches each order by its type, under
/// the controller's gate.
pub struct QueueProcessor {}

impl QueueProcessor {
    /// Handles one entering order: routed through the crossing walk when
    /// its price beats the best resting price on its own side, rested
    /// directly otherwise.
    pub fn process_enter(bids: &mut Book, asks: &mut Book, order: Order) -> (r: (
        Vec<Trade>,
        Result<(), BookError>,
    ))
        requires
            old(bids).wf(),
            old(asks).wf(),
            old(bids).side == TradeType::Bid,
            old(asks).side == TradeType::Ask,
        ensures
            final(bids).wf(),
            final(asks).wf(),
            final(bids).side == TradeType::Bid,
            final(asks).side == TradeType::Ask,
            ({
                let s = enter_step(old(bids)@, old(asks)@, order);
                final(bids)@ == s.0 && final(asks)@ == s.1 && r.0@ == s.2 && err_seq(r.1) == s.3
            }),
    {
        match &order.trade_type {
            TradeType::Ask => {
                if order.price < asks.get_min_price() {
                    Auction::calc_ask_crossing(bids, asks, order)
                } else {
                    let res = asks.add_order(order);
                    (Vec::new(), res)
                }
            },
            TradeType::Bid => {
                if order.price > bids.get_max_price() {
                    Auction::calc_bid_crossing(bids, asks, order)
                } else {
                    let res = bids.add_order(order);
                    (Vec::new(), res)
                }
            },
        }
    }

    /// Handles one updating order: cancels the resting order with the same
    /// trader id from the side the update names — silently when none rests
    /// — and then enters the updated fields as a fresh order.
    pub fn process_update(bids: &mut Book, asks: &mut Book, order: Order) -> (r: (
        Vec<Trade>,
        Result<(), BookError>,
    ))
        requires
            old(bids).wf(),
            old(asks).wf(),
            old(bids).side == TradeType::Bid,
            old(asks).side == TradeType::Ask,
        ensures
            final(bids).wf(),
            final(asks).wf(),
            final(bids).side == TradeType::Bid,
            final(asks).side == TradeType::Ask,
            ({
                let s = update_step(old(bids)@, old(asks)@, order);
                final(bids)@ == s.0 && final(asks)@ == s.1 && r.0@ == s.2 && err_seq(r.1) == s.3
            }),
    {
        match &order.trade_type {
            TradeType::Ask => {
                let _ = asks.cancel_order_by_index(&order.trader_id);
            },
            TradeType::Bid => {
                let _ = bids.cancel_order_by_index(&order.trader_id);
            },
        }
        QueueProcessor::process_enter(bids, asks, order)
    }

    /// Handles one cancelling order: removes the resting order with the
    /// same trader id from the side the cancel names, reporting its
    /// absence.
    pub fn process_cancel(bids: &mut Book, asks: &mut Book, order: Order) -> (r: Result<
        (),
        BookError,
    >)
        requires
            old(bids).wf(),
            old(asks).wf(),
            old(bids).side == TradeType::Bid,
            old(asks).side == TradeType::Ask,
        ensures
            final(bids).wf(),
            final(asks).wf(),
            final(bids).side == TradeType::Bid,
            final(asks).side == TradeType::Ask,
            ({
                let s = cancel_step(old(bids)@, old(asks)@, order);
                final(bids)@ == s.0 && final(asks)@ == s.1 && err_seq(r) == s.3
            }),
    {
        match &order.trade_type {
            TradeType::Ask => asks.cancel_order(order),
            TradeType::Bid => bids.cancel_order(order),
        }
    }

    /// Drains the queue and handles every drained order in drain (FIFO)
    /// order, returning the trades struck and the refusals reported, each
    /// in the order they arose.
    pub fn conc_process_order_queue(queue: &mut Queue, bids: &mut Book, asks: &mut Book) -> (r: (
        Vec<Trade>,
        Vec<BookError>,
    ))
        requires
            old(bids).wf(),
            old(asks).wf(),
            old(bids).side == TradeType::Bid,
            old(asks).side == TradeType::Ask,
        ensures
            final(bids).wf(),
            final(asks).wf(),
            final(bids).side == TradeType::Bid,
            final(asks).side == TradeType::Ask,
            final(queue)@ == Seq::<Order>::empty(),
            ({
                let b = batch_outcome(old(bids)@, old(asks)@, old(queue)@);
                final(bids)@ == b.0 && final(asks)@ == b.1 && r.0@ == b.2 && r.1@ == b.3
            }),
    {
        let ghost all: Seq<Order> = queue@;
        let mut orders = queue.pop_all();
        let mut trades: Vec<Trade> = Vec::new();
        let mut errs: Vec<BookError> = Vec::new();
        while orders.len() > 0
            invariant
                bids.wf(),
                asks.wf(),
                bids.side == TradeType::Bid,
                asks.side == TradeType::Ask,
                ({
                    let rest = batch_outcome(bids@, asks@, orders@);
                    let whole = batch_outcome(old(bids)@, old(asks)@, all);
                    whole.0 == rest.0 && whole.1 == rest.1 && whole.2 == trades@ + rest.2
                        && whole.3 == errs@ + rest.3
                }),
            decreases orders.len(),
        {
            let ghost orders_pre = orders@;
            let ghost bids_pre = bids@;
            let ghost asks_pre = asks@;
            let ghost trades_pre = trades@;
            let ghost errs_pre = errs@;
            let order = orders.remove(0);
            match &order.order_type {
                OrderType::Enter => {
                    let (mut t, res) = QueueProcessor::process_enter(bids, asks, order);
                    trades.append(&mut t);
                    match res {
                        Ok(_) => {},
                        Err(e) => errs.push(e),
                    }
                },
                OrderType::Update => {
                    let (mut t, res) = QueueProcessor::process_update(bids, asks, order);
                    trades.append(&mut t);
                    match res {
                        Ok(_) => {},
                        Err(e) => errs.push(e),
                    }
                },
                OrderType::Cancel => {
                    match QueueProcessor::process_cancel(bids, asks, order) {
                        Ok(_) => {},
                        Err(e) => errs.push(e),
                    }
                },
            }
            proof {
                let s = step_outcome(bids_pre, asks_pre, orders_pre[0]);
                let rest_pre = batch_outcome(bids_pre, asks_pre, orders_pre);
                let rest_post = batch_outcome(bids@, asks@, orders@);
                assert(orders@ =~= orders_pre.drop_first());
                assert(trades@ =~= trades_pre + s.2);
                assert(errs@ =~= errs_pre + s.3);
                let whole = batch_outcome(old(bids)@, old(asks)@, all);
                assert(whole.2 =~= trades@ + rest_post.2);
                assert(whole.3 =~= errs@ + rest_post.3);
            }
        }
        proof {
            let rest = batch_outcome(bids@, asks@, orders@);
            assert(orders@ =~= Seq::<Order>::empty());
            let whole = batch_outcome(old(bids)@, old(asks)@, all);
            assert(whole.2 =~= trades@ + rest.2);
            assert(whole.2 =~= trades@);
            assert(whole.3 =~= errs@);
        }
        (trades, errs)
    }

    /// One tick of the queue-drain task. In the Process state it drains
    /// and dispatches the queue and reports that it ran; in any other
    /// state it touches nothing — however many such ticks fire while an
    /// auction window is open, the queue and both books stay exactly as
    /// they were.
    pub fn run_queue_tick(state: &State, queue: &mut Queue, bids: &mut Book, asks: &mut Book) -> (r:
        (Vec<Trade>, Vec<BookError>, bool))
        requires
            old(bids).wf(),
            old(asks).wf(),
            old(bids).side == TradeType::Bid,
            old(asks).side == TradeType::Ask,
        ensures
            final(bids).wf(),
            final(asks).wf(),
            final(bids).side == TradeType::Bid,
            final(asks).side == TradeType::Ask,
            *state != State::Process ==> *final(queue) == *old(queue) && *final(bids) == *old(bids)
                && *final(asks) == *old(asks) && r.0@ == Seq::<Trade>::empty() && r.1@ == Seq::<
                BookError,
            >::empty() && r.2 == false,
            *state == State::Process ==> final(queue)@ == Seq::<Order>::empty() && r.2 == true && ({
                let b = batch_outcome(old(bids)@, old(asks)@, old(queue)@);
                final(bids)@ == b.0 && final(asks)@ == b.1 && r.0@ == b.2 && r.1@ == b.3
            }),
    {
        match state {
            State::Process => {
                let (trades, errs) = QueueProcessor::conc_process_order_queue(queue, bids, asks);
                (trades, errs, true)
            },
            State::Auction => (Vec::new(), Vec::new(), false),
            State::PreAuction => (Vec::new(), Vec::new(), false),
        }
    }
}

} // verus!

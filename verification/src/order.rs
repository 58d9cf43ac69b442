//! The order record that the matching engine operates on.

use vstd::prelude::*;

verus! {

/// How the exchange is asked to use an order.
#[derive(Debug, PartialEq, Eq, Structural)]
pub enum OrderType {
    Enter,
    Update,
    Cancel,
}

impl Clone for OrderType {
    fn clone(&self) -> (r: OrderType)
        ensures
            r == *self,
    {
        match self {
            OrderType::Enter => OrderType::Enter,
            OrderType::Update => OrderType::Update,
            OrderType::Cancel => OrderType::Cancel,
        }
    }
}

/// Which order book an order belongs to.
#[derive(Debug, PartialEq, Eq, Structural)]
pub enum TradeType {
    Bid,
    Ask,
}

impl Clone for TradeType {
    fn clone(&self) -> (r: TradeType)
        ensures
            r == *self,
    {
        match self {
            TradeType::Ask => TradeType::Ask,
            TradeType::Bid => TradeType::Bid,
        }
    }
}

/// A trader's intention to buy or sell.
///
/// `trader_id` identifies both the trader and the order: among the orders
/// resting in one book, at most one carries a given `trader_id`.
/// `price` and `quantity` are signed tick counts; the engine accepts any
/// value syntactically, though matching is only meaningful for positive
/// quantities.
pub struct Order {
    pub trader_id: String,
    pub order_type: OrderType,
    pub trade_type: TradeType,
    pub price: i64,
    pub quantity: i64,
}

impl Order {
    /// Builds an order from its five fields.
    pub fn new(t_id: String, o_t: OrderType, t_t: TradeType, p: i64, q: i64) -> (r: Order)
        ensures
            r.trader_id == t_id,
            r.order_type == o_t,
            r.trade_type == t_t,
            r.price == p,
            r.quantity == q,
    {
        Order { trader_id: t_id, order_type: o_t, trade_type: t_t, price: p, quantity: q }
    }
}

} // verus!

//! Core of a continuous double-auction matching engine with a periodic
//! batch-auction overlay.
//!
//! Orders flow from producers into a FIFO [`queue::Queue`], are drained by
//! [`queue_processing::QueueProcessor`], and either rest in one of two
//! side-specific [`order_book::Book`]s or cross against the opposite book
//! through [`auction::Auction`]. A [`controller::State`] machine arbitrates
//! between continuous processing and batch-auction windows.
//!
//! Prices and quantities are fixed-point values: signed integer counts of
//! ticks, at whatever scale the embedder chooses. One tick is assumed to be
//! coarser than the engine's comparison tolerance, so tolerance-gated
//! comparisons of prices collapse to exact integer comparisons.

pub mod auction;
pub mod controller;
pub mod order;
pub mod order_book;
pub mod queue;
pub mod queue_processing;

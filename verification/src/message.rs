//! The command/event protocol between the consumer and the watch-list task:
//! commands flow in, fetched results flow out, and the consumer never sees a
//! fetch-level error — staleness is its only symptom of upstream trouble.

use vstd::prelude::*;
use crate::model::{Klines, Stock};
use crate::stock::KLineScale;

verus! {

/// A live configuration command from the consumer to the task.
#[derive(Debug)]
pub enum StockCammnd {
    /// Run a quote batch fetch now, bypassing the timer.
    Refresh,
    /// Replace the quote-refresh timer with a period of this many
    /// milliseconds; it takes effect on the next tick.
    SetInterval(u32),
    /// Start tracking a code.
    StockAdd(String),
    /// Stop tracking a code: every occurrence leaves the watch-list.
    StockDel(String),
    /// Record a code's candlestick resolution and fetch one series for it at
    /// that resolution right away.
    StockKLine(String, KLineScale),
}

/// A result streamed from the task back to the consumer.
#[derive(Debug)]
pub enum TxStockData {
    /// A snapshot for one instrument.
    Stock(Stock),
    /// One quote batch, in response order.
    StockList(Vec<Stock>),
    /// A fresh candlestick series for one code.
    Kline((String, Klines)),
}

} // verus!

//! Core of a stock and crypto watch-list tracker: decoding of the upstream
//! quote-batch and candlestick responses, fixed-point price arithmetic, and
//! the polling task's control logic as a verified state machine. The
//! surrounding loop — channels, timers, HTTP, rendering — consumes this
//! library from outside.

pub mod message;
pub mod model;
pub mod num;
pub mod quote;
pub mod stock;
pub mod task;
pub mod text;
pub mod ui;
pub mod upstream;

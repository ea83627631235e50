//! The tracker's data model. Prices and turnover are fixed-point integers in
//! milli-units (a quote of `133.000` is held as `133000`); percent change is
//! held in hundredths of a percent; ladder volumes are whole lots.

use vstd::prelude::*;
use crate::stock::KLineScale;

verus! {

/// A traded volume. The day volume is the raw upstream count; the ladder
/// volumes are divided by one hundred into whole lots.
pub type Vol = u64;

/// A price in milli-units of the quote currency.
pub type Price = i64;

/// A wall-clock timestamp as plain fields, as the history feed writes it.
#[derive(Clone, Copy, Debug, PartialEq, Eq, Structural)]
pub struct Timestamp {
    pub year: i32,
    pub month: u8,
    pub day: u8,
    pub hour: u8,
    pub minute: u8,
    pub second: u8,
}

/// A calendar date as plain fields.
#[derive(Clone, Copy, Debug, PartialEq, Eq, Structural)]
pub struct SimpleDate {
    pub year: i32,
    pub month: u8,
    pub day: u8,
}

/// The midnight timestamp of a date.
pub open spec fn spec_midnight(d: SimpleDate) -> Timestamp {
    Timestamp { year: d.year, month: d.month, day: d.day, hour: 0, minute: 0, second: 0 }
}

/// Executable mirror of `spec_midnight`.
pub fn midnight(d: SimpleDate) -> (t: Timestamp)
    ensures
        t == spec_midnight(d),
{
    Timestamp { year: d.year, month: d.month, day: d.day, hour: 0, minute: 0, second: 0 }
}

impl Default for Timestamp {
    /// The epoch: midnight of the first day of 1970.
    fn default() -> (r: Self)
        ensures
            r == (Timestamp { year: 1970, month: 1, day: 1, hour: 0, minute: 0, second: 0 }),
    {
        Timestamp { year: 1970, month: 1, day: 1, hour: 0, minute: 0, second: 0 }
    }
}

/// One OHLCV candlestick bar. Numeric fields are milli-units; `date` keeps
/// the raw upstream timestamp string for display.
#[derive(Clone, Debug)]
pub struct KlineItem {
    pub day: Timestamp,
    pub open: i64,
    pub high: i64,
    pub low: i64,
    pub close: i64,
    pub volume: i64,
    pub amount: i64,
    pub date: String,
}

#[verifier::ext_equal]
pub struct KlineItemView {
    pub day: Timestamp,
    pub open: int,
    pub high: int,
    pub low: int,
    pub close: int,
    pub volume: int,
    pub amount: int,
    pub date: Seq<char>,
}

impl View for KlineItem {
    type V = KlineItemView;

    open spec fn view(&self) -> KlineItemView {
        KlineItemView {
            day: self.day,
            open: self.open as int,
            high: self.high as int,
            low: self.low as int,
            close: self.close as int,
            volume: self.volume as int,
            amount: self.amount as int,
            date: self.date@,
        }
    }
}

impl Default for KlineItem {
    fn default() -> (r: Self)
        ensures
            r@.day == (Timestamp { year: 1970, month: 1, day: 1, hour: 0, minute: 0, second: 0 }),
            r@.open == 0 && r@.high == 0 && r@.low == 0 && r@.close == 0,
            r@.volume == 0 && r@.amount == 0,
            r@.date.len() == 0,
    {
        KlineItem {
            day: Timestamp::default(),
            open: 0,
            high: 0,
            low: 0,
            close: 0,
            volume: 0,
            amount: 0,
            date: String::new(),
        }
    }
}

/// A resolution together with its chronological bars, replaced wholesale on
/// each refresh.
#[derive(Clone, Debug)]
pub struct Klines {
    pub scale: KLineScale,
    pub klines: Vec<KlineItem>,
}

#[verifier::ext_equal]
pub struct KlinesView {
    pub scale: KLineScale,
    pub klines: Seq<KlineItemView>,
}

impl View for Klines {
    type V = KlinesView;

    open spec fn view(&self) -> KlinesView {
        KlinesView { scale: self.scale, klines: self.klines@.map_values(|k: KlineItem| k@) }
    }
}

impl Default for Klines {
    fn default() -> (r: Self)
        ensures
            r@.scale == KLineScale::Munute15,
            r@.klines.len() == 0,
    {
        let r = Klines { scale: KLineScale::Munute15, klines: Vec::new() };
        proof {
            assert(r@.klines =~= Seq::<KlineItemView>::empty());
        }
        r
    }
}

/// A point-in-time quote snapshot for one instrument.
#[derive(Clone, Debug)]
pub struct StockData {
    pub date: String,
    pub time: String,
    pub opening: Price,
    pub closing: Price,
    pub hight: Price,
    pub low: Price,
    pub vol: Vol,
    pub amount: i64,
    pub bid: Price,
    pub ask: Price,
    pub new: Price,
    pub rise_per: i128,
    pub bids: Vec<(Vol, Price)>,
    pub asks: Vec<(Vol, Price)>,
}

#[verifier::ext_equal]
pub struct StockDataView {
    pub date: Seq<char>,
    pub time: Seq<char>,
    pub opening: int,
    pub closing: int,
    pub hight: int,
    pub low: int,
    pub vol: int,
    pub amount: int,
    pub bid: int,
    pub ask: int,
    pub new: int,
    pub rise_per: int,
    pub bids: Seq<(int, int)>,
    pub asks: Seq<(int, int)>,
}

pub open spec fn ladder_view(v: Seq<(Vol, Price)>) -> Seq<(int, int)> {
    v.map_values(|p: (Vol, Price)| (p.0 as int, p.1 as int))
}

impl View for StockData {
    type V = StockDataView;

    open spec fn view(&self) -> StockDataView {
        StockDataView {
            date: self.date@,
            time: self.time@,
            opening: self.opening as int,
            closing: self.closing as int,
            hight: self.hight as int,
            low: self.low as int,
            vol: self.vol as int,
            amount: self.amount as int,
            bid: self.bid as int,
            ask: self.ask as int,
            new: self.new as int,
            rise_per: self.rise_per as int,
            bids: ladder_view(self.bids@),
            asks: ladder_view(self.asks@),
        }
    }
}

impl Default for StockData {
    fn default() -> (r: Self)
        ensures
            r@.date.len() == 0 && r@.time.len() == 0,
            r@.opening == 0 && r@.closing == 0 && r@.hight == 0 && r@.low == 0,
            r@.vol == 0 && r@.amount == 0 && r@.bid == 0 && r@.ask == 0,
            r@.new == 0 && r@.rise_per == 0,
            r@.bids.len() == 0 && r@.asks.len() == 0,
    {
        let r = StockData {
            date: String::new(),
            time: String::new(),
            opening: 0,
            closing: 0,
            hight: 0,
            low: 0,
            vol: 0,
            amount: 0,
            bid: 0,
            ask: 0,
            new: 0,
            rise_per: 0,
            bids: Vec::new(),
            asks: Vec::new(),
        };
        proof {
            assert(r@.bids =~= Seq::<(int, int)>::empty());
            assert(r@.asks =~= Seq::<(int, int)>::empty());
        }
        r
    }
}

/// One watched instrument: its display name, code, latest quote snapshot and
/// latest candlestick series.
#[derive(Clone, Debug)]
pub struct Stock {
    pub name: String,
    pub code: String,
    pub data: StockData,
    pub kline: Klines,
}

#[verifier::ext_equal]
pub struct StockView {
    pub name: Seq<char>,
    pub code: Seq<char>,
    pub data: StockDataView,
    pub kline: KlinesView,
}

impl View for Stock {
    type V = StockView;

    open spec fn view(&self) -> StockView {
        StockView { name: self.name@, code: self.code@, data: self.data@, kline: self.kline@ }
    }
}

impl Default for Stock {
    fn default() -> (r: Self)
        ensures
            r@.name.len() == 0 && r@.code.len() == 0,
            r@.data.date.len() == 0 && r@.data.time.len() == 0,
            r@.data.opening == 0 && r@.data.closing == 0 && r@.data.hight == 0,
            r@.data.low == 0 && r@.data.vol == 0 && r@.data.amount == 0,
            r@.data.bid == 0 && r@.data.ask == 0,
            r@.data.new == 0 && r@.data.rise_per == 0,
            r@.data.bids.len() == 0 && r@.data.asks.len() == 0,
            r@.kline.scale == KLineScale::Munute15 && r@.kline.klines.len() == 0,
    {
        Stock {
            name: String::new(),
            code: String::new(),
            data: StockData::default(),
            kline: Klines::default(),
        }
    }
}

impl Stock {
    /// The most recent traded price.
    #[inline]
    pub fn data_new(&self) -> (r: Price)
        ensures
            r == self.data.new,
    {
        self.data.new
    }

    /// Percent change against the prior close, in hundredths of a percent.
    #[inline]
    pub fn data_rise_per(&self) -> (r: i128)
        ensures
            r == self.data.rise_per,
    {
        self.data.rise_per
    }

    /// The bid-side ladder, best level first.
    #[inline]
    pub fn data_bids(&self) -> (r: &Vec<(Vol, Price)>)
        ensures
            r == &self.data.bids,
    {
        &self.data.bids
    }

    /// The ask-side ladder, best level first.
    #[inline]
    pub fn data_asks(&self) -> (r: &Vec<(Vol, Price)>)
        ensures
            r == &self.data.asks,
    {
        &self.data.asks
    }
}

} // verus!

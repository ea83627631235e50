//! Candlestick resolutions, and decoding of the history endpoint's response:
//! a JSON array of objects with string-typed fields, each element one OHLCV
//! bar. A bar's numeric fields default to zero when missing or non-numeric;
//! its timestamp is read as a full date-time, falling back to midnight of a
//! date-only string.

use vstd::prelude::*;
use crate::model::{midnight, spec_midnight, KlineItem, KlineItemView, Klines, SimpleDate, Stock,
    Timestamp};
use crate::num::{spec_parse_milli, parse_milli};
use crate::upstream::{json_array_members, json_member_str, json_parse_array, json_str_members,
    parse_date_str, parse_datetime_str, parsed_date, parsed_datetime};

verus! {

/// Granularity of one candlestick bar, from five minutes up to one month.
#[derive(Debug, Clone, Copy, PartialEq, Eq, Structural)]
pub enum KLineScale {
    Munute5,
    Munute15,
    Munute30,
    Hour,
    Day,
    Week,
    Month,
}

impl KLineScale {
    /// The numeric encoding the upstream endpoint uses for this resolution.
    pub open spec fn spec_to_usize(&self) -> usize {
        match self {
            KLineScale::Munute5 => 5,
            KLineScale::Munute15 => 15,
            KLineScale::Munute30 => 30,
            KLineScale::Hour => 60,
            KLineScale::Day => 240,
            KLineScale::Week => 1200,
            KLineScale::Month => 7200,
        }
    }

    #[verifier::when_used_as_spec(spec_to_usize)]
    pub fn to_usize(&self) -> (r: usize)
        ensures
            r == self.spec_to_usize(),
    {
        match self {
            KLineScale::Munute5 => 5,
            KLineScale::Munute15 => 15,
            KLineScale::Munute30 => 30,
            KLineScale::Hour => 60,
            KLineScale::Day => 240,
            KLineScale::Week => 1200,
            KLineScale::Month => 7200,
        }
    }

    /// Decode the upstream numeric encoding; any unknown value normalizes
    /// to the fifteen-minute default rather than failing.
    pub open spec fn spec_from_usize(value: usize) -> KLineScale {
        match value {
            5 => KLineScale::Munute5,
            15 => KLineScale::Munute15,
            30 => KLineScale::Munute30,
            60 => KLineScale::Hour,
            240 => KLineScale::Day,
            1200 => KLineScale::Week,
            7200 => KLineScale::Month,
            _ => KLineScale::Munute15,
        }
    }

    #[verifier::when_used_as_spec(spec_from_usize)]
    pub fn from_usize(value: usize) -> (r: KLineScale)
        ensures
            r == KLineScale::spec_from_usize(value),
    {
        match value {
            5 => KLineScale::Munute5,
            15 => KLineScale::Munute15,
            30 => KLineScale::Munute30,
            60 => KLineScale::Hour,
            240 => KLineScale::Day,
            1200 => KLineScale::Week,
            7200 => KLineScale::Month,
            _ => KLineScale::Munute15,
        }
    }
}

impl Default for KLineScale {
    /// The default resolution is fifteen minutes.
    fn default() -> (r: Self)
        ensures
            r == KLineScale::Munute15,
    {
        KLineScale::Munute15
    }
}

/// Every resolution survives a round trip through its numeric encoding.
pub proof fn lemma_scale_round_trip(s: KLineScale)
    ensures
        KLineScale::spec_from_usize(s.spec_to_usize()) == s,
{
}

/// Every number outside the seven defined encodings normalizes to the
/// fifteen-minute default rather than failing.
pub proof fn lemma_scale_normalizes(other: usize)
    requires
        other != 5 && other != 15 && other != 30 && other != 60,
        other != 240 && other != 1200 && other != 7200,
    ensures
        KLineScale::spec_from_usize(other) == KLineScale::Munute15,
{
}

/// The timestamp of one bar: a full date-time where the string carries one,
/// else midnight of a date-only string. The fallback is mandatory: intraday
/// bars carry a time of day, daily and coarser bars do not.
pub open spec fn spec_bar_timestamp(s: Seq<char>) -> Option<Timestamp> {
    match parsed_datetime(s) {
        Some(t) => Some(t),
        None => match parsed_date(s) {
            Some(d) => Some(spec_midnight(d)),
            None => None,
        },
    }
}

/// Read the timestamp of one bar.
pub fn parse_bar_timestamp(s: &str) -> (r: Option<Timestamp>)
    ensures
        r == spec_bar_timestamp(s@),
{
    match parse_datetime_str(s) {
        Some(t) => Some(t),
        None => match parse_date_str(s) {
            Some(d) => Some(midnight(d)),
            None => None,
        },
    }
}

/// A timestamp string without a time component (one the full date-time
/// format refuses but the date format reads) parses to midnight of that
/// date, without failing the bar.
pub proof fn lemma_date_only_reads_as_midnight(s: Seq<char>, d: SimpleDate)
    requires
        parsed_datetime(s) is None,
        parsed_date(s) == Some(d),
    ensures
        spec_bar_timestamp(s) == Some(spec_midnight(d)),
        spec_bar_timestamp(s)->Some_0.hour == 0,
        spec_bar_timestamp(s)->Some_0.minute == 0,
        spec_bar_timestamp(s)->Some_0.second == 0,
{
}

/// A bar fails only on its timestamp: whatever the six numeric fields hold,
/// the bar exists exactly when the day field is present and parses; a
/// missing or non-numeric numeric field reads as zero rather than failing
/// the whole bar.
pub proof fn lemma_numeric_fields_never_fail_a_bar(
    day: Option<Seq<char>>,
    open: Option<Seq<char>>,
    high: Option<Seq<char>>,
    low: Option<Seq<char>>,
    close: Option<Seq<char>>,
    volume: Option<Seq<char>>,
    amount: Option<Seq<char>>,
    f: Seq<char>,
)
    ensures
        spec_kline_item(day, open, high, low, close, volume, amount) is Some <==> (day matches Some(
            ds,
        ) && spec_bar_timestamp(ds) is Some),
        spec_bar_num(None) == 0,
        spec_parse_milli(f) is None ==> spec_bar_num(Some(f)) == 0,
{
}

/// The view of an optional field string.
pub open spec fn opt_chars(f: Option<String>) -> Option<Seq<char>> {
    match f {
        Some(s) => Some(s@),
        None => None,
    }
}

/// The milli-value of one numeric bar field: a missing or non-numeric field
/// counts as zero rather than failing the bar.
pub open spec fn spec_bar_num(f: Option<Seq<char>>) -> int {
    match f {
        Some(s) => match spec_parse_milli(s) {
            Some(v) => v,
            None => 0,
        },
        None => 0,
    }
}

/// Read one numeric bar field.
pub fn bar_num(f: &Option<String>) -> (r: i64)
    ensures
        r == spec_bar_num(opt_chars(*f)),
{
    match f {
        Some(s) => match parse_milli(s.as_str()) {
            Some(v) => v,
            None => 0,
        },
        None => 0,
    }
}

/// The bar its extracted fields describe: it exists exactly when the
/// timestamp field is present and reads as a date-time or a date; the six
/// numeric fields each default to zero when missing or non-numeric; the raw
/// timestamp string is kept for display.
pub open spec fn spec_kline_item(
    day: Option<Seq<char>>,
    open: Option<Seq<char>>,
    high: Option<Seq<char>>,
    low: Option<Seq<char>>,
    close: Option<Seq<char>>,
    volume: Option<Seq<char>>,
    amount: Option<Seq<char>>,
) -> Option<KlineItemView> {
    match day {
        None => None,
        Some(ds) => match spec_bar_timestamp(ds) {
            None => None,
            Some(t) => Some(
                KlineItemView {
                    day: t,
                    open: spec_bar_num(open),
                    high: spec_bar_num(high),
                    low: spec_bar_num(low),
                    close: spec_bar_num(close),
                    volume: spec_bar_num(volume),
                    amount: spec_bar_num(amount),
                    date: ds,
                },
            ),
        },
    }
}

impl KlineItem {
    /// Build one bar from its extracted field strings.
    pub fn from_fields(
        day: Option<String>,
        open: Option<String>,
        high: Option<String>,
        low: Option<String>,
        close: Option<String>,
        volume: Option<String>,
        amount: Option<String>,
    ) -> (r: Option<KlineItem>)
        ensures
            r is Some <==> spec_kline_item(
                opt_chars(day),
                opt_chars(open),
                opt_chars(high),
                opt_chars(low),
                opt_chars(close),
                opt_chars(volume),
                opt_chars(amount),
            ) is Some,
            r matches Some(k) ==> Some(k@) == spec_kline_item(
                opt_chars(day),
                opt_chars(open),
                opt_chars(high),
                opt_chars(low),
                opt_chars(close),
                opt_chars(volume),
                opt_chars(amount),
            ),
    {
        let ds = match day {
            Some(ds) => ds,
            None => {
                return None;
            },
        };
        let t = match parse_bar_timestamp(ds.as_str()) {
            Some(t) => t,
            None => {
                return None;
            },
        };
        Some(
            KlineItem {
                day: t,
                open: bar_num(&open),
                high: bar_num(&high),
                low: bar_num(&low),
                close: bar_num(&close),
                volume: bar_num(&volume),
                amount: bar_num(&amount),
                date: ds,
            },
        )
    }

    /// Build one bar from one JSON array element, reading the members `day`,
    /// `open`, `high`, `low`, `close`, `volume` and `amount` as strings and
    /// handing them to `from_fields`.
    pub fn from_value(v: &serde_json::Value) -> (r: Option<KlineItem>)
        ensures
            r is Some <==> spec_kline_of_members(json_str_members(*v)) is Some,
            r matches Some(k) ==> Some(k@) == spec_kline_of_members(json_str_members(*v)),
    {
        KlineItem::from_fields(
            json_member_str(v, "day"),
            json_member_str(v, "open"),
            json_member_str(v, "high"),
            json_member_str(v, "low"),
            json_member_str(v, "close"),
            json_member_str(v, "volume"),
            json_member_str(v, "amount"),
        )
    }
}

/// The characters under `key` of a member map, when the key is bound.
pub open spec fn member_str(m: Map<Seq<char>, Seq<char>>, key: Seq<char>) -> Option<Seq<char>> {
    if m.dom().contains(key) {
        Some(m[key])
    } else {
        None
    }
}

/// The bar an element's string members describe: `from_fields` applied to
/// the seven named members.
pub open spec fn spec_kline_of_members(m: Map<Seq<char>, Seq<char>>) -> Option<KlineItemView> {
    spec_kline_item(
        member_str(m, "day"@),
        member_str(m, "open"@),
        member_str(m, "high"@),
        member_str(m, "low"@),
        member_str(m, "close"@),
        member_str(m, "volume"@),
        member_str(m, "amount"@),
    )
}

/// The string-member maps of a sequence of parsed JSON values, in order.
pub open spec fn members_of(vs: Seq<serde_json::Value>) -> Seq<Map<Seq<char>, Seq<char>>> {
    vs.map_values(|v: serde_json::Value| json_str_members(v))
}

/// The bars a sequence of element member maps describes: one bar per element
/// whose day member reads as a timestamp, in element order; the other
/// elements are skipped (a literal reading of the feed would abort the whole
/// fetch there).
pub open spec fn spec_bars_of(ms: Seq<Map<Seq<char>, Seq<char>>>) -> Seq<KlineItemView>
    decreases ms.len(),
{
    if ms.len() == 0 {
        Seq::empty()
    } else {
        match spec_kline_of_members(ms.last()) {
            Some(k) => spec_bars_of(ms.drop_last()).push(k),
            None => spec_bars_of(ms.drop_last()),
        }
    }
}

/// A series holds at most one bar per array element.
pub proof fn lemma_bars_count(ms: Seq<Map<Seq<char>, Seq<char>>>)
    ensures
        spec_bars_of(ms).len() <= ms.len(),
    decreases ms.len(),
{
    if ms.len() > 0 {
        lemma_bars_count(ms.drop_last());
    }
}

impl Klines {
    /// The series the elements of a history response describe, at the
    /// resolution `scale` encodes: exactly the bars of the elements' string
    /// members, in response order.
    pub fn from_values(scale: usize, values: &Vec<serde_json::Value>) -> (r: Klines)
        ensures
            r@.scale == KLineScale::spec_from_usize(scale),
            r@.klines == spec_bars_of(members_of(values@)),
            r@.klines.len() <= values@.len(),
    {
        let ghost gm = members_of(values@);
        let mut klines: Vec<KlineItem> = Vec::new();
        let n = values.len();
        let mut i: usize = 0;
        proof {
            assert(gm.take(0) =~= Seq::<Map<Seq<char>, Seq<char>>>::empty());
            assert(klines@.map_values(|k: KlineItem| k@) =~= spec_bars_of(gm.take(0)));
        }
        while i < n
            invariant
                i <= n,
                n == values@.len(),
                gm == members_of(values@),
                klines@.len() <= i,
                klines@.map_values(|k: KlineItem| k@) == spec_bars_of(gm.take(i as int)),
            decreases n - i,
        {
            proof {
                assert(gm[i as int] == json_str_members(values@[i as int]));
                assert(gm.take(i + 1).drop_last() =~= gm.take(i as int));
                assert(gm.take(i + 1).last() == gm[i as int]);
            }
            match KlineItem::from_value(&values[i]) {
                Some(k) => {
                    proof {
                        assert((klines@ + seq![k]).map_values(|x: KlineItem| x@)
                            =~= klines@.map_values(|x: KlineItem| x@).push(k@));
                        assert(klines@.push(k) =~= klines@ + seq![k]);
                    }
                    klines.push(k);
                },
                None => (),
            }
            i += 1;
        }
        proof {
            assert(gm.take(n as int) =~= gm);
        }
        let r = Klines { scale: KLineScale::from_usize(scale), klines };
        proof {
            assert(r@.klines == spec_bars_of(gm));
        }
        r
    }

    /// Decode a whole history response body: the series exists exactly when
    /// the body is a JSON array, and then holds the bars of the array's
    /// elements, in order, at the resolution `scale` encodes. An undecodable
    /// body yields nothing — no partial series.
    pub fn from_json(scale: usize, body: &str) -> (r: Option<Klines>)
        ensures
            r is Some <==> json_array_members(body@) is Some,
            r matches Some(k) ==> k@.scale == KLineScale::spec_from_usize(scale) && k@.klines
                == spec_bars_of(json_array_members(body@)->Some_0) && k@.klines.len()
                <= json_array_members(body@)->Some_0.len(),
    {
        match json_parse_array(body) {
            Some(values) => {
                proof {
                    let arr = json_array_members(body@)->Some_0;
                    assert(members_of(values@) =~= arr);
                }
                Some(Klines::from_values(scale, &values))
            },
            None => None,
        }
    }
}

impl Stock {
    /// Does the cached series need a fetch at `scale`? It does unless the
    /// cache already holds bars at exactly that resolution.
    pub fn kline_refresh_needed(&self, scale: usize) -> (r: bool)
        ensures
            r == !(self.kline.scale == KLineScale::spec_from_usize(scale)
                && self.kline.klines@.len() > 0),
    {
        let ks = KLineScale::from_usize(scale);
        !(self.kline.scale == ks && self.kline.klines.len() > 0)
    }

    /// Replace the cached series, leaving everything else as it was.
    pub fn install_klines(&mut self, klines: Klines)
        ensures
            final(self).kline == klines,
            final(self).name == old(self).name,
            final(self).code == old(self).code,
            final(self).data == old(self).data,
    {
        self.kline = klines;
    }
}

} // verus!

//! Decoding of the quote-batch response: one `name="csv-fields";` assignment
//! per line. A line that is too short or malformed is dropped; a well-formed
//! line becomes one [`Stock`]. Dropping a line on a bad numeric field (where
//! a literal reading of the feed would abort the batch) is a deliberate
//! robustness choice: one bad line must not fail the batch.

use vstd::prelude::*;
use crate::model::{ladder_view, Klines, Stock, StockData, StockView};
use crate::num::{
    compute_rise_per, parse_milli, parse_u64_str, spec_parse_milli, spec_parse_u64, spec_rise_per,
};
use crate::stock::KLineScale;
use crate::text::{
    chars_match_at, find_first, first_index, spec_split, spec_trim, split_str, trim_str,
};

verus! {

/// A line shorter than this cannot hold even an assignment of an empty quote
/// (the length of `var hq_str_cc000000="";`).
pub const MIN_LINE_LEN: usize = 23;

/// The variable prefix the feed puts before each instrument code.
pub open spec fn quote_prefix() -> Seq<char> {
    "var hq_str_"@
}

/// The character sequences of a vector of strings.
pub open spec fn str_views(fields: Seq<String>) -> Seq<Seq<char>> {
    fields.map_values(|f: String| f@)
}

/// Fields of one response line: the trimmed line split on commas.
pub open spec fn line_fields(s: Seq<char>) -> Seq<Seq<char>> {
    spec_split(spec_trim(s), ',')
}

/// The first field must be an assignment whose right-hand side opens with a
/// double quote: `var hq_str_<code>="<name>`.
pub open spec fn head_ok(h: Seq<char>) -> bool {
    let eq = first_index(h, '=');
    eq >= 0 && eq + 1 < h.len() && h[eq + 1] == '"'
}

/// The instrument code of a line head: what stands before the `=`, with the
/// feed's variable prefix stripped when present.
pub open spec fn head_code(h: Seq<char>) -> Seq<char> {
    let eq = first_index(h, '=');
    let full = h.take(eq);
    if full.len() >= quote_prefix().len() && full.take(quote_prefix().len() as int)
        == quote_prefix() {
        full.skip(quote_prefix().len() as int)
    } else {
        full
    }
}

/// The display name of a line head: what follows the opening double quote.
pub open spec fn head_name(h: Seq<char>) -> Seq<char> {
    let eq = first_index(h, '=');
    h.skip(eq + 2)
}

/// One (volume, price) ladder level: the raw volume is in hundredths of a
/// lot and is divided by one hundred; the price is in milli-units.
pub open spec fn spec_pair(vs: Seq<char>, ps: Seq<char>) -> Option<(int, int)> {
    match (spec_parse_u64(vs), spec_parse_milli(ps)) {
        (Some(v), Some(p)) => Some((v / 100, p)),
        _ => None,
    }
}

/// The `k`-th (volume, price) level of the ladder whose fields start at
/// `base`.
pub open spec fn pair_at(fields: Seq<Seq<char>>, base: int, k: int) -> Option<(int, int)> {
    spec_pair(fields[base + 2 * k], fields[base + 2 * k + 1])
}

/// Does one response line decode to a quote record?
pub open spec fn quote_line_ok(s: Seq<char>) -> bool {
    let fields = line_fields(s);
    &&& fields.len() >= 32
    &&& head_ok(fields[0])
    &&& spec_parse_milli(fields[1]) is Some
    &&& spec_parse_milli(fields[2]) is Some
    &&& spec_parse_milli(fields[3]) is Some
    &&& spec_parse_milli(fields[4]) is Some
    &&& spec_parse_milli(fields[5]) is Some
    &&& spec_parse_milli(fields[6]) is Some
    &&& spec_parse_milli(fields[7]) is Some
    &&& spec_parse_u64(fields[8]) is Some
    &&& spec_parse_milli(fields[9]) is Some
    &&& (forall|k: int| 0 <= k < 5 ==> (#[trigger] pair_at(fields, 10, k)) is Some)
    &&& (forall|k: int| 0 <= k < 5 ==> (#[trigger] pair_at(fields, 20, k)) is Some)
}

/// The record a well-formed line decodes to. The first ten fields are the
/// day-level state, the next twenty are five bid then five ask levels, and
/// fields thirty and thirty-one are the date and time strings.
pub open spec fn line_stock_view(s: Seq<char>) -> StockView {
    let fields = line_fields(s);
    StockView {
        name: head_name(fields[0]),
        code: head_code(fields[0]),
        data: crate::model::StockDataView {
            date: fields[30],
            time: fields[31],
            opening: spec_parse_milli(fields[1])->Some_0,
            closing: spec_parse_milli(fields[2])->Some_0,
            new: spec_parse_milli(fields[3])->Some_0,
            hight: spec_parse_milli(fields[4])->Some_0,
            low: spec_parse_milli(fields[5])->Some_0,
            bid: spec_parse_milli(fields[6])->Some_0,
            ask: spec_parse_milli(fields[7])->Some_0,
            vol: spec_parse_u64(fields[8])->Some_0,
            amount: spec_parse_milli(fields[9])->Some_0,
            rise_per: spec_rise_per(
                spec_parse_milli(fields[3])->Some_0,
                spec_parse_milli(fields[2])->Some_0,
            ),
            bids: Seq::new(5, |k: int| pair_at(fields, 10, k)->Some_0),
            asks: Seq::new(5, |k: int| pair_at(fields, 20, k)->Some_0),
        },
        kline: crate::model::KlinesView {
            scale: KLineScale::Munute15,
            klines: Seq::empty(),
        },
    }
}

/// Read one ladder of five (volume, price) levels starting at `base`.
fn parse_ladder(fields: &Vec<String>, base: usize) -> (r: Option<Vec<(u64, i64)>>)
    requires
        base + 10 <= fields@.len(),
    ensures
        r is Some <==> (forall|k: int|
            0 <= k < 5 ==> (#[trigger] pair_at(str_views(fields@), base as int, k)) is Some),
        r matches Some(v) ==> v@.len() == 5 && (forall|k: int|
            0 <= k < 5 ==> ((#[trigger] v@[k]).0 as int, v@[k].1 as int) == pair_at(
                str_views(fields@),
                base as int,
                k,
            )->Some_0),
{
    let ghost gf = str_views(fields@);
    let mut out: Vec<(u64, i64)> = Vec::new();
    let mut k: usize = 0;
    while k < 5
        invariant
            k <= 5,
            base + 10 <= fields@.len(),
            gf == str_views(fields@),
            out@.len() == k,
            forall|j: int|
                0 <= j < k ==> (#[trigger] pair_at(gf, base as int, j)) is Some && (
                out@[j].0 as int,
                out@[j].1 as int,
            ) == pair_at(gf, base as int, j)->Some_0,
        decreases 5 - k,
    {
        let fl = fields.len();
        let vs = fields[base + 2 * k].as_str();
        let ps = fields[base + 2 * k + 1].as_str();
        proof {
            assert(gf[base + 2 * k] == fields@[base + 2 * k]@);
            assert(gf[base + 2 * k + 1] == fields@[base + 2 * k + 1]@);
        }
        let v = match parse_u64_str(vs) {
            Some(v) => v,
            None => {
                proof {
                    assert(pair_at(gf, base as int, k as int) is None);
                }
                return None;
            },
        };
        let p = match parse_milli(ps) {
            Some(p) => p,
            None => {
                proof {
                    assert(pair_at(gf, base as int, k as int) is None);
                }
                return None;
            },
        };
        out.push((v / 100, p));
        k += 1;
    }
    Some(out)
}

/// Decode one response line into a quote record; a malformed line yields
/// `None` and is dropped by the caller.
pub fn decode_sina_result(stock_string: &str) -> (r: Option<Stock>)
    ensures
        r is Some <==> quote_line_ok(stock_string@),
        r matches Some(st) ==> st@ == line_stock_view(stock_string@),
{
    let ghost gl = stock_string@;
    let trimmed = trim_str(stock_string);
    let fields = split_str(trimmed.as_str(), ',');
    let ghost gf = line_fields(gl);
    proof {
        assert(gf == str_views(fields@));
    }
    if fields.len() < 32 {
        return None;
    }

    // The head: `var hq_str_<code>="<name>`.
    let head = fields[0].as_str();
    proof {
        assert(gf[0] == fields@[0]@);
    }
    let hlen = head.unicode_len();
    let eq = match find_first(head, '=') {
        Some(e) => e,
        None => {
            return None;
        },
    };
    if eq + 1 >= hlen || head.get_char(eq + 1) != '"' {
        return None;
    }
    let full = head.substring_char(0, eq);
    let flen = full.unicode_len();
    proof {
        assert(full@ =~= gf[0].take(eq as int));
        reveal_strlit("var hq_str_");
    }
    let code = if flen >= 11 && chars_match_at(full, 0, "var hq_str_") {
        let c = full.substring_char(11, flen);
        proof {
            assert(full@.subrange(0, 11) =~= full@.take(11));
            assert(c@ =~= full@.skip(11));
        }
        c.to_owned()
    } else {
        proof {
            if full@.len() >= 11 {
                assert(full@.subrange(0, 11) =~= full@.take(11));
            }
        }
        full.to_owned()
    };
    let name = head.substring_char(eq + 2, hlen).to_owned();
    proof {
        assert(name@ =~= gf[0].skip(eq + 2));
    }

    // The day-level numeric fields.
    proof {
        assert(gf[1] == fields@[1]@);
        assert(gf[2] == fields@[2]@);
        assert(gf[3] == fields@[3]@);
        assert(gf[4] == fields@[4]@);
        assert(gf[5] == fields@[5]@);
        assert(gf[6] == fields@[6]@);
        assert(gf[7] == fields@[7]@);
        assert(gf[8] == fields@[8]@);
        assert(gf[9] == fields@[9]@);
        assert(gf[30] == fields@[30]@);
        assert(gf[31] == fields@[31]@);
    }
    let opening = match parse_milli(fields[1].as_str()) {
        Some(v) => v,
        None => {
            return None;
        },
    };
    let closing = match parse_milli(fields[2].as_str()) {
        Some(v) => v,
        None => {
            return None;
        },
    };
    let new_price = match parse_milli(fields[3].as_str()) {
        Some(v) => v,
        None => {
            return None;
        },
    };
    let hight = match parse_milli(fields[4].as_str()) {
        Some(v) => v,
        None => {
            return None;
        },
    };
    let low = match parse_milli(fields[5].as_str()) {
        Some(v) => v,
        None => {
            return None;
        },
    };
    let bid = match parse_milli(fields[6].as_str()) {
        Some(v) => v,
        None => {
            return None;
        },
    };
    let ask = match parse_milli(fields[7].as_str()) {
        Some(v) => v,
        None => {
            return None;
        },
    };
    let vol = match parse_u64_str(fields[8].as_str()) {
        Some(v) => v,
        None => {
            return None;
        },
    };
    let amount = match parse_milli(fields[9].as_str()) {
        Some(v) => v,
        None => {
            return None;
        },
    };
    let percent = compute_rise_per(new_price, closing);

    let bids = match parse_ladder(&fields, 10) {
        Some(v) => v,
        None => {
            return None;
        },
    };
    let asks = match parse_ladder(&fields, 20) {
        Some(v) => v,
        None => {
            return None;
        },
    };

    let date = fields[30].clone();
    let time = fields[31].clone();

    let data = StockData {
        date,
        time,
        opening,
        closing,
        hight,
        low,
        vol,
        amount,
        bid,
        ask,
        new: new_price,
        rise_per: percent,
        bids,
        asks,
    };
    let st = Stock { name, code, data, kline: Klines::default() };
    proof {
        assert(quote_line_ok(gl));
        assert(ladder_view(st.data.bids@) =~= Seq::new(5, |k: int| pair_at(gf, 10, k)->Some_0));
        assert(ladder_view(st.data.asks@) =~= Seq::new(5, |k: int| pair_at(gf, 20, k)->Some_0));
        assert(st@.kline.klines =~= Seq::<crate::model::KlineItemView>::empty());
        assert(st@ =~= line_stock_view(gl));
    }
    Some(st)
}

/// What one response line contributes to the batch: a record when it passes
/// the length floor and decodes, nothing otherwise.
pub open spec fn line_decode(l: Seq<char>) -> Option<StockView> {
    if l.len() > MIN_LINE_LEN && quote_line_ok(l) {
        Some(line_stock_view(l))
    } else {
        None
    }
}

/// The records of a sequence of response lines, in line order.
pub open spec fn decode_lines(ls: Seq<Seq<char>>) -> Seq<StockView>
    decreases ls.len(),
{
    if ls.len() == 0 {
        Seq::empty()
    } else {
        match line_decode(ls.last()) {
            Some(v) => decode_lines(ls.drop_last()).push(v),
            None => decode_lines(ls.drop_last()),
        }
    }
}

/// The records of a whole quote-batch response body.
pub open spec fn spec_decode_body(body: Seq<char>) -> Seq<StockView> {
    decode_lines(spec_split(spec_trim(body), '\n'))
}

/// Decode a whole quote-batch response body: one record per line that passes
/// the length floor and parses; every other line is dropped and never fails
/// the batch.
pub fn decode_data_list(body: &str) -> (stocks: Vec<Stock>)
    ensures
        stocks@.map_values(|s: Stock| s@) == spec_decode_body(body@),
{
    let trimmed = trim_str(body);
    let lines = split_str(trimmed.as_str(), '\n');
    let ghost gls = spec_split(spec_trim(body@), '\n');
    proof {
        assert(gls == str_views(lines@));
    }
    let mut out: Vec<Stock> = Vec::new();
    let n = lines.len();
    let mut i: usize = 0;
    proof {
        assert(gls.take(0) =~= Seq::<Seq<char>>::empty());
        assert(out@.map_values(|s: Stock| s@) =~= decode_lines(gls.take(0)));
    }
    while i < n
        invariant
            i <= n,
            n == lines@.len(),
            gls == str_views(lines@),
            out@.map_values(|s: Stock| s@) == decode_lines(gls.take(i as int)),
        decreases n - i,
    {
        let line = lines[i].as_str();
        proof {
            assert(gls[i as int] == lines@[i as int]@);
            assert(gls.take(i + 1).drop_last() =~= gls.take(i as int));
            assert(gls.take(i + 1).last() == gls[i as int]);
        }
        if line.unicode_len() > MIN_LINE_LEN {
            match decode_sina_result(line) {
                Some(st) => {
                    proof {
                        assert((out@ + seq![st]).map_values(|s: Stock| s@) =~= out@.map_values(
                            |s: Stock| s@,
                        ).push(st@));
                        assert(out@.push(st) =~= out@ + seq![st]);
                    }
                    out.push(st);
                },
                None => {},
            }
        }
        i += 1;
    }
    proof {
        assert(gls.take(n as int) =~= gls);
    }
    out
}

/// The batch holds exactly one record for each line that passes the length
/// floor and decodes; shorter or malformed lines are excluded
/// deterministically, and never fail the others. `spec_decode_body` is
/// `decode_lines` of the trimmed body split on newlines.
pub proof fn lemma_batch_count(ls: Seq<Seq<char>>)
    ensures
        decode_lines(ls).len() == ls.filter(|l: Seq<char>| line_decode(l) is Some).len(),
    decreases ls.len(),
{
    reveal(Seq::filter);
    if ls.len() > 0 {
        lemma_batch_count(ls.drop_last());
    }
}

/// The decoded ladders keep the upstream order: the `k`-th bid level is read
/// from the `k`-th (volume, price) pair of the twenty ladder fields, with
/// the raw volume divided by one hundred, and the ask levels follow from the
/// next ten fields likewise.
pub proof fn lemma_ladder_order(s: Seq<char>)
    requires
        quote_line_ok(s),
    ensures
        line_stock_view(s).data.bids.len() == 5,
        line_stock_view(s).data.asks.len() == 5,
        forall|k: int|
            0 <= k < 5 ==> (#[trigger] line_stock_view(s).data.bids[k]) == (
            spec_parse_u64(line_fields(s)[10 + 2 * k])->Some_0 / 100,
            spec_parse_milli(line_fields(s)[10 + 2 * k + 1])->Some_0,
            ),
        forall|k: int|
            0 <= k < 5 ==> (#[trigger] line_stock_view(s).data.asks[k]) == (
            spec_parse_u64(line_fields(s)[20 + 2 * k])->Some_0 / 100,
            spec_parse_milli(line_fields(s)[20 + 2 * k + 1])->Some_0,
            ),
{
    let fields = line_fields(s);
    assert forall|k: int| 0 <= k < 5 implies (#[trigger] line_stock_view(s).data.bids[k]) == (
        spec_parse_u64(fields[10 + 2 * k])->Some_0 / 100,
        spec_parse_milli(fields[10 + 2 * k + 1])->Some_0,
    ) by {
        assert(pair_at(fields, 10, k) is Some);
    }
    assert forall|k: int| 0 <= k < 5 implies (#[trigger] line_stock_view(s).data.asks[k]) == (
        spec_parse_u64(fields[20 + 2 * k])->Some_0 / 100,
        spec_parse_milli(fields[20 + 2 * k + 1])->Some_0,
    ) by {
        assert(pair_at(fields, 20, k) is Some);
    }
}

} // verus!

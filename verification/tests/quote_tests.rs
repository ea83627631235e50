use wealth_tracker::num::{compute_rise_per, parse_milli, parse_u64_str};
use wealth_tracker::quote::{decode_data_list, decode_sina_result};

const GOOD_LINE: &str = "var hq_str_sh601127=\"\u{8d5b}\u{529b}\u{65af},133.000,132.800,132.790,135.440,131.010,132.790,132.800,22615984,3006594293.000,25300,132.790,31600,132.780,16400,132.770,9800,132.760,8600,132.750,64500,132.800,16900,132.810,11900,132.820,1000,132.830,1900,132.840,2025-01-27,15:00:01,00,\";";

#[test]
fn decode_one_line_fields() {
    let st = decode_sina_result(GOOD_LINE).expect("well-formed line decodes");
    assert_eq!(st.code, "sh601127");
    assert_eq!(st.name, "\u{8d5b}\u{529b}\u{65af}");
    assert_eq!(st.data.opening, 133_000);
    assert_eq!(st.data.closing, 132_800);
    assert_eq!(st.data.new, 132_790);
    assert_eq!(st.data.hight, 135_440);
    assert_eq!(st.data.low, 131_010);
    assert_eq!(st.data.bid, 132_790);
    assert_eq!(st.data.ask, 132_800);
    assert_eq!(st.data.vol, 22_615_984);
    assert_eq!(st.data.amount, 3_006_594_293_000);
    assert_eq!(st.data.date, "2025-01-27");
    assert_eq!(st.data.time, "15:00:01");
    // (132790 - 132800) / 132800 * 10000 = -0.753.. which rounds to -1,
    // i.e. -0.01 percent.
    assert_eq!(st.data.rise_per, -1);
    assert_eq!(st.kline.klines.len(), 0);
}

#[test]
fn bid_ladder_keeps_order_and_scales_volumes() {
    let st = decode_sina_result(GOOD_LINE).unwrap();
    let bids = st.data_bids();
    let asks = st.data_asks();
    assert_eq!(
        bids,
        &vec![
            (253u64, 132_790i64),
            (316, 132_780),
            (164, 132_770),
            (98, 132_760),
            (86, 132_750),
        ]
    );
    assert_eq!(
        asks,
        &vec![
            (645u64, 132_800i64),
            (169, 132_810),
            (119, 132_820),
            (10, 132_830),
            (19, 132_840),
        ]
    );
}

#[test]
fn malformed_line_yields_nothing() {
    assert!(decode_sina_result("var hq_str_sh000000=\"junk,not,enough,fields\";").is_none());
    assert!(decode_sina_result("no assignment here at all").is_none());
    // A well-shaped line whose closing price is not numeric is dropped too.
    let bad = GOOD_LINE.replace("132.800,132.790,135.440", "oops,132.790,135.440");
    assert!(decode_sina_result(&bad).is_none());
}

#[test]
fn one_bad_line_keeps_the_other_three() {
    let good2 = GOOD_LINE.replace("sh601127", "sh000001");
    let good3 = GOOD_LINE.replace("sh601127", "sz399001");
    let bad = "var hq_str_sh000300=\"broken line that is long enough but has no fields\";";
    let body = format!("{}\n{}\n{}\n{}\n", GOOD_LINE, good2, bad, good3);
    let stocks = decode_data_list(&body);
    assert_eq!(stocks.len(), 3);
    assert_eq!(stocks[0].code, "sh601127");
    assert_eq!(stocks[1].code, "sh000001");
    assert_eq!(stocks[2].code, "sz399001");
}

#[test]
fn short_lines_are_excluded_deterministically() {
    let body = format!("{}\nshort\nvar hq_str_x=\"\";\n", GOOD_LINE);
    let stocks = decode_data_list(&body);
    assert_eq!(stocks.len(), 1);
    assert!(decode_data_list("").is_empty());
}

#[test]
fn codes_join_for_the_request() {
    let codes = vec![String::from("sh000001"), String::from("sz399001")];
    assert_eq!(wealth_tracker::text::join_comma(&codes), "sh000001,sz399001");
    assert_eq!(wealth_tracker::text::join_comma(&vec![]), "");
    assert_eq!(wealth_tracker::text::join_comma(&vec![String::from("a")]), "a");
}

#[test]
fn percent_change_formula() {
    // closing 132.800, last 133.000: 0.15 percent.
    assert_eq!(compute_rise_per(133_000, 132_800), 15);
    // A zero closing price is degenerate and reads as no change.
    assert_eq!(compute_rise_per(133_000, 0), 0);
    assert_eq!(compute_rise_per(0, 0), 0);
    // Half-way cases round away from zero: 0.5 -> 1, -0.5 -> -1.
    // (last - closing) * 10000 / closing = 1/2 when closing = 20000 * diff.
    assert_eq!(compute_rise_per(20_001, 20_000), 1);
    assert_eq!(compute_rise_per(19_999, 20_000), -1);
    // An unchanged price is exactly zero.
    assert_eq!(compute_rise_per(132_800, 132_800), 0);
    // The formula is exact even at the extremes of the price range.
    assert_eq!(
        compute_rise_per(i64::MAX, 1),
        92_233_720_368_547_758_060_000i128
    );
}

#[test]
fn decimal_parse_exact_values() {
    assert_eq!(parse_milli("133.000"), Some(133_000));
    assert_eq!(parse_milli("0.001"), Some(1));
    assert_eq!(parse_milli("-2.0257"), Some(-2_025));
    assert_eq!(parse_milli("7"), Some(7_000));
    assert_eq!(parse_milli("7."), Some(7_000));
    assert_eq!(parse_milli(".5"), Some(500));
    assert_eq!(parse_milli("1.2345"), Some(1_234));
    assert_eq!(parse_milli(""), None);
    assert_eq!(parse_milli("."), None);
    assert_eq!(parse_milli("1.2.3"), None);
    assert_eq!(parse_milli("12a"), None);
    assert_eq!(parse_milli("99999999999999999999"), None);
}

#[test]
fn unsigned_parse_exact_values() {
    assert_eq!(parse_u64_str("22615984"), Some(22_615_984));
    assert_eq!(parse_u64_str("0"), Some(0));
    assert_eq!(parse_u64_str("18446744073709551615"), Some(u64::MAX));
    assert_eq!(parse_u64_str("18446744073709551616"), None);
    assert_eq!(parse_u64_str(""), None);
    assert_eq!(parse_u64_str("12.5"), None);
    assert_eq!(parse_u64_str("-3"), None);
}

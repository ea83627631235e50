use wealth_tracker::model::{KlineItem, Klines, Timestamp};
use wealth_tracker::stock::KLineScale;

fn s(text: &str) -> Option<String> {
    Some(String::from(text))
}

#[test]
fn scale_round_trips_through_encoding() {
    let all = [
        (KLineScale::Munute5, 5usize),
        (KLineScale::Munute15, 15),
        (KLineScale::Munute30, 30),
        (KLineScale::Hour, 60),
        (KLineScale::Day, 240),
        (KLineScale::Week, 1200),
        (KLineScale::Month, 7200),
    ];
    for (scale, code) in all {
        assert_eq!(scale.to_usize(), code);
        assert_eq!(KLineScale::from_usize(code), scale);
        assert_eq!(KLineScale::from_usize(scale.to_usize()), scale);
    }
}

#[test]
fn unknown_encoding_normalizes_to_default() {
    for code in [0usize, 1, 7, 99, 241, 7201, 1_000_000] {
        assert_eq!(KLineScale::from_usize(code), KLineScale::Munute15);
    }
    assert_eq!(KLineScale::default(), KLineScale::Munute15);
}

#[test]
fn full_datetime_parses_to_its_fields() {
    let item = KlineItem::from_fields(
        s("2025-01-27 15:00:01"),
        s("133.000"),
        s("135.440"),
        s("131.010"),
        s("132.790"),
        s("22615984"),
        s("3006594293.000"),
    )
    .expect("a bar with a full timestamp");
    assert_eq!(
        item.day,
        Timestamp { year: 2025, month: 1, day: 27, hour: 15, minute: 0, second: 1 }
    );
    assert_eq!(item.open, 133_000);
    assert_eq!(item.high, 135_440);
    assert_eq!(item.low, 131_010);
    assert_eq!(item.close, 132_790);
    assert_eq!(item.volume, 22_615_984_000);
    assert_eq!(item.amount, 3_006_594_293_000);
    assert_eq!(item.date, "2025-01-27 15:00:01");
}

#[test]
fn date_only_timestamp_reads_as_midnight() {
    let item = KlineItem::from_fields(
        s("2025-01-24"),
        s("1.5"),
        None,
        None,
        None,
        None,
        None,
    )
    .expect("a date-only bar still parses");
    assert_eq!(
        item.day,
        Timestamp { year: 2025, month: 1, day: 24, hour: 0, minute: 0, second: 0 }
    );
    assert_eq!(item.open, 1_500);
}

#[test]
fn missing_or_bad_numerics_default_to_zero() {
    let item = KlineItem::from_fields(
        s("2024-12-31"),
        None,
        s("not a number"),
        s(""),
        s("10.5"),
        None,
        s("abc"),
    )
    .unwrap();
    assert_eq!(item.open, 0);
    assert_eq!(item.high, 0);
    assert_eq!(item.low, 0);
    assert_eq!(item.close, 10_500);
    assert_eq!(item.volume, 0);
    assert_eq!(item.amount, 0);
}

#[test]
fn bar_without_readable_timestamp_is_skipped() {
    assert!(KlineItem::from_fields(None, s("1"), None, None, None, None, None).is_none());
    assert!(
        KlineItem::from_fields(s("yesterday"), s("1"), None, None, None, None, None).is_none()
    );
}

#[test]
fn history_body_decodes_bar_by_bar() {
    let body = "[\
        {\"day\":\"2025-01-27 15:00:01\",\"open\":\"133.000\",\"high\":\"135.440\",\
         \"low\":\"131.010\",\"close\":\"132.790\",\"volume\":\"22615984\",\
         \"amount\":\"3006594293.000\"},\
        {\"day\":\"2025-01-24\",\"open\":\"1.5\"},\
        {\"open\":\"9.9\"},\
        {\"day\":\"2025-01-23\",\"open\":7,\"close\":\"8.25\"}]";
    let klines = Klines::from_json(240, body).expect("a JSON array decodes");
    assert_eq!(klines.scale, KLineScale::Day);
    // The element without a day is skipped; the rest become bars in order.
    assert_eq!(klines.klines.len(), 3);
    assert_eq!(klines.klines[0].close, 132_790);
    assert_eq!(klines.klines[1].day.hour, 0);
    assert_eq!(klines.klines[1].open, 1_500);
    // A JSON number (not a string) is not a string field and defaults to zero.
    assert_eq!(klines.klines[2].open, 0);
    assert_eq!(klines.klines[2].close, 8_250);
    assert_eq!(klines.klines[2].date, "2025-01-23");
}

#[test]
fn non_array_history_body_is_refused() {
    assert!(Klines::from_json(240, "{\"day\":\"2025-01-24\"}").is_none());
    assert!(Klines::from_json(240, "not json at all").is_none());
    assert!(Klines::from_json(240, "").is_none());
}

#[test]
fn kline_cache_refresh_rule() {
    let mut stock = wealth_tracker::model::Stock::default();
    stock.code = String::from("sh601127");
    // An empty cache always needs a fetch, whatever the resolution.
    assert!(stock.kline_refresh_needed(15));
    assert!(stock.kline_refresh_needed(240));
    let klines = Klines::from_json(240, "[{\"day\":\"2025-01-24\"}]").unwrap();
    stock.install_klines(klines);
    // The cache now holds daily bars: only another resolution needs a fetch.
    assert!(!stock.kline_refresh_needed(240));
    assert!(stock.kline_refresh_needed(5));
    assert_eq!(stock.kline.scale, KLineScale::Day);
    assert_eq!(stock.kline.klines.len(), 1);
}

use wealth_tracker::model::{Stock, StockData};
use wealth_tracker::ui::{BitcoinView, Settings, StockSetting, WealthTracker};

#[test]
fn stock_getters_read_the_snapshot() {
    let mut stock = Stock::default();
    let mut data = StockData::default();
    data.new = 132_790;
    data.rise_per = -1;
    data.bids = vec![(253, 132_790)];
    data.asks = vec![(645, 132_800)];
    stock.data = data;
    assert_eq!(stock.data_new(), 132_790);
    assert_eq!(stock.data_rise_per(), -1);
    assert_eq!(stock.data_bids(), &vec![(253u64, 132_790i64)]);
    assert_eq!(stock.data_asks(), &vec![(645u64, 132_800i64)]);
}

#[test]
fn defaults_are_empty() {
    let stock = Stock::default();
    assert_eq!(stock.name, "");
    assert_eq!(stock.code, "");
    assert_eq!(stock.data.new, 0);
    assert_eq!(stock.data.rise_per, 0);
    assert!(stock.kline.klines.is_empty());
    let settings = Settings::default();
    assert!(!settings.open && !settings.zh_share && !settings.btc);
    let stock_setting = StockSetting::default();
    assert!(!stock_setting.open);
    assert_eq!(stock_setting.interval, 0);
    assert_eq!(stock_setting.search_text, "");
}

#[test]
fn window_titles() {
    assert_eq!(WealthTracker::name(), "Wealth Tracker");
    let btc = BitcoinView::new();
    assert_eq!(btc.name(), "BTC");
}

#[test]
fn bitcoin_panel_opens_with_sample_holdings() {
    let btc = BitcoinView::new();
    let items: Vec<&str> = btc.items().iter().map(|s| s.as_str()).collect();
    assert_eq!(items, vec!["alfred", "bernhard", "christian"]);
    let coins = btc.coins();
    assert_eq!(coins.len(), 2);
    assert_eq!(coins[0].0, "BTC");
    assert_eq!(coins[0].1.coin_name(), "BTC");
    assert_eq!(coins[0].1.amount(), "88.88");
    assert_eq!(coins[1].0, "ETH");
    assert_eq!(coins[1].1.coin_name(), "ETH");
    assert_eq!(coins[1].1.amount(), "48.88");
}

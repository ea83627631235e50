//! State behind the application's panels: the settings toggles, the quote
//! panel's settings, and the crypto panel's holdings. Rendering itself is an
//! external collaborator and lives outside the library.

use vstd::prelude::*;

verus! {

/// The settings panel's toggles.
#[derive(Debug)]
pub struct Settings {
    pub open: bool,
    pub zh_share: bool,
    pub hk_share: bool,
    pub us_share: bool,
    pub btc: bool,
}

impl Default for Settings {
    /// Every panel starts closed.
    fn default() -> (r: Self)
        ensures
            !r.open && !r.zh_share && !r.hk_share && !r.us_share && !r.btc,
    {
        Settings { open: false, zh_share: false, hk_share: false, us_share: false, btc: false }
    }
}

/// The quote panel's settings.
#[derive(Debug)]
pub struct StockSetting {
    pub open: bool,
    pub interval: u32,
    pub search_text: String,
}

impl Default for StockSetting {
    fn default() -> (r: Self)
        ensures
            !r.open && r.interval == 0 && r.search_text@.len() == 0,
    {
        StockSetting { open: false, interval: 0, search_text: String::new() }
    }
}

/// One crypto holding: a coin's name and the amount held, as display text.
#[derive(Debug, Hash)]
pub struct Bitcoin {
    name: String,
    amount: String,
}

#[verifier::ext_equal]
pub struct CoinView {
    pub name: Seq<char>,
    pub amount: Seq<char>,
}

impl View for Bitcoin {
    type V = CoinView;

    closed spec fn view(&self) -> CoinView {
        CoinView { name: self.name@, amount: self.amount@ }
    }
}

impl Bitcoin {
    /// A holding of `amount` of the coin called `name`.
    pub fn new(name: String, amount: String) -> (r: Bitcoin)
        ensures
            r@.name == name@,
            r@.amount == amount@,
    {
        Bitcoin { name, amount }
    }

    /// The coin's display name.
    pub fn coin_name(&self) -> (r: &String)
        ensures
            r@ == self@.name,
    {
        &self.name
    }

    /// The held amount's display text.
    pub fn amount(&self) -> (r: &String)
        ensures
            r@ == self@.amount,
    {
        &self.amount
    }
}

/// The crypto panel's state: a draggable item order and the holdings under
/// their coin names.
#[derive(Debug)]
pub struct BitcoinView {
    items: Vec<String>,
    data: Vec<(String, Bitcoin)>,
}

#[verifier::ext_equal]
pub struct CoinPanelView {
    pub items: Seq<Seq<char>>,
    pub data: Seq<(Seq<char>, CoinView)>,
}

impl View for BitcoinView {
    type V = CoinPanelView;

    closed spec fn view(&self) -> CoinPanelView {
        CoinPanelView {
            items: self.items@.map_values(|s: String| s@),
            data: self.data@.map_values(|e: (String, Bitcoin)| (e.0@, e.1@)),
        }
    }
}

impl BitcoinView {
    /// The panel's window title.
    pub fn name(&self) -> (r: &'static str)
        ensures
            r@ == "BTC"@,
    {
        "BTC"
    }

    /// The panel as it first opens: sample holdings of the two major coins,
    /// and a three-row drag order.
    pub fn new() -> (r: BitcoinView)
        ensures
            r@.items.len() == 3,
            r@.items[0] == "alfred"@,
            r@.items[1] == "bernhard"@,
            r@.items[2] == "christian"@,
            r@.data.len() == 2,
            r@.data[0].0 == "BTC"@ && r@.data[0].1.name == "BTC"@ && r@.data[0].1.amount
                == "88.88"@,
            r@.data[1].0 == "ETH"@ && r@.data[1].1.name == "ETH"@ && r@.data[1].1.amount
                == "48.88"@,
    {
        let mut items: Vec<String> = Vec::new();
        items.push(String::from_str("alfred"));
        items.push(String::from_str("bernhard"));
        items.push(String::from_str("christian"));
        let mut data: Vec<(String, Bitcoin)> = Vec::new();
        data.push(
            (
                String::from_str("BTC"),
                Bitcoin::new(String::from_str("BTC"), String::from_str("88.88")),
            ),
        );
        data.push(
            (
                String::from_str("ETH"),
                Bitcoin::new(String::from_str("ETH"), String::from_str("48.88")),
            ),
        );
        let r = BitcoinView { items, data };
        proof {
            assert(r@.items[0] == "alfred"@);
            assert(r@.items[1] == "bernhard"@);
            assert(r@.items[2] == "christian"@);
            assert(r@.data[0] == ("BTC"@, CoinView { name: "BTC"@, amount: "88.88"@ }));
            assert(r@.data[1] == ("ETH"@, CoinView { name: "ETH"@, amount: "48.88"@ }));
        }
        r
    }

    /// The drag order's rows.
    pub fn items(&self) -> (r: &Vec<String>)
        ensures
            r@.map_values(|s: String| s@) == self@.items,
    {
        &self.items
    }

    /// The holdings, keyed by coin name.
    pub fn coins(&self) -> (r: &Vec<(String, Bitcoin)>)
        ensures
            r@.map_values(|e: (String, Bitcoin)| (e.0@, e.1@)) == self@.data,
    {
        &self.data
    }
}

/// The application's model state: the settings panel and the crypto panel.
/// The window and render loop around it are external collaborators.
#[derive(Debug)]
pub struct WealthTracker {
    pub settings: Settings,
    pub btc_tracker: BitcoinView,
}

impl WealthTracker {
    /// The application window's title.
    pub fn name() -> (r: &'static str)
        ensures
            r@ == "Wealth Tracker"@,
    {
        "Wealth Tracker"
    }
}

} // verus!

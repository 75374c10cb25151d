//! The decisions of the caching client. The application keeps the fetched
//! quote currencies and coins in a local SQLite database; this module says
//! which statements it runs, which entries start out as favourites, which
//! cached entries are favourites, and when a table load asks the API.

use vstd::prelude::*;

use crate::data::{Coin, RawCoin, RawVsCurrency, VsCurrency};
use crate::text::texts;

verus! {

broadcast use Seq::lemma_filter_push;

/// Creates the table of quote currencies.
pub const CREATE_VS_CURRENCIES: &'static str =
    "CREATE TABLE IF NOT EXISTS vs_currencies (name TEXT, favourite BOOL)";

/// Creates the table of coins.
pub const CREATE_COINS: &'static str =
    "CREATE TABLE IF NOT EXISTS coins (id TEXT, symbol TEXT, name TEXT, favourite BOOL)";

/// Creates the table that describes each cached market chart.
pub const CREATE_MARKET_CHART_RANGE_META: &'static str =
    "CREATE TABLE IF NOT EXISTS market_chart_range_meta (id TEXT, currency TEXT, from_timestamp INTEGER, to_timestamp INTEGER)";

/// Creates the table of the prices of cached market charts.
pub const CREATE_MARKET_CHART_RANGE_PRICES: &'static str =
    "CREATE TABLE IF NOT EXISTS market_chart_range_prices (parent_rowid INTEGER, timestamp INTEGER, value REAL, CONSTRAINT parent_fk FOREIGN KEY (parent_rowid) REFERENCES market_chart_range_meta (rowid))";

/// Creates the table of the market caps of cached market charts.
pub const CREATE_MARKET_CHART_RANGE_MARKET_CAPS: &'static str =
    "CREATE TABLE IF NOT EXISTS market_chart_range_market_caps (parent_rowid INTEGER, timestamp INTEGER, value REAL, CONSTRAINT parent_fk FOREIGN KEY (parent_rowid) REFERENCES market_chart_range_meta (rowid))";

/// Creates the table of the total volumes of cached market charts.
pub const CREATE_MARKET_CHART_RANGE_TOTAL_VOLUMES: &'static str =
    "CREATE TABLE IF NOT EXISTS market_chart_range_total_volumes (parent_rowid INTEGER, timestamp INTEGER, value REAL, CONSTRAINT parent_fk FOREIGN KEY (parent_rowid) REFERENCES market_chart_range_meta (rowid))";

/// Counts the cached quote currencies.
pub const COUNT_VS_CURRENCIES: &'static str = "SELECT COUNT(*) FROM vs_currencies";

/// Reads the cached quote currencies.
pub const SELECT_VS_CURRENCIES: &'static str = "SELECT rowid, name, favourite FROM vs_currencies";

/// Stores one quote currency: its name, then its favourite flag.
pub const INSERT_VS_CURRENCY: &'static str =
    "INSERT INTO vs_currencies (name, favourite) VALUES (?, ?)";

/// Sets the favourite flag of one quote currency: the flag, then the row id.
pub const UPDATE_VS_CURRENCY_FAVOURITE: &'static str =
    "UPDATE vs_currencies SET favourite = ? WHERE rowid = ?";

/// Counts the cached coins.
pub const COUNT_COINS: &'static str = "SELECT COUNT(*) FROM coins";

/// Reads the cached coins.
pub const SELECT_COINS: &'static str = "SELECT rowid, id, symbol, name, favourite FROM coins";

/// Stores one coin: its id, symbol and name, then its favourite flag.
pub const INSERT_COIN: &'static str =
    "INSERT INTO coins (id, symbol, name, favourite) VALUES (?, ?, ?, ?)";

/// Sets the favourite flag of one coin: the flag, then the row id.
pub const UPDATE_COIN_FAVOURITE: &'static str = "UPDATE coins SET favourite = ? WHERE rowid = ?";

/// The address with which SQLite opens the database file at `db_path`.
pub fn connection_url(db_path: &str) -> (url: String)
    ensures
        url@ == "sqlite:"@ + db_path@,
{
    let mut url = String::from_str("sqlite:");
    url.append(db_path);
    url
}

/// The quote currencies that start out as favourites when the cache is
/// first filled.
pub open spec fn default_favourite_vs_currency_names() -> Seq<Seq<char>> {
    seq![
        "btc"@, "eth"@, "ltc"@, "usd"@, "eur"@, "cad"@, "aud"@, "jpy"@, "pln"@, "rub"@, "uah"@,
    ]
}

/// The coin symbols that start out as favourites when the cache is first
/// filled.
pub open spec fn default_favourite_coin_symbols() -> Seq<Seq<char>> {
    seq!["btc"@, "ltc"@, "eth"@]
}

/// The quote currencies that start out as favourites, in order.
pub fn default_favourite_vs_currencies() -> (names: Vec<&'static str>)
    ensures
        texts(names@) == default_favourite_vs_currency_names(),
{
    let names = vec!["btc", "eth", "ltc", "usd", "eur", "cad", "aud", "jpy", "pln", "rub", "uah"];
    assert(texts(names@) =~= default_favourite_vs_currency_names());
    names
}

/// The coin symbols that start out as favourites, in order.
pub fn default_favourite_coins() -> (symbols: Vec<&'static str>)
    ensures
        texts(symbols@) == default_favourite_coin_symbols(),
{
    let symbols = vec!["btc", "ltc", "eth"];
    assert(texts(symbols@) =~= default_favourite_coin_symbols());
    symbols
}

/// Whether `name` is one of `list`.
pub fn list_contains(list: &Vec<&str>, name: &str) -> (found: bool)
    ensures
        found == texts(list@).contains(name@),
{
    let wanted = String::from_str(name);
    let n = list.len();
    let mut i: usize = 0;
    while i < n
        invariant
            n == list@.len(),
            i <= n,
            wanted@ == name@,
            forall|j: int| 0 <= j < i ==> list@[j]@ != name@,
        decreases n - i,
    {
        let entry = String::from_str(list[i]);
        if entry == wanted {
            assert(texts(list@)[i as int] == name@);
            return true;
        }
        i = i + 1;
    }
    assert(!texts(list@).contains(name@)) by {
        if texts(list@).contains(name@) {
            let j = choose|j: int| 0 <= j < texts(list@).len() && texts(list@)[j] == name@;
            assert(list@[j]@ == name@);
        }
    }
    false
}

/// The rows that fill the empty table of quote currencies from what the
/// API listed: each currency in order, a favourite exactly when its name
/// is one of the default favourites.
pub fn vs_currency_rows(data: Vec<RawVsCurrency>) -> (rows: Vec<(RawVsCurrency, bool)>)
    ensures
        rows@.len() == data@.len(),
        forall|i: int|
            0 <= i < data@.len() ==> (#[trigger] rows@[i]).0 == data@[i] && rows@[i].1
                == default_favourite_vs_currency_names().contains(data@[i].name@),
{
    let defaults = default_favourite_vs_currencies();
    let mut rows: Vec<(RawVsCurrency, bool)> = Vec::new();
    let ghost all = data@;
    for currency in it: data
        invariant
            all == it.seq(),
            texts(defaults@) == default_favourite_vs_currency_names(),
            rows@.len() == it.index(),
            forall|i: int|
                0 <= i < it.index() ==> (#[trigger] rows@[i]).0 == all[i] && rows@[i].1
                    == default_favourite_vs_currency_names().contains(all[i].name@),
    {
        let is_favourite = list_contains(&defaults, currency.name.as_str());
        rows.push((currency, is_favourite));
    }
    rows
}

/// The rows that fill the empty table of coins from what the API listed:
/// each coin in order, a favourite exactly when its symbol is one of the
/// default favourites.
pub fn coin_rows(data: Vec<RawCoin>) -> (rows: Vec<(RawCoin, bool)>)
    ensures
        rows@.len() == data@.len(),
        forall|i: int|
            0 <= i < data@.len() ==> (#[trigger] rows@[i]).0 == data@[i] && rows@[i].1
                == default_favourite_coin_symbols().contains(data@[i].symbol@),
{
    let defaults = default_favourite_coins();
    let mut rows: Vec<(RawCoin, bool)> = Vec::new();
    let ghost all = data@;
    for coin in it: data
        invariant
            all == it.seq(),
            texts(defaults@) == default_favourite_coin_symbols(),
            rows@.len() == it.index(),
            forall|i: int|
                0 <= i < it.index() ==> (#[trigger] rows@[i]).0 == all[i] && rows@[i].1
                    == default_favourite_coin_symbols().contains(all[i].symbol@),
    {
        let is_favourite = list_contains(&defaults, coin.symbol.as_str());
        rows.push((coin, is_favourite));
    }
    rows
}

/// Whether a cached quote currency is a favourite.
pub open spec fn is_favourite_vs_currency() -> spec_fn(VsCurrency) -> bool {
    |c: VsCurrency| c.favourite
}

/// Whether a cached coin is a favourite.
pub open spec fn is_favourite_coin() -> spec_fn(Coin) -> bool {
    |c: Coin| c.favourite
}

/// The favourites among the cached quote currencies, in their order.
pub fn favourite_vs_currencies(all: Vec<VsCurrency>) -> (favourites: Vec<VsCurrency>)
    ensures
        favourites@ == all@.filter(is_favourite_vs_currency()),
{
    let mut favourites: Vec<VsCurrency> = Vec::new();
    let ghost whole = all@;
    for currency in it: all
        invariant
            whole == it.seq(),
            favourites@ == whole.take(it.index() as int).filter(is_favourite_vs_currency()),
    {
        proof {
            assert(whole.take(it.index() + 1) =~= whole.take(it.index() as int).push(currency));
        }
        if currency.favourite {
            favourites.push(currency);
        }
    }
    proof {
        assert(whole.take(whole.len() as int) =~= whole);
    }
    favourites
}

/// The favourites among the cached coins, in their order.
pub fn favourite_coins(all: Vec<Coin>) -> (favourites: Vec<Coin>)
    ensures
        favourites@ == all@.filter(is_favourite_coin()),
{
    let mut favourites: Vec<Coin> = Vec::new();
    let ghost whole = all@;
    for coin in it: all
        invariant
            whole == it.seq(),
            favourites@ == whole.take(it.index() as int).filter(is_favourite_coin()),
    {
        proof {
            assert(whole.take(it.index() + 1) =~= whole.take(it.index() as int).push(coin));
        }
        if coin.favourite {
            favourites.push(coin);
        }
    }
    proof {
        assert(whole.take(whole.len() as int) =~= whole);
    }
    favourites
}

/// The favourite quote currencies are exactly the cached ones whose flag is
/// set: each one listed as a favourite is cached and flagged, and each
/// cached and flagged one is listed.
pub proof fn lemma_favourite_vs_currencies_are_the_flagged(all: Seq<VsCurrency>, c: VsCurrency)
    ensures
        all.filter(is_favourite_vs_currency()).contains(c) <==> (all.contains(c) && c.favourite),
{
    let p = is_favourite_vs_currency();
    let favourites = all.filter(p);
    if favourites.contains(c) {
        all.lemma_filter_contains_rev(p, c);
        let j = choose|j: int| 0 <= j < favourites.len() && favourites[j] == c;
        all.lemma_filter_pred(p, j);
    }
    if all.contains(c) && c.favourite {
        let i = choose|i: int| 0 <= i < all.len() && all[i] == c;
        all.lemma_filter_contains(p, i);
    }
}

/// The favourite coins are exactly the cached ones whose flag is set: each
/// one listed as a favourite is cached and flagged, and each cached and
/// flagged one is listed.
pub proof fn lemma_favourite_coins_are_the_flagged(all: Seq<Coin>, c: Coin)
    ensures
        all.filter(is_favourite_coin()).contains(c) <==> (all.contains(c) && c.favourite),
{
    let p = is_favourite_coin();
    let favourites = all.filter(p);
    if favourites.contains(c) {
        all.lemma_filter_contains_rev(p, c);
        let j = choose|j: int| 0 <= j < favourites.len() && favourites[j] == c;
        all.lemma_filter_pred(p, j);
    }
    if all.contains(c) && c.favourite {
        let i = choose|i: int| 0 <= i < all.len() && all[i] == c;
        all.lemma_filter_contains(p, i);
    }
}

/// Where a load of one cached table stands.
#[derive(Debug, Clone, Copy, PartialEq, Eq, Structural)]
pub enum LoadStage {
    /// Waiting for the number of cached rows.
    Counting,
    /// Waiting for the table to be filled from the API.
    Populating,
    /// Waiting for the cached rows to be read.
    Reading,
    /// The rows have been read; the load is over.
    Finished,
}

/// What the application reports back to a table load.
#[derive(Debug, Clone, Copy, PartialEq, Eq, Structural)]
pub enum LoadEvent {
    /// The table holds this many rows.
    Counted(i64),
    /// The table has been filled from the API.
    Populated,
    /// The cached rows have been read.
    RowsRead,
}

/// What a table load asks the application to do next.
#[derive(Debug, Clone, Copy, PartialEq, Eq, Structural)]
pub enum LoadAction {
    /// Count the rows of the table.
    CountRows,
    /// Fetch the entries from the API and store them in the table.
    Populate,
    /// Read the rows of the table.
    ReadRows,
    /// Hand the rows that were read to the caller.
    Finish,
}

/// The next stage and action after `event` in `stage`, or `None` where the
/// stage does not wait for that event.
pub open spec fn load_next(stage: LoadStage, event: LoadEvent) -> Option<(LoadStage, LoadAction)> {
    match (stage, event) {
        (LoadStage::Counting, LoadEvent::Counted(count)) => {
            if count <= 0 {
                Some((LoadStage::Populating, LoadAction::Populate))
            } else {
                Some((LoadStage::Reading, LoadAction::ReadRows))
            }
        },
        (LoadStage::Populating, LoadEvent::Populated) => Some((LoadStage::Reading, LoadAction::ReadRows)),
        (LoadStage::Reading, LoadEvent::RowsRead) => Some((LoadStage::Finished, LoadAction::Finish)),
        _ => None,
    }
}

/// A load of one cached table (the quote currencies or the coins): it
/// counts the cached rows, fills the table from the API only when it is
/// empty, and then reads the rows.
#[derive(Debug, Clone, Copy, PartialEq, Eq, Structural)]
pub struct TableLoad {
    pub stage: LoadStage,
}

impl TableLoad {
    /// Starts a load: it first asks for the number of cached rows.
    pub fn start() -> (res: (TableLoad, LoadAction))
        ensures
            res.0.stage == LoadStage::Counting,
            res.1 == LoadAction::CountRows,
    {
        (TableLoad { stage: LoadStage::Counting }, LoadAction::CountRows)
    }

    /// Takes in what the application reports and gives the next action. An
    /// event that the current stage does not wait for changes nothing and
    /// gives `None`.
    pub fn step(&mut self, event: LoadEvent) -> (action: Option<LoadAction>)
        ensures
            match load_next(old(self).stage, event) {
                Some((stage, next)) => final(self).stage == stage && action == Some(next),
                None => *final(self) == *old(self) && action.is_none(),
            },
    {
        match (self.stage, event) {
            (LoadStage::Counting, LoadEvent::Counted(count)) => {
                if count <= 0 {
                    self.stage = LoadStage::Populating;
                    Some(LoadAction::Populate)
                } else {
                    self.stage = LoadStage::Reading;
                    Some(LoadAction::ReadRows)
                }
            },
            (LoadStage::Populating, LoadEvent::Populated) => {
                self.stage = LoadStage::Reading;
                Some(LoadAction::ReadRows)
            },
            (LoadStage::Reading, LoadEvent::RowsRead) => {
                self.stage = LoadStage::Finished;
                Some(LoadAction::Finish)
            },
            _ => None,
        }
    }
}

/// The actions of a load from `stage` that is told `events` in turn, and
/// the stage it ends in; `None` where some event is not waited for.
pub open spec fn load_run(stage: LoadStage, events: Seq<LoadEvent>) -> Option<(LoadStage, Seq<LoadAction>)>
    decreases events.len(),
{
    if events.len() == 0 {
        Some((stage, Seq::empty()))
    } else {
        match load_next(stage, events[0]) {
            Some((next_stage, action)) => match load_run(next_stage, events.drop_first()) {
                Some((last, actions)) => Some((last, seq![action] + actions)),
                None => None,
            },
            None => None,
        }
    }
}

/// What an application that follows a load reports when the table held
/// `count` rows: the count, the end of the filling where the load asked for
/// one, and the end of the reading.
pub open spec fn load_events(count: i64) -> Seq<LoadEvent> {
    if count <= 0 {
        seq![LoadEvent::Counted(count), LoadEvent::Populated, LoadEvent::RowsRead]
    } else {
        seq![LoadEvent::Counted(count), LoadEvent::RowsRead]
    }
}

/// A load that is told what it asked for always finishes: after counting
/// `count` rows it fills the table from the API exactly when `count` is not
/// positive, then reads the rows once and finishes.
pub proof fn lemma_load_completes(count: i64)
    ensures
        load_run(LoadStage::Counting, load_events(count)) == Some(
            (
                LoadStage::Finished,
                if count <= 0 {
                    seq![LoadAction::Populate, LoadAction::ReadRows, LoadAction::Finish]
                } else {
                    seq![LoadAction::ReadRows, LoadAction::Finish]
                },
            ),
        ),
{
    let events = load_events(count);
    reveal_with_fuel(load_run, 4);
    if count <= 0 {
        assert(events.drop_first() =~= seq![LoadEvent::Populated, LoadEvent::RowsRead]);
        assert(events.drop_first().drop_first() =~= seq![LoadEvent::RowsRead]);
        assert(events.drop_first().drop_first().drop_first() =~= Seq::<LoadEvent>::empty());
    } else {
        assert(events.drop_first() =~= seq![LoadEvent::RowsRead]);
        assert(events.drop_first().drop_first() =~= Seq::<LoadEvent>::empty());
    }
}

/// The cache asks the API only for an empty table: in every run of a load
/// from its start, whatever the events, a `Populate` action comes only
/// right after the table was counted with no positive number of rows, and
/// it is the first action.
pub proof fn lemma_populate_only_when_empty(events: Seq<LoadEvent>, i: int)
    requires
        load_run(LoadStage::Counting, events) is Some,
        0 <= i < load_run(LoadStage::Counting, events).unwrap().1.len(),
        load_run(LoadStage::Counting, events).unwrap().1[i] == LoadAction::Populate,
    ensures
        i == 0,
        events[0] matches LoadEvent::Counted(count) && count <= 0,
{
    lemma_run_shape(LoadStage::Counting, events);
}

/// From a stage, a run gives one action per event, and a `Populate` action
/// comes only out of the counting stage with a count that is not positive.
proof fn lemma_run_shape(stage: LoadStage, events: Seq<LoadEvent>)
    requires
        load_run(stage, events) is Some,
    ensures
        load_run(stage, events).unwrap().1.len() == events.len(),
        forall|i: int|
            0 <= i < events.len() && (#[trigger] load_run(stage, events).unwrap().1[i])
                == LoadAction::Populate ==> i == 0 && stage == LoadStage::Counting
                && (events[0] matches LoadEvent::Counted(count) && count <= 0),
    decreases events.len(),
{
    if events.len() > 0 {
        let (next_stage, action) = load_next(stage, events[0]).unwrap();
        lemma_run_shape(next_stage, events.drop_first());
        let rest = load_run(next_stage, events.drop_first()).unwrap().1;
        assert forall|i: int|
            0 <= i < events.len() && (#[trigger] load_run(stage, events).unwrap().1[i])
                == LoadAction::Populate implies i == 0 && stage == LoadStage::Counting
                && (events[0] matches LoadEvent::Counted(count) && count <= 0) by {
            if i > 0 {
                assert(load_run(stage, events).unwrap().1[i] == rest[i - 1]);
                assert(next_stage != LoadStage::Counting);
            }
        }
    }
}

} // verus!

use coingecko_requests::caching_client::{
    coin_rows, connection_url, default_favourite_coins, default_favourite_vs_currencies,
    favourite_coins, favourite_vs_currencies, list_contains, vs_currency_rows, LoadAction,
    LoadEvent, LoadStage, TableLoad, COUNT_COINS, COUNT_VS_CURRENCIES, INSERT_COIN,
    INSERT_VS_CURRENCY, SELECT_COINS, SELECT_VS_CURRENCIES, UPDATE_COIN_FAVOURITE,
    UPDATE_VS_CURRENCY_FAVOURITE,
};
use coingecko_requests::data::{Coin, RawCoin, RawVsCurrency, VsCurrency};

fn raw_currency(name: &str) -> RawVsCurrency {
    RawVsCurrency { name: name.to_string() }
}

fn raw_coin(id: &str, symbol: &str, name: &str) -> RawCoin {
    RawCoin { id: id.to_string(), symbol: symbol.to_string(), name: name.to_string() }
}

#[test]
fn connection_address() {
    assert_eq!(connection_url("/home/u/.local/share/data.db"), "sqlite:/home/u/.local/share/data.db");
    assert_eq!(connection_url(""), "sqlite:");
}

#[test]
fn statements_name_the_tables() {
    assert_eq!(COUNT_VS_CURRENCIES, "SELECT COUNT(*) FROM vs_currencies");
    assert_eq!(SELECT_VS_CURRENCIES, "SELECT rowid, name, favourite FROM vs_currencies");
    assert_eq!(INSERT_VS_CURRENCY, "INSERT INTO vs_currencies (name, favourite) VALUES (?, ?)");
    assert_eq!(UPDATE_VS_CURRENCY_FAVOURITE, "UPDATE vs_currencies SET favourite = ? WHERE rowid = ?");
    assert_eq!(COUNT_COINS, "SELECT COUNT(*) FROM coins");
    assert_eq!(SELECT_COINS, "SELECT rowid, id, symbol, name, favourite FROM coins");
    assert_eq!(INSERT_COIN, "INSERT INTO coins (id, symbol, name, favourite) VALUES (?, ?, ?, ?)");
    assert_eq!(UPDATE_COIN_FAVOURITE, "UPDATE coins SET favourite = ? WHERE rowid = ?");
}

#[test]
fn default_favourite_lists() {
    assert_eq!(
        default_favourite_vs_currencies(),
        vec!["btc", "eth", "ltc", "usd", "eur", "cad", "aud", "jpy", "pln", "rub", "uah"]
    );
    assert_eq!(default_favourite_coins(), vec!["btc", "ltc", "eth"]);
}

#[test]
fn list_membership() {
    let list = vec!["btc", "eth"];
    assert!(list_contains(&list, "eth"));
    assert!(!list_contains(&list, "ETH"));
    assert!(!list_contains(&list, "et"));
    assert!(!list_contains(&Vec::new(), "btc"));
}

#[test]
fn quote_currency_rows_mark_default_favourites() {
    let rows = vs_currency_rows(vec![raw_currency("usd"), raw_currency("xau"), raw_currency("uah")]);
    assert_eq!(
        rows,
        vec![(raw_currency("usd"), true), (raw_currency("xau"), false), (raw_currency("uah"), true)]
    );
    assert!(vs_currency_rows(Vec::new()).is_empty());
}

#[test]
fn coin_rows_mark_favourites_by_symbol() {
    let rows = coin_rows(vec![
        raw_coin("bitcoin", "btc", "Bitcoin"),
        raw_coin("usd", "usdt", "Tether"),
        raw_coin("eth", "weth", "Wrapped Ether"),
        raw_coin("ethereum", "eth", "Ethereum"),
    ]);
    let flags: Vec<bool> = rows.iter().map(|r| r.1).collect();
    assert_eq!(flags, vec![true, false, false, true]);
    assert_eq!(rows[2].0, raw_coin("eth", "weth", "Wrapped Ether"));
}

#[test]
fn favourites_filter_keeps_order() {
    let all = vec![
        VsCurrency { rowid: 1, raw: raw_currency("btc"), favourite: true },
        VsCurrency { rowid: 2, raw: raw_currency("xau"), favourite: false },
        VsCurrency { rowid: 3, raw: raw_currency("usd"), favourite: true },
    ];
    let favourites = favourite_vs_currencies(all.clone());
    assert_eq!(favourites, vec![all[0].clone(), all[2].clone()]);
    assert!(favourite_vs_currencies(Vec::new()).is_empty());

    let coins = vec![
        Coin { rowid: 5, raw: raw_coin("a", "a", "A"), favourite: false },
        Coin { rowid: 6, raw: raw_coin("b", "b", "B"), favourite: true },
    ];
    assert_eq!(favourite_coins(coins.clone()), vec![coins[1].clone()]);
    let none = vec![Coin { rowid: 9, raw: raw_coin("c", "c", "C"), favourite: false }];
    assert!(favourite_coins(none).is_empty());
}

#[test]
fn load_of_empty_table_populates() {
    let (mut load, action) = TableLoad::start();
    assert_eq!(action, LoadAction::CountRows);
    assert_eq!(load.stage, LoadStage::Counting);
    assert_eq!(load.step(LoadEvent::Counted(0)), Some(LoadAction::Populate));
    assert_eq!(load.step(LoadEvent::Populated), Some(LoadAction::ReadRows));
    assert_eq!(load.step(LoadEvent::RowsRead), Some(LoadAction::Finish));
    assert_eq!(load.stage, LoadStage::Finished);
}

#[test]
fn load_of_filled_table_skips_api() {
    let (mut load, _) = TableLoad::start();
    assert_eq!(load.step(LoadEvent::Counted(170)), Some(LoadAction::ReadRows));
    assert_eq!(load.stage, LoadStage::Reading);
    assert_eq!(load.step(LoadEvent::RowsRead), Some(LoadAction::Finish));
}

#[test]
fn load_with_negative_count_populates() {
    let (mut load, _) = TableLoad::start();
    assert_eq!(load.step(LoadEvent::Counted(-1)), Some(LoadAction::Populate));
}

#[test]
fn load_ignores_unexpected_events() {
    let (mut load, _) = TableLoad::start();
    assert_eq!(load.step(LoadEvent::RowsRead), None);
    assert_eq!(load.step(LoadEvent::Populated), None);
    assert_eq!(load.stage, LoadStage::Counting);
    assert_eq!(load.step(LoadEvent::Counted(3)), Some(LoadAction::ReadRows));
    assert_eq!(load.step(LoadEvent::Counted(3)), None);
    assert_eq!(load.step(LoadEvent::Populated), None);
    assert_eq!(load.stage, LoadStage::Reading);
}

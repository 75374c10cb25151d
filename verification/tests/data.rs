use coingecko_requests::data::{Coin, RawCoin, RawVsCurrency, VsCurrency};

fn usd(rowid: i64, favourite: bool) -> VsCurrency {
    VsCurrency { rowid, raw: RawVsCurrency { name: "usd".to_string() }, favourite }
}

fn bitcoin(rowid: i64, favourite: bool) -> Coin {
    Coin {
        rowid,
        raw: RawCoin { id: "bitcoin".to_string(), symbol: "btc".to_string(), name: "Bitcoin".to_string() },
        favourite,
    }
}

#[test]
fn raw_records_show_name_and_id() {
    assert_eq!(RawVsCurrency { name: "eur".to_string() }.to_string(), "eur");
    let coin = RawCoin { id: "ethereum".to_string(), symbol: "eth".to_string(), name: "Ethereum".to_string() };
    assert_eq!(coin.to_string(), "ethereum");
}

#[test]
fn cached_quote_currency_listing() {
    assert_eq!(usd(3, true).to_string(), "[3!] usd");
    assert_eq!(usd(3, false).to_string(), "[3] usd");
    assert_eq!(usd(-12, false).to_string(), "[-12] usd");
    assert_eq!(usd(i64::MAX, true).to_string(), "[9223372036854775807!] usd");
}

#[test]
fn cached_coin_listing() {
    assert_eq!(bitcoin(7, false).to_string(), "[7] bitcoin");
    assert_eq!(bitcoin(1, true).to_string(), "[1!] bitcoin");
    assert_eq!(bitcoin(0, false).to_string(), "[0] bitcoin");
}

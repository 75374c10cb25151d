//! The requests that the client sends to the CoinGecko API, and what it
//! makes of the plain answers. The requests themselves are sent by the
//! application around this library.

use vstd::prelude::*;

use crate::data::RawVsCurrency;
use crate::text::{join, joined, texts, u64_to_decimal, decimal};

verus! {

/// The base address of version 3 of the CoinGecko API.
pub const API_URL: &'static str = "https://api.coingecko.com/api/v3";

/// A client of the CoinGecko API. It holds no state: each method gives the
/// address of one request.
#[derive(Debug, Clone, PartialEq, Eq)]
pub struct Client {}

impl Client {
    pub fn new() -> (c: Self)
        ensures
            c == (Client {}),
    {
        Client {}
    }

    /// The address that answers whether the API is up.
    pub fn ping_url(&self) -> (url: String)
        ensures
            url@ == API_URL@ + "/ping"@,
    {
        let mut url = String::from_str(API_URL);
        url.append("/ping");
        url
    }

    /// The address of the current prices of the coins `ids` in the
    /// currencies `vs_currencies`; each list is sent joined by commas.
    pub fn price_url(&self, ids: &[&str], vs_currencies: &[&str]) -> (url: String)
        ensures
            url@ == API_URL@ + "/simple/price?ids="@ + joined(texts(ids@), ","@)
                + "&vs_currencies="@ + joined(texts(vs_currencies@), ","@),
    {
        let ids = join(ids, ",");
        let vs_currencies = join(vs_currencies, ",");
        let mut url = String::from_str(API_URL);
        url.append("/simple/price?ids=");
        url.append(ids.as_str());
        url.append("&vs_currencies=");
        url.append(vs_currencies.as_str());
        url
    }

    /// The address of the list of supported quote currencies.
    pub fn vs_currencies_url(&self) -> (url: String)
        ensures
            url@ == API_URL@ + "/simple/supported_vs_currencies"@,
    {
        let mut url = String::from_str(API_URL);
        url.append("/simple/supported_vs_currencies");
        url
    }

    /// The address of the list of all coins.
    pub fn coins_url(&self) -> (url: String)
        ensures
            url@ == API_URL@ + "/coins/list"@,
    {
        let mut url = String::from_str(API_URL);
        url.append("/coins/list");
        url
    }

    /// The address of the market chart of coin `id` in `currency` between
    /// the UNIX times `from` and `to`, given in seconds. The answer gives
    /// its times in milliseconds.
    pub fn market_chart_url(&self, id: &str, currency: &str, from: u64, to: u64) -> (url: String)
        ensures
            url@ == API_URL@ + "/coins/"@ + id@ + "/market_chart/range?vs_currency="@ + currency@
                + "&from="@ + decimal(from as nat) + "&to="@ + decimal(to as nat),
    {
        let from_text = u64_to_decimal(from);
        let to_text = u64_to_decimal(to);
        let mut url = String::from_str(API_URL);
        url.append("/coins/");
        url.append(id);
        url.append("/market_chart/range?vs_currency=");
        url.append(currency);
        url.append("&from=");
        url.append(from_text.as_str());
        url.append("&to=");
        url.append(to_text.as_str());
        url
    }
}

/// The quote currencies named by the list that the API answers with, in
/// its order.
pub fn vs_currencies_from_names(names: Vec<String>) -> (currencies: Vec<RawVsCurrency>)
    ensures
        currencies@.len() == names@.len(),
        forall|i: int| 0 <= i < names@.len() ==> (#[trigger] currencies@[i]).name == names@[i],
{
    let mut currencies: Vec<RawVsCurrency> = Vec::new();
    let ghost all = names@;
    for name in it: names
        invariant
            all == it.seq(),
            currencies@.len() == it.index(),
            forall|i: int| 0 <= i < it.index() ==> (#[trigger] currencies@[i]).name == all[i],
    {
        currencies.push(RawVsCurrency { name });
    }
    currencies
}

} // verus!

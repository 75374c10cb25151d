//! Verified core of a small CoinGecko client that caches what it fetches
//! in a local SQLite database: the request URLs, the records and how they
//! are shown, which entries start out as favourites, and the decisions of
//! a cached table load.

pub mod text;
pub mod data;
pub mod api_client;
pub mod caching_client;

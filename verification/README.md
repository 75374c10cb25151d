# coingecko_requests

A small CoinGecko client that keeps the quote currencies and coins it
fetches in a local SQLite database.

- `src/` is the verified library: the request addresses (`api_client`), the
  records and their listing text (`data`), the SQL statements, the default
  favourites, the favourite filters and the table-load state machine that
  decides when the API is asked (`caching_client`), and the decimal and
  join helpers they are built from (`text`).
- `app/` is the program: it sends the HTTP requests, talks to SQLite, reads
  the JSON answers (including the market chart, whose values are floats) and
  runs each table load that the library steps through.
- `tests/` runs the library on concrete values.

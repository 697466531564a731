# talkshows

Reads the online archives of German political talk shows (Anne Will,
hart aber fair, maischberger, and the ZDF shows found through the ZDF
search) and stores their episodes and guests in an SQLite database.

- `src/` is the library, verified with Verus. Each show has a module that
  turns the show's archive pages into episodes and guests, and a crawl: a
  state machine that asks for pages, is handed their bodies, and finally
  hands over the episodes to store. `store.rs` is the state machine that
  stores one episode. `html.rs`, `pattern.rs` and `time.rs` hold the
  trusted contracts of the calls into `scraper`, `regex` and `chrono`.
- `app/` is the program: it performs the crawls' HTTP requests with
  `reqwest` and runs the SQL statements with `sqlx`.
- `tests/` holds the library's tests.

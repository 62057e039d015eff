# Ping Buddy

A Telegram bot that organizes group chats by topics: members subscribe to
topics through inline buttons, and `/topic_name` pings every subscriber of a
topic (`/all` pings the general topic, `/list` shows the topics with the
sender's subscriptions).

## Layout

- `src/` — the library, verified with Verus: topic-name validation, the
  bot's texts and keyboards, the decisions of the update handlers, the
  in-memory chat storage (over `hashbrown` collections), the sorted
  subscription cache, the rules the SQLite store applies around its
  queries, and configuration checking (with `url` for parsing). Each public
  function states its result in its contract; the `law_*` proof functions
  state what holds across operations.
- `tests/` — tests on concrete values, run against the compiled library.
- `app/` — the program around the library: Telegram dispatching
  (`teloxide`), the SQLite backend (`sqlx`), async plumbing (`tokio`), and
  the error and command types with their derives.

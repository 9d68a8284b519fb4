# amt_social

The rules of the AMT social server, verified with Verus, and the server
around them.

- `src/` is the verified library:
  - `parsing` extracts `#hashtags` and `@mentions` from post content;
    `tag_laws` and `word_laws` prove that extraction works word by word, that
    only sigil words matter, that mentions read like hashtags, and that
    hashtags of ASCII text read back unchanged;
  - `users` decides what a registration stores;
  - `posts` drafts new posts and reads stored ones back;
  - `feed` turns feed filters into queries and rows into a reply;
  - `likes` toggles likes and the like counter;
  - `error` holds the API's error replies;
  - `text` states whitespace in full and holds the trusted calls for
    alphanumeric characters and lower-casing; `clock` holds the trusted calls
    into `chrono` and `uuid`.
- `app/` is the HTTP server (axum), the SQLite store (rusqlite) and the JSON
  forms of the library's types (serde).
- `tests/` runs the library on concrete values.

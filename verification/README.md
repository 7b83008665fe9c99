# kepce_api

The rules of Kepçe, a site where students follow, rate and discuss the daily menus of
the dormitory kitchens of Türkiye, as a library verified with Verus.

- `src/` holds the logic: menus and their alternatives, prices by period, votes and
  reactions, comments and their threads, moderation, reports, accounts and sessions,
  the rate limiter and the API usage quota, the status pages and the menu hash chain,
  the assistant's tools and the texts it hands the model, the Open Graph cards, the
  database console's guards and the cutting of migration files into statements.
  Every function carries a contract; the laws that span several functions are public
  proof functions (`lemma_*`).
- Calls into other crates (chrono, sha2, regex, uuid, validator, serde_json, base64,
  resvg, bcrypt for password hashing, jsonwebtoken for signed tokens) stand behind
  small trusted wrappers whose doc comments say what is believed of them.
- `app/` is the HTTP server around the library (axum, tower-http): it reads the
  environment, limits requests and serves the static Open Graph cards.
- `tests/` runs the library on concrete values.

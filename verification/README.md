# racklog

A homelab inventory service: items, locations, suppliers, purchase and
sales orders, transfers, cycle counts, a hash-chained activity log, user
accounts with sessions and API keys, reorder forecasting, CSV import and
export, barcode lookup against external product databases, and a Model
Context Protocol bridge.

## Layout

- `src/` — the library, verified with Verus. Every rule the service
  applies lives here with its contract: authentication (role order,
  key scopes, the credential resolution machine, login throttling,
  session and API-key judgement, password hashing), the audit chain and
  its tamper-detection laws, CSV reading and writing, import planning,
  reorder planning, vision counts, configuration, event ingestion and
  HMAC checks, admin decisions, lookup provider policy, MCP routing, and
  the web asset rules. Calls into outside crates (SHA-256, HMAC, hex,
  Argon2, random bytes, time, IP networks, URL encoding, MIME guessing)
  go through small trusted wrappers whose contracts are stated beside
  them.
- `app/` — the server around the library: HTTP routing (axum), database
  access (sqlx/SQLite), HTTP clients for the lookup providers (reqwest),
  logging, and the stdio MCP loop. It holds no rule of its own beyond
  moving values between the network, the database and the library, and
  the floating-point work: money, rates, and reading the rate-limit
  settings.
- `tests/` — tests of the library through its public interface.

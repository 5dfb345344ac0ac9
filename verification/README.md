# auth_service

The verified core of a university records service: sign-in and passwords,
multi-factor authentication with its lock, one-time codes, account import from
files, student codes, per-day statistics, request scheduling, the request log's
redaction rules, and what the message-queue consumers do after a blockchain
operation.

- `src/` — the library, written in Verus; every function there is proved, and
  each that computes a result carries a contract stating it (the unit
  constructors of the repository handles, `new`, have nothing to state). Calls
  into outside crates (bcrypt, chrono, uuid, urlencoding, google-authenticator,
  rand) sit behind small trusted wrappers whose contracts say what those crates
  document.
- `tests/` — tests on concrete values, run against the compiled library.
- `app/` — the program around the library: settings, Redis, the message broker,
  the HTTP log middleware and the routes that need no database.

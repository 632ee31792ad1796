# qbcli

A command-line client for the QuickBooks Online API, built around a library
whose rules are proved with Verus.

- `src/` is the verified library:
  - `util.rs`: the QuickBooks environments, their command-line names and
    endpoints; `util/cli.rs`: profile selection; `util/auth.rs`: redirect
    address, anti-forgery state, the check of the login redirect and of the
    realm; `util/secrets.rs`: secret-store attributes, when an existing item
    blocks storing a token, and reading a stored item back.
  - `config.rs`: stored settings and the OAuth application credentials.
  - `logging.rs`: the choice of log filter from the verbosity options.
  - `commands/accounting.rs`: the company-info request.
  - `text.rs`: string helpers (decimal numbers, case-insensitive comparison,
    name/value lookup).
- `app/` is the program: argument parsing, files, the secret store, HTTP,
  the browser login and logging set-up, calling the library for every
  decision.
- `tests/` exercises the library on concrete values.

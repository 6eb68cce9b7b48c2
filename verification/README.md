# keyring

An SSH agent whose identities come from configured key providers: a dummy provider with one
fixed Ed25519 key, and a Bitwarden provider that logs in with an API key, syncs the vault and
publishes its SSH-key items.

## Layout

- `src/` is the library, verified with Verus. It holds the decisions of the agent and its
  providers, each with a contract:
  - `agent`, `keys`, `order`: per-connection sessions, the key snapshot in public-key order
    with the last duplicate kept, signing (Ed25519, RSA with SHA-256 or SHA-512), and the
    `query` and `session-bind@openssh.com` extensions.
  - `session`, `auth`, `crypto`, `models`, `provider`: Bitwarden login state, the retry of an
    unauthorized sync, the token request and response, unlock data, organization and item keys,
    and which vault items become identities under which comment.
  - `config`, `cache`, `platform`, `serve`, `text`, `vecs`: configuration and validation, the
    one-hour snapshot cache, stale socket reclaiming, the reload and shutdown decisions of the
    service loop, and small text helpers.
- `tests/` exercises the library on concrete values.
- `app/` is the program around it: argument parsing, reading the TOML file, logging, the Unix
  listener and signals, HTTP, JSON decoding, the Bitwarden key store, and the async loops that
  perform what the library decides.

Calls into outside crates go through small trusted functions in `src/` whose contracts state
what those crates' sources show; each is documented where it is declared.

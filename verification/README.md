# sa_token_core

A token-based login and authorization library, verified with Verus.

- `src/` — the verified library: the in-memory store with expiry
  (`store`, `dao`), sessions and terminals (`session`), the login,
  logout, session, role, permission, ban, second-level authentication and
  account-switching rules of an account type (`stp::logic`, with the facade
  `stp::util`), the same rules over a runtime owned by the instance
  (`stp::async_logic`, facade `stp::async_util`), temporary tokens (`temp`),
  the request firewall and its hooks (`strategy`), and string, number, URL,
  hex and template helpers (`text`, `num`, `util`).
- `tests/` — tests of the library on concrete values.
- `app/` — what stays outside the verified library: JSON forms of the
  models with serde, typed reading of temporary-token values,
  process-wide instances, the stores on `moka` and on Redis (whose expiry
  arithmetic, key search and paging come from `dao_moka` and `dao_redis`),
  the listeners of token events, and the background sweeper.

The library reads no clock of its own in its rules: the logic types carry a
clock reading that callers set (`set_clock`) or take from the system clock
(`sync_clock`).

Roles and permissions come from a source the application provides
(`stp::interface::StpInterface`); each check answers from the lists that
source holds for the current account. Each login, logout, kickout,
replaced login, ban, lifted ban and second-level authentication is
recorded as an event (`SaTokenEvent`); the application takes the events
(`take_events`) and hands them to its listeners (`app/listener.rs`).

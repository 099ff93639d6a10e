# looptask

A config-first control plane for engineering loops: a project describes its
loops, the service validates and plans them, dispatches them to celld-backed
agent cells, records runs, and authenticates operators with one-time email
codes.

## Layout

- `src/` — the verified library (Verus). Every function carries a contract,
  and the laws of the library are proof functions:
  - `models` — projects, loops and their policies;
  - `config` — service settings and project configuration checks;
  - `loop_catalog` — the loop template catalog and loop validation;
  - `celld` — the celld foundation, agent cell ids, artifact placement and
    the URLs of agent cell requests;
  - `server` — planning and dispatching loops, stopping resident loops,
    static assets, session cookies and client addresses;
  - `auth` — email normalization, codes and their hashes, the judgment of a
    presented code, the in-memory store of users, codes and sessions, and
    the mailing of codes;
  - `github` — repository references, the allow-list, branch names and the
    GitHub API's URLs and answers;
  - `persistence` — the checks of the project and run store;
  - `urls`, `text` — URLs through the `url` crate, and text operations.
- `app/` — the HTTP service around the library: axum routes, PostgreSQL,
  and the HTTP clients of celld, GitHub and Cloudflare.
- `tests/` — tests of the library.

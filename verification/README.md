# browser_render

The core of a browser-automation service that fetches vehicle data and ETC
usage statements, verified with Verus.

- `src/` — the verified library:
  - `config` — environment values and command-line settings to a `Config`;
    duration strings such as `60s`, `10m`, `1h`, `500ms`.
  - `grpc_web_client` — gRPC-Web framing: request frames, reading response
    bodies (data, status, message), unary call outcomes.
  - `clock` — UTC timestamps and their `chrono` renderings.
  - `jobs` — the job table and queue, the vehicle slot that lets one
    vehicle job run at a time, and the in-order run over a batch's accounts
    (`manager`), session-folder retention
    (`folders`), and the records and decisions of the rust-logi reports
    (`rust_logi`).
  - `browser`, `storage` — session checks and the errors of the session store.
  - `server` — the rules of the HTTP API, the gRPC-JSON endpoints, the
    gRPC session answers and the gRPC-Web JSON mode.
  - `startup` — server selection and the startup banner.
- `app/` — the executable around it: environment, logging, SQLite, the axum
  servers, the background workers that drive the browser scrapers.
- `tests/` — tests of the library through its public interface.

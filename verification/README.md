# soliton

Axum process-host helpers with verified decision logic.

- `src/` — the library, checked by Verus:
  - `listener` — listen-address resolution (`LEPTOS_SITE_ADDR` → `SITE_ADDR` → default)
    and the bind policy (non-loopback only with HMAC key material);
  - `subsystem_auth` — HMAC key loading, request signing and verification, path
    enforcement, and the two-step middleware decision;
  - `tokio_runtime` — worker stack size from `SOLITON_WORKER_STACK_BYTES`;
  - `error`, `addr_text`, `hex_text`, `text` — error values and their text, address
    text, hex text, character helpers.
- `app/` — the host wiring: environment reads, TCP bind, Axum serve, the HMAC
  middleware and request-extension middleware, the Tokio runtime.
- `tests/` — tests of the library on concrete values.

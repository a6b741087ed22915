# astrbot

An LLM chat bot core: messages arrive from chat platforms (a personal WeChat
account over the iLink HTTP API, or a WebSocket bridge), are answered by an
OpenAI-compatible chat provider, and the answers go back to the conversation they
came from. A token-protected dashboard API exposes configuration, providers, logs
and statistics.

## Layout

- `src/` — the library, verified with Verus:
  - `platform/` — the message model (chains, events, metadata), the platform
    registry, and the adapters' protocol logic: sync-response reading with
    de-duplication and quoted-reply context, the recent-message cache, outgoing
    message planning, media upload requests, AES-ECB media encryption with PKCS#7
    padding and media-key parsing, and the bridge's frames and reconnect backoff.
  - `provider/` — request and response entities, the provider registry, and the
    OpenAI-compatible provider's request bodies, response reading and retry policy.
  - `engine/` — the message pipeline's decisions, the event bus's in-flight set,
    and start-up planning (providers, token secret).
  - `api/` — login throttling and credentials, the token guard, reply bodies.
  - `config.rs`, `json.rs`, `text.rs`, `assoc.rs`, `utils/` — configuration,
    JSON values, string helpers, association lists, errors and the log buffer.
- `tests/` — tests of the library.
- `app/` — the program around it: HTTP, WebSocket, SQLite, TOML files, tracing,
  the async runtime and the dashboard server.

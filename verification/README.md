# exchange_api

Market data from crypto exchanges (Binance, Bybit) and FIX session handling,
with the logic verified by Verus.

`src/` is the verified library:

- `text` — decimal rendering and parsing, searching, joining, for the rest.
- `fix` — FIX tags and enumerations, message parsing/encoding with BodyLength
  and CheckSum, and the session state machine.
- `ws` — WebSocket configuration, the reconnect policy with exponential
  backoff, and message payloads.
- `api` — stream kinds and update rates, endpoints, HTTP request building and
  URL encoding, pipeline checks, per-stream throttling, Redis key layout.
- `book` — one side of a price-level order book, held in a `BTreeMap`, with prices and
  quantities as order-preserving 64-bit keys.
- `command_error` — classification and text of WebSocket command errors.
- `binance` — combined-stream names and URL, payload kinds.
- `okx` — Binance spot with local order books synchronised from diff-depth
  events and a REST snapshot (buffering, replay, gap detection).
- `bybit` — subscription topics, topic kinds, order books, instruments.

`app/` holds the transport and runtime around it: WebSocket and HTTP I/O,
JSON decoding, floating-point conversion, outputs, and the `Exchange`
implementations that call into the library.

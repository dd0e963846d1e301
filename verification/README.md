# nice_trader

Core utilities of the NiceTrader trading platform, written in Verus and
verified against their contracts.

Layout:

- `src/` — the verified library:
  - `uuid.rs`: `UUID4`, a version 4 RFC 4122 UUID kept as NUL-terminated
    hyphenated text; the text form, what the `uuid` crate parses, and the
    round-trip and case laws.
  - `formatting.rs`: thousands separators (`separate_with`, `Separable`) and
    the decimal text of integers.
  - `string.rs`: masking API keys.
  - `identifiers.rs`: `TraderId` and its checks.
  - `logging.rs`: the logging configuration, the output plan it asks for, the
    one-logger-per-process rule, and the text of plain and JSON log lines.
  - `generators.rs`: the date-time tag of generated identifiers.
  - `paths.rs`, `network.rs`, `messages.rs`, `drop.rs`, `text.rs`.
- `app/` — the `raptor` program: configuration loading (figment, serde), the
  `tracing` subscriber set-up, TLS configuration and conversions with outside
  types.
- `tests/` — tests of the library.

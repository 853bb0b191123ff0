# kite_connect

A client library for the Kite Connect trading API, written in Verus.

- `src/` is the verified library:
  - `wire.rs`: big-endian fields of the binary feed and a bounded read cursor;
  - `ticker.rs`: the tick frame decoder (`parse_ticks`, `parse_binary`), its
    specification (`frame_ticks`), the laws proved of it, and the feed
    connection's decisions (`KiteTicker`, `TickerCommand::message`, `record`,
    `next_action`);
  - `connect.rs`: REST credentials, request addresses and forms, the session
    checksum and the verdict on a response (`check_response`);
  - `error.rs`, `models.rs`, `json.rs`, `text.rs`: errors, response models,
    the serde_json calls, and text helpers.
- `app/` holds the HTTP and WebSocket I/O (reqwest, tokio-tungstenite), the
  serde and thiserror derives, and the floating-point views of prices.
- `tests/` exercises the library on concrete frames, requests and responses.

Prices on the feed are fixed-point numbers; the library keeps them as
`Scaled { raw, divisor }` and `app/` turns them into `f64`.

# hft_skeleton

Building blocks of a low-latency trading system, verified with Verus.

Quantities are integers: prices in ticks, sizes and balances in lots.
Statistics that are ratios of such integers are returned exactly as a
`Fraction` (`num / den`).

`src/` is the verified library:

- `data/orderbook.rs`: the two-sided L2 book (16 best levels per side,
  sorted worst to best), its model (`updated_side`, `size_at`, ...) and the
  statistics over it (cumulative depth, walls, top share, VWAP, imbalances).
- `data/book_laws.rs`: laws of the book (read after write, deletes, other
  levels untouched, eviction of the worst level, idempotence, ratio bounds).
- `data/types.rs`: sides, best bid/ask with order-flow imbalance, events.
- `data/binance_ws.rs`: the websocket upgrade request and handshake rules.
- `data/feeds.rs`, `infra/ringbuf.rs`: routing events over `rtrb` rings.
- `infra/time.rs`: the clock.
- `execution/`, `risk/`, `strategy/`: order, risk and model data types.

`app/` holds what stays outside the verifier: the TLS socket, sleeping,
serde configuration, and the floating-point features and model scores.

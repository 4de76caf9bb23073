# ibx

The decision-making core of an Interactive Brokers gateway engine, written in
Verus. Every function under `src/` carries a contract; Verus proves them all
except those of the few `#[verifier::external_body]` wrappers around std
(the clock, lossy UTF-8 text, case mapping, trimming and one-character text),
whose contracts are trusted and say in their doc comments what they claim.

- `market_state`: per-instrument quotes, contract ids, server tags, symbols and
  scaled minimum ticks.
- `farm`, `fields`, `ticks`, `depth`, `news`, `dispatch`, `wire`: market-data
  farm subscriptions, acknowledgements, top-of-book ticks, order-book (35=P,
  35=Y) and news decoding.
- `hmds`: pending historical-data queries, tick-by-tick streams, query errors.
- `orders`, `order_tags`: new-order, cancel and replace messages for every
  order type, grouped by request, the order records they leave, and when a
  request counts as sent.
- `client_stubs`: gateway-local client requests, answered from the session's
  init and logon data.
- `text`, `fix_msg`, `types`: decimal text, FIX field lists, shared types.

`app/` holds what stays outside verification: floating-point minimum ticks,
event delivery over channels, farm and HMDS message routing, the order send
loop, and the Python-facing stubs.

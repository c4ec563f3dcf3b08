# a_book_bridge

The A-book bridge opens positions of a trading platform with an outside liquidity provider
over a FIX session, and answers a gRPC endpoint.

- `src/` is the verified library: the session state and the handling of each feed message
  (`processor`, `connection`, `reports`), the bounded wait of an order for its execution report
  (`waiting`), the decisions of opening a position (`flow`), the choice of the quote that prices
  an instrument (`pricing`), and the errors and status codes (`errors`, `contracts`).
- `app/` is the service around it: the no-sql readers, the FIX connection, the gRPC server, the
  pauses between look-ups and the floating-point price and volume arithmetic.
- `tests/` runs the library on concrete values.

# ws_load_tester

A WebSocket load tester and echo test server whose core is verified with Verus.

- `src/` — the verified library: the statistics a load test keeps (`stats`,
  `ports`), the decisions a client connection takes on each connect, read and
  send outcome (`session`), the echo server's answers (`server`), URL
  normalisation and connection pacing (`load_tester`), the message types
  (`types`) and character-level helpers (`text`).
- `app/` — the program: command line, networking with tokio and
  tokio-tungstenite, JSON encoding, logging and the floating-point rates of
  the statistics report.
- `tests/` — tests of the library on concrete values.

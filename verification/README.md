# georuggine

Server and vehicle emulator for tracking a fleet: vehicles log in, report
their position every thirty seconds, and the server tracks whether each one
is stationary or moving, records its trajectory, and analyses routes.

`src/` is the verified library (Verus):

- `text` — whitespace, trimming, splitting into words, joining.
- `time` — instants as seconds and nanoseconds, calendar arithmetic, RFC 3339 text.
- `model` — positions (nanodegrees), vehicle status, protocol messages.
- `names` — an insertion-ordered map from names to values.
- `credentials` — SHA-256 password hashing, hex encoding.
- `session` — per-vehicle sessions and message delivery.
- `state` — the server state and the stationary/moving state machine.
- `analysis` — interval starts and route analysis.
- `protocol` — server replies, request handling, console commands.
- `records` — the users-file and trajectory-file line formats.
- `client` — the emulator's menus, coordinate lines, pseudo-random generator.
- `laws` — properties that span several operations.

`app/` holds the two programs (`server`, `client`): sockets, threads, files,
JSON on the wire, and the floating-point geometry (degrees, haversine distance,
CPU load).

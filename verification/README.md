# relay-rs

A relay for Watch Together sessions: clients meet in rooms over WebSockets, and
the relay passes their messages on. It speaks version 2 of the relay protocol.

The rules are a library that Verus proves; the sockets, files and clocks around
them are ordinary Rust.

## Layout

- `src/` is the verified library. Nothing in it waits, locks or does I/O:
  every operation takes the state, the time and what came in, and says what is
  to happen next.
  - `room` is the state machine of one room, `registry` the table of rooms,
    `connection` what a client's messages do to both, `host_transfer` who may
    take over as host.
  - `snapshot` says what of the rooms is saved and restored, and when.
  - `client_ip`, `quotas`, `ws` and `logs` decide which address a request counts
    for, whether a client may connect, and what becomes of crash logs.
  - `ids` and `protocol` hold ids, token verifiers and messages.
  - `text`, `id_map`, `key_map`, `clock`, `handles` and `http` are the ground
    that the rest stands on.
  - A module's `model` says mathematically what each operation makes of the
    state; its `laws` state and prove what holds across operations.
- `tests/` runs the library on concrete values.
- `app/` is the program: command line, HTTP and WebSocket server, the snapshot
  file, the message rate limit of a connection, and the JSON forms of messages
  and snapshots.

What the proofs rest on without proving it is what a few outside functions do
(base64, SHA-256, constant-time comparison, parsing of addresses and networks,
rate limiting, random numbers, and the handles of queues and tokens).
Each stands behind one small function or declaration with a doc comment that
says what is relied on.

## Running

Every flag has an environment variable.

| Flag | Variable | Default |
| --- | --- | --- |
| `--addr` | `ADDR` | unset; a full `host:port`, which goes before the port |
| `--port` | `PORT` | `8080`, on every address |
| `--log-dir` | `LOG_DIR` | `/data/logs`; logs are kept in memory for now |
| `--state-file` | `STATE_FILE` | `/data/rooms.json` |
| `--trusted-proxy-cidrs` | `TRUSTED_PROXY_CIDRS` | empty: no proxy is trusted |

The relay serves `GET /relay` (WebSocket), `POST /logs`, `GET /logs/:id` and
`GET /health`. `RUST_LOG` sets what it logs.

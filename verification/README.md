# pentairservice

Owner of a Pentair pool controller's RS-485 bus. It keeps one connection to the
bus, cuts the byte stream into frames, decodes them into a status, journals them,
and lets at most one write at a time through. A local HTTP API serves the status
and takes commands.

The library under `src/` is written in Verus: every function states what it does,
and Verus proves that it does so. `app/` holds sockets, serial ports, files, the
environment, logging and HTTP.

| Module | Role |
|--------|------|
| `framer` | A5 and IntelliChlor frames out of a byte stream; hexadecimal dumps |
| `messages`, `registry` | Decoding of status frames |
| `state` | Latest status, and a ring of recent frames |
| `journal` | Append-only journal of frames: lines, retention, replay |
| `commands` | Building and reading circuit and heat changes |
| `write` | The write gate: one write in flight, and the verdict on the answer |
| `transport` | Endpoints, reconnect delays, recordings, and the actor that owns the bus |
| `config` | Defaults, settings file, environment |
| `api` | Answers of the HTTP API |
| `text`, `time` | Text and durations |

Laws that relate several functions are public proof functions named `law_..`,
such as `framer::law_any_chunks` (how the bytes are cut into reads does not
matter) and `journal::law_journal_replays_frames` (what was appended is read
back).

## Settings

| Source | Keys |
|--------|------|
| Environment | `PENTAIR_BIND_ADDR`, `PENTAIR_TRANSPORT_URL`, `PENTAIR_LOG_LEVEL`, `PENTAIR_CONFIG` |
| TOML | `bind_addr`, `transport_url`, `log_level` |

The environment wins over the file, the file over the defaults: bind
`0.0.0.0:8080`, no transport. Without a transport the service idles and serves the
API.

| Transport | Backend |
|-----------|---------|
| `tcp://host:port` | TCP bridge |
| `/dev/ttyUSB0`, `serial:/dev/ttyUSB0?baud=9600` | Serial port |
| `replay:path` | Recorded hexadecimal dump |

# crane-wyoming

Self-hosted voice services over the [Wyoming](https://github.com/rhasspy/wyoming)
protocol, which Home Assistant uses to talk to local voice services: a server
for TTS and ASR models, a command-line client, and a speech-dispatcher output
module. Messages are a JSON header, optionally followed by data and a raw binary
payload, over a TCP or Unix domain socket connection.

The library is written in Verus: what each function returns is stated in its
contract and proved.

## Layout

| Path | Content |
|------|---------|
| `src/json.rs`, `src/event.rs`, `src/wire.rs`, `src/error.rs` | JSON values, events, their wire format and its errors |
| `src/header.rs`, `src/schema.rs` | why a header or an event's data is refused |
| `src/engine/` | model types, discovery and selection; the loaded models and the requests to them |
| `src/handler/` | a connection event by event; answering `synthesize`, `transcribe` and `describe` |
| `src/client.rs` | the client's side of a connection |
| `src/server.rs` | starting the server |
| `src/say.rs` | `cw-say`, the command-line client |
| `src/speechd/` | `sd_crane_wyoming`, the speech-dispatcher module |
| `src/text.rs`, `src/table.rs`, `src/bytes.rs` | text, tables by name, bytes |
| `app/` | sockets, files, threads and command lines around the library |

What is trusted rather than proved: serde_json reads and writes JSON, skips what
it is not asked for and words its errors (`src/json.rs`), and the standard library reads UTF-8
and appends to strings (`src/text.rs`).

## The three programs

One executable serves all three, by the name that it is called under:
`crane-wyoming` (any other name, too), `cw-say` and `sd_crane_wyoming`.

The models run in the Crane inference engine, whose crates are not published.
`app/crane_backend.rs` is compiled with `--cfg crane` where they are at hand;
without them the server lists models but loads none.

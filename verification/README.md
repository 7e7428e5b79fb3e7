# ShellWhisper server library

The logic of a small TCP chat server and its terminal client, verified with
Verus.

- `src/handles/message.rs` — message types and the text frame
  `0x{type:02x} | {content}` that carries a message: encoding, decoding of a
  received buffer, and the proof that a written frame reads back.
- `src/handles/connection_handles.rs` — the protocol of one connection as a
  state machine (`Session::step`): admission, the alias handshake, chat and
  departure, with the notices sent to the UI.
- `src/server_state.rs` — the connections, aliases and connection ids.
- `src/ui/` — the terminal UI state: keys, server notices, screen texts.
- `src/client.rs` — the lines the client sends and how it reads replies.
- `src/text.rs` — trimming, decimal formatting and parsing, and the
  standard-library text conversions the codec uses.
- `app/` — the programs around the library: sockets, the PostgreSQL
  database (sqlx), the ratatui terminal and the tokio event loops. Run with
  `client` as first argument for the client.

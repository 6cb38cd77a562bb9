# COSMIC Chat

A desktop IRC client for the COSMIC desktop, with its chat logic written as a
Verus library and proved against its contracts.

## Layout

- `src/` — the verified library (`cosmic_chat`):
  - `irc_client.rs`: the messages exchanged with the connection tasks, and
    how an incoming protocol message becomes a chat line (`parse_message`);
    the clock used to stamp lines.
  - `chat.rs`: the window's model (`ChatModel`) and its reaction to every
    `Message` (`update`), including slash commands; outside work comes back
    as a list of `Effect`s.
  - `display.rs`: what the window shows, computed from the model (the
    navigation list, the header status, the server page and drawer, the
    lines of a channel).
  - `pipe.rs`: the line-based pipe mode, as a step function from the
    session and one input line to the next session and the actions to carry
    out (print, connect, send, stop).
  - `config.rs`: the saved server list and where it is stored.
  - `text.rs`, `order.rs`, `table.rs`: string handling, the order of
    strings, and per-channel records, each specified over `Seq`/`Map`.
  - `laws.rs`: properties that span several operations, as proof functions.
- `tests/` — tests on concrete values.
- `app/` — the program: window (libcosmic), network (irc + tokio),
  configuration file (serde + toml), and the pipe-mode loop that carries
  out what `pipe_step` decides.

Verify with Verus; the tests run with `cargo test`.

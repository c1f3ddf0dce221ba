# knowls

The verified core of a knowledge-aware language server: documents come as tokens (comments,
code blocks; the lexer that makes them is not part of this crate), comments can hold *interacts* (`@_ prompt`, `+a`, `%`) that address
agents or the database, and edits are tracked by diffing token sequences along a common
subsequence found by walking back through the table of longest common subsequences.

Layout:

- `src/` — the library, verified with Verus.
  - `subseq.rs`, `diff.rs`: subsequences and their longest length, the dynamic-programming
    table, the walk back through it, the edit script and the laws about it (the script is
    empty exactly for equal inputs, and it patches the old sequence into the new one).
  - `tokens.rs`, `position.rs`, `text.rs`: tokens, positions and ranges, whitespace and trimming.
  - `interact.rs`, `interact/`: parsing interacts out of comments and strings.
  - `knowledge.rs`: what an edit of a document touches, and the diagnostics to publish.
  - `agent_updates.rs`: which agents get which changed block after an edit.
  - `agents.rs`, `uri.rs`, `cli.rs`: agent identifiers and the command line's choice of agent.
  - `config.rs`, `database.rs`, `blocks.rs`: configuration with defaults, whether and how the
    local database is started, and documents cut into stored blocks.
  - `packet.rs`, `rpc.rs`, `connection.rs`, `relay.rs`: length-prefixed frames, the relay's
    messages and request handling, the decisions of the server's per-connection loop (answer,
    flush, read, idle timeout) and of the editor relay's two sides.
  - `ui.rs`, `ui/`: focus and key handling of the terminal interface, the chat input line and
    the database panel.
- `tests/` — tests run against the compiled library.
- `app/` — the unverified edge: LSP type conversions, configuration files (TOML), framed JSON
  on async streams, the connection runner and the server side of the relay, the database
  process, taking in a new version of a document, the command line (clap) and socket files.

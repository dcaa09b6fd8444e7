# traitbot

TraitBot is a Discord helper bot for a programming server. This crate is its
core, verified with Verus; `app/` is the bot itself (Discord gateway, HTTP
calls to the chat service, files, timers), which only carries out what the
library decides.

- `src/text.rs` — trimming, splitting into words, joining, searching,
  replacing and case-insensitive comparison of text, each proved against a
  specification over character sequences.
- `src/memory.rs` — per-user rate limiting of questions to the AI and the
  per-channel question/answer history, with its JSON persistence.
- `src/moderation.rs` — which text of a message a moderation model is asked
  about and what its reply decides.
- `src/ai.rs` — building a chat request from a channel's history, reading the
  reply, and splitting long answers into messages.
- `src/commands.rs` — recognising commands and the texts the bot answers.
- `src/call.rs`, `src/channels.rs`, `src/ticket.rs` — support-call watching,
  the help-channel introduction, and ticket channels.

# tinyguardian

The decision logic of the TinyGuardian Discord bot, verified with Verus.

- `src/` — the library: guild settings read from BSON documents and the
  defaults every guild gets (`document`), staff checks and member lookup by
  query (`util`), ScriptingHelpers rank synchronisation (`shmanager`), the
  text and embeds that the commands answer with (`commands`, `embed`),
  decisions on gateway events (`events`), and the character-level helpers
  they share (`text`).
- `app/` — the bot itself: the Discord client, MongoDB, Redis, HTTP lookups
  and the Lua evaluator, calling the library for every decision.
- `tests/` — tests of the library on concrete values.

# lettuce_core

The verified core of a companion chat client: the decisions it makes about prompts,
provider requests, media, memory history and backups, with their contracts proved by Verus.

- `src/` — the library:
  - `chat/` — calendar context, response-length and speech-expression prompting, provider
    request adaptation (Responses API, Moonshot, custom Responses endpoints, provider-run
    tools), image upload planning for the Volcengine Ark Files API (endpoints, upload status,
    message rewriting), model image preparation, tool calls found in Responses replies,
    attachment persistence decisions and emotion extraction.
  - `storage/` — memory history rewinding, shared companion memory, imported-memory jobs,
    exported chat media and backup planning.
  - `asr/`, `tts/` — speech model catalog, request checks and WAV decoding decisions, speech
    audio cache keys, cache metadata and usage records.
  - `eviction.rs` — which cached files go first when a cache is over its limit.
  - `json.rs`, `text.rs`, `reasoning.rs` — JSON documents, text utilities and the reasoning
    switch shared by the modules above.
- `tests/` — scenario tests of the library.
- `app/` — database, file and HTTP access, JSON conversion and floating-point work around
  the library.

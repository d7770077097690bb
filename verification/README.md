# toaster

The core of Toaster, a chat client for OpenAI-compatible models, written in
Verus and proved against its contracts.

- `src/` — the verified library: sessions and their messages, the request
  messages they are sent as, the bookkeeping of a running inference (lock,
  streamed reply), session previews, splitting a reply into reasoning and
  answer, language tags, voice selection, JWT expiry, the stores' caching and
  notification rules, file paths, the confirmation dialog and toast queue,
  where a finished page navigates, and small text utilities.
- `tests/` — tests of the library on concrete values.
- `app/` — a command-line program around the library: the stores on disk
  (`opendal`, CBOR and JSON files), the chat-completion client
  and model listing (`async-openai-wasm`) and the waiting loops.

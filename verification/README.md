# Icebreaker

A local chat assistant: it downloads and runs `llama-server` with a GGUF
model, chats with it, and can answer by first designing a plan (web
searches, page scraping, summaries) and running it.

- `src/` is the verified library, written in Verus: the stream framing of
  chat completions and how tokens become replies, the plan runner and its
  step references, search-result and page-text extraction, the chat file
  format and its round trip, the list of saved chats, themes and settings,
  model listings, and the screens (application, model search,
  conversation) as state machines from message to next state and action.
- `tests/` exercises the library on concrete values.
- `app/` is a terminal front end that runs the conversation's state
  machine and performs what it asks for: the network, disk and process
  work (HTTP, files, `llama-server`), JSON and TOML documents, and the
  floating-point display of download progress.

# lasada

An AI agent interpreter: it chats with a language model, lets the model call tools
(bash, Python, web search, GUI automation), runs them with the user's approval (or
automatically), and feeds the results back.

## Layout

- `src/` — the verified library (Verus):
  - `chat.rs`: the conversation state and every decision of a chat exchange, as a
    state machine from (state, event) to (state, action); `chat_laws.rs` proves what
    every step keeps (turn limit, approval, tool replies in order, session saves).
  - `context.rs`: token budget and history compaction (token counts from tiktoken).
  - `prompt.rs`: system prompt, runtime description, `@file` mentions, recalled
    memory excerpts, session report.
  - `tools.rs`, `dispatch.rs`: the offered tools, what a tool call asks to run, and
    which executor runs it.
  - `shell.rs`, `computer.rs`, `web.rs`: framing and reading of shell sessions, GUI
    scripts, search URLs, result pages and page text (HTML selection by scraper).
  - `llm.rs`: the scripted model, request variants, event-stream framing and the
    assembly of streamed tool-call fragments.
  - `ranking.rs`: ranking of recalled memory entries.
  - `text.rs`, `types.rs`, `cli.rs`: text handling, shared values, input handling.
- `app/` — the program around it: command line, configuration, terminal, processes,
  HTTP, JSON and embeddings.
- `tests/` — tests of the library on concrete values.

# Pantheon

Ao, a personal AI assistant in the terminal, with sessions that persist and
summaries of earlier sessions carried into each prompt.

The library under `src/` is verified with Verus:

- `text` — word and line counts, the token estimate (`f32` arithmetic done
  exactly in integers), trimming, UTF-8 offsets, line splitting.
- `time` — `Timestamp`, an instant that chrono can represent.
- `session` — messages, sessions, summaries; the session manager's steps
  (start, resume, add, clear, the two halves of ending a session) and the
  choice of earlier summaries within the token budget.
- `agent` — the prompt sent to the model.
- `tui` — the chat screen's state: input line and cursor, scrolling,
  wrapping and laying out messages.
- `chat` — what each key press does to the screen and the session.
- `identity`, `config`, `cli` — soul and identity texts, settings, commands.

`app/` is the program around it: configuration file, SQLite store, HTTP
calls to the model, terminal drawing and the event loop.

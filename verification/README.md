# codex_session_manager

A desktop browser for recorded Codex CLI sessions: it reads the JSONL
transcripts under `~/.codex/sessions`, lists them newest first, searches them,
previews their opening messages and launches `codex resume <id>` in a new
terminal.

- `src/` is the verified library (Verus): text handling (`text`), titles
  (`title`), message roles (`role`), the JSON model (`json`), instants
  (`time`), the line-by-line transcript reader (`scan`), sessions and their
  search and ordering (`session`), and the browser's state and resume
  requests (`browser`).
- `app/` is the window (gpui), the directory walk, file reading and the
  terminal launch, all driven by the library.
- `tests/` exercises the library on concrete transcripts and states.

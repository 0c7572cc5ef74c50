# everyfile

The rules and decisions of EveryFile, a local-first document search tool for
Windows, written in Verus and proved against their contracts.

- `src/` — the verified library. Each module states what its functions return
  over mathematical models (`Seq`, `Map`, spec functions) and proves it:
  search query parsing and the SQL a search becomes (`query`, `search`,
  `search_sql`, `search_registry`), folder discovery and registration
  (`discovery`, `folders`, `paths`), the indexing pipeline (`indexing`,
  `pipeline`, `ocr`, `parsing`), the file watcher and its debounce loop
  (`watcher`, `debounce`), previews and the document library (`preview`,
  `library`, `pdf_read`, `source_open`), diagnostics, the redaction of registered
  roots and the application data reset (`diagnostics`, `redaction`; the
  reset worker's attempt and its durable record writes are state machines in
  `reset_attempt` and `reset_write`), settings, statistics, export, and the optional
  AI assistant (`ai`, `ai_stream`, `retrieval`).
- `tests/` — tests that run the library on concrete inputs.
- `app/` — a small command-line front end: file-system walks, log files,
  workbook export, and reading JSON, all around the library's decisions.

Where a decision needs the outside world (a file's metadata, a process, the
network, the clock), the library takes what was observed as an argument, or
a state machine asks for the work and is told how it went.

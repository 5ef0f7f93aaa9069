# ous

Ous is a small personal cognitive OS: it captures notes and packets into a JSON
journal, classifies them with a local model, keeps a map of work projects, and
consolidates the journal into daily notes, a minor-league archive, a melatonin
staging report and MEMORY.md.

- `src/` is the library, verified with Verus. Its functions on plain values,
  each with a contract, decide which journal lines count as entries, the entries
  Ous builds, the daily note, the pruning rule, the melatonin report, the dream
  prompt and how approved proposals change MEMORY.md, the packet plans and what
  they lead to once the user has answered and the append has (or has not)
  succeeded, the guided-note entries and their fallback, the model routing, the
  bus listeners' parsing, the dashboard routes, the status file, the Lytho
  watcher and the nightly scheduler. Laws that span calls are public proof
  functions.
- `app/` is the program around it: the tokio runtime and tasks, files, the
  terminal (asking the user and reading the answers), parsing JSON into values,
  the HTTP dashboard, requests to Ollama, the CPU sensor and the global
  workspace (which weighs bids with floating-point strengths).
- `tests/` runs the library on concrete values.

# torot

A security-scan orchestrator: it finds installed scanners (nmap, nuclei,
semgrep, gitleaks and more), runs them against a target, turns their output
into severity-ranked, deduplicated findings, and writes a Markdown report.

The library under `src/` is written in Verus. Its functions carry contracts
that Verus proves, except a small set of wrappers around outside calls (the
clock, the file system and search path, JSON parsing, identifiers, case conversion
and appending a character), whose contracts state what those calls are documented to do
and are trusted:

- `text` — character-sequence models of the string operations used
  throughout (trimming, splitting, lines, replacing, decimal rendering).
- `json` — the JSON value model that the parsers read.
- `base` — findings and configuration, the built-in tool table and its merge
  with stored settings, tool arguments and target kinds, output parsers,
  summaries and reports, the scan pipeline's decisions, and the command line.
- `swarm` — circuit breakers, the dependency-wave planner, and the
  coordinator that decides each step of a swarm run.
- `tui` — the terminal interface's screens and its key/event state machine.
- `util` — formatting, time stamps and home-directory paths.

`app/` is the program around it: the database, files, processes, the event
channel, and drawing the terminal interface.

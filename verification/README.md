# icskit

An iCalendar (RFC 5545) toolkit whose logic is specified and proved with
Verus: reading and writing `.ics` text, calendar queries, lint rules, the
decisions of a command-line editor and the state machines of a terminal
calendar viewer.

## Layout

- `src/` — the verified library.
  - text layer: `text`, `number`, `escape`, `unfold`, `line`, `raw`
  - model: `date`, `event`, `vcalendar`, `profile` (vendor extensions)
  - reading and writing: `parser`, `calendar`, with the proofs that the
    reader gives back what the writer wrote in `roundtrip` (single lines
    and kept components) and `document_roundtrip` (whole calendars)
  - `query`: sorting, removal and date-range selection
  - `lint`: the walker, the rules, the reporters and the exit codes
  - `cli`: the decisions of the `icscli` commands
  - `tui`: key map, screens, their texts, and the decisions of the
    session loop
- `tests/` — tests run against the compiled library.
- `app/` — the three programs (`icscli`, `icslint`, `lazyics`, chosen by
  the name the binary is run under): argument parsing, files, terminal
  drawing and serialization.

Dates go through `chrono` and fresh UIDs through `uuid`; those calls stand
behind small trusted wrappers whose contracts state what the crates
document.

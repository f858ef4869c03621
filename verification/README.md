# warrant

Close-claim corpus classifier and warrant checker, verified with Verus.

A PRD closed with "outcome achieved live by a different mechanism" retires a
finding; `warrant` classifies such closing notes, pairs them with assertions
from a registry (`warrants.toml`), turns what was observed on the machine into
verdicts, and decides which refuted closes to report to the docket ledger
(edge-triggered, with auto-close).

## Layout

- `src/` — the verified library.
  - `text` — lines, trimming, substring search, decimal rendering over `Seq<char>`.
  - `model` — claims, kinds, tallies, assertions, verdicts, with their views.
  - `source` — raw notes, the `CloseSource` trait, `FakeSource`.
  - `classifier` — `classify_one` / `classify` and the classification laws.
  - `paths` — file name and stem of a path held as text.
  - `archive` — which archive files are closed PRDs, sorted by path.
  - `registry` — registry entries, case-insensitive lookup, command safety check.
  - `runner` — verdicts from observations, the audit pass and its laws.
  - `docket` — the sink trait, the recording sink, the reported state.
  - `reporter` — reopen / auto-close decisions and the edge-trigger laws.
- `tests/` — tests run against the compiled library.
- `app/` — the `warrant` command: argument parsing, files, commands, JSON/TOML.

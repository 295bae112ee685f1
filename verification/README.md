# crude

A web-crawling workflow engine whose logic is proved with Verus.

A workflow is a sequence of handlers: browser actions, extractions over a
page snapshot, containers that repeat extraction steps for every element a
selector matches (its actions performed within each element, its
extractions read from that element), and sub-sequences that run once per
container row.

## Layout

- `src/` — the verified library.
  - `workflow`: the handler model and bound parameters.
  - `page`: page snapshots and CSS queries (through `scraper`), extractions.
  - `action`: one action as browser commands and decisions on the replies.
  - `runner`: a run of a sequence as a state machine fed with replies.
  - `keys`, `test_input`: the binding keys a sequence reads and test values.
  - `editor`, `palette`, `studio`, `display`: the editing model of the studio.
  - `sequence_file`: files of main and sub-sequences.
  - `server`: the browser runner's JSON protocol: what each line read
    (parsed with `serde_json`) is answered or asks for.
  - `browser`: Chrome options and choosing a matching ChromeDriver.
  - `map`, `text`: an insertion-ordered string map and text helpers.
- `tests/` — tests of the library.
- `app/` — the browser runner program: TCP server, WebDriver session
  (`thirtyfour`), ChromeDriver download, JSON (de)serialisation.

## Checking

`verus` on `src/lib.rs` proves the library; the tests run with the outside
crates linked.

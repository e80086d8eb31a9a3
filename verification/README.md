# trench

A research-feed reader: it fetches papers and posts from arXiv, Hugging Face
daily papers, CORE, Semantic Scholar and RSS/Atom feeds, merges them into one
feed, and keeps a reading workflow (inbox, queued, read, archived), tags and a
history of opened papers and discovery queries.

## Layout

- `src/` — the library, verified with Verus.  It holds the feed parsers
  (RSS/Atom, the arXiv API, the Hugging Face page), the merging of fetched
  items into the feed, the filters and views, tags, history, the discovery
  plan and palette, the panes and the key and mouse handling of the feed
  view (search bar, library tab, history tab, sources popup), the scrolling
  of the item table, details panel, sources popup and theme picker, and the
  syntax highlighting of repository files, each with its contract.  Calls
  into `quick-xml`, `regex`, `serde_json`, `chrono`, `syntect` and std stand
  behind small trusted wrappers whose contracts say what those crates
  document.
- `app/` — a command-line front end: network requests, files on disk, the
  clock, and the serde copies of the library's types; `repo` prints code
  files in the highlighter's colours.
- `tests/` — tests of the library.

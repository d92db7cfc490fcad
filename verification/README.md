# synap

Synap keeps an append-only ledger of short notes ("thoughts") that link to
each other by replies and edits, and synchronises two ledgers peer to peer.

This crate is written in Verus: the functions under `src/` carry contracts
that Verus proves. Four small wrappers around the `uuid` and `colored`
crates (`ids::uuid_string`, `ids::uuid_timestamp`, `cli::parse_uuid`,
`cli::paint_green`) are trusted: their contracts state what those crates'
sources show, and Verus takes them without proof. The `SyncChannel` trait is
implemented by front ends; its one promise (a read gives the length asked
for) is trusted of every implementation.

- `src/text.rs`: hashtag extraction, white-space splitting and trimming,
  short-id prefix checks.
- `src/cli.rs`, `src/completions.rs`: the decisions of the command line
  (bare-argument modes, `sync` and `search` arguments, id parsing, previews,
  tag and graph layout, editor choice, shell detection and completion paths).
- `src/revision.rs`: how the branch, commit, short commit and tag of a
  checkout are settled from what `git` prints and from the repository's
  files. The crate is built without a build script, so `version::build_info`
  reports these values as `unknown`; `src/version.rs` gives the version text.
- `src/views/`: a read snapshot of the ledger and the note/timeline views.
- `src/sync/`: the sync protocol: framing, record keys, the local archive,
  the turn-based session state machine, import planning, writing imported
  records into the ledger, and the laws of the exchange (each side ends with
  the keys of both, a second sync asks for nothing, importing twice changes
  nothing).
- `src/ids.rs`: UUID text and creation times, through the `uuid` crate.

`app/` is the command line program around the library: argument parsing
(clap), terminal output, the ledger file, and the TCP transport of a sync.

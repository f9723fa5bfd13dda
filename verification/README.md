# bgp_livemap

The verified core of a real-time BGP collector: it classifies route updates from RIS
Live and RouteViews per prefix (bogons, hijacks, route leaks, outages, flaps, path
hunting, DDoS mitigation, discovery of new prefixes) and keeps the counters and rolling
windows that the live map shows.

Layout:

- `src/` — the library, verified with Verus.
  - `types.rs` — classifications, leak kinds, events, update contexts.
  - `stats.rs` — message counters over a one-minute ring of per-second buckets.
  - `text.rs` — whitespace words, AS path parsing, blackhole communities.
  - `prefix.rs`, `disk_trie.rs` — prefixes, masks, storage keys and the on-disk
    longest-prefix-match store of origins seen before.
  - `prefix_state.rs`, `aggregate.rs` — the state kept per prefix and its recent totals.
  - `decide.rs` — the classification rules and the incident bookkeeping.
  - `step.rs` — one update applied to a prefix's state, with the event and the store
    writes it yields.
  - `lookup.rs` — ranks, names, siblings and RPKI verdicts from `bgpkit_commons`.
  - `classifier.rs` — the sharded least-recently-used state caches and the entry points
    for updates and the outage timer.
  - `ingest.rs` — decoding of feed messages with `bgpkit_parser` into classifier input.
  - `rolling.rs`, `reach.rs` — rolling windows of incident events, their reach, and
    beacon prefixes.
  - `summary.rs`, `coverage.rs` — per-classification summaries, IPv4 address coverage
    of merged prefixes and RPKI coverage (valid, invalid, not found; IPv4 addresses and
    IPv6 prefixes).
  - `pacing.rs` — reconnection backoff, alert de-duplication windows and the data-set
    refresh schedule.
  - `laws.rs` — properties of the rules that hold for all inputs.
- `tests/` — tests of the library.
- `app/` — the collector program: feed connections, geolocation, the SQLite store,
  checkpoints, rate statistics and alert logging.

Not in this crate:

- the gRPC service (live map streams, summaries, alert and transition streams) and the
  indexer that reads it: their protocol definitions are not part of the sources;
- a store of recorded alerts: alerts are logged with their de-duplication key.

//! Verified core of a real-time BGP update classifier: routing-event classification,
//! per-prefix state, prefix keys for longest-prefix-match storage, rolling windows and
//! message-rate counters.
pub mod stats;
pub mod types;
pub mod text;
pub mod prefix;
pub mod disk_trie;
pub mod prefix_state;
pub mod aggregate;
pub mod decide;
pub mod step;
pub mod lookup;
pub mod classifier;
pub mod rolling;
pub mod laws;
pub mod ingest;
pub mod reach;
pub mod summary;
pub mod coverage;
pub mod pacing;

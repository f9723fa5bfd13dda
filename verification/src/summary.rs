//! Per-classification summaries of the message counters and the store's totals.
use vstd::prelude::*;
use crate::stats::{CumulativeStats, cleanup_defined, cleaned_last, cleaned_ring, prefix_sum, wrap64, clamp};
use crate::types::{ClassificationType, ClassificationStats};

verus! {

/// The store totals a classification's summary reads: discovery shows the unclassified
/// prefixes, every other classification its own.
pub open spec fn summary_key_of(c: ClassificationType) -> ClassificationType {
    if c == ClassificationType::Discovery {
        ClassificationType::Unclassified
    } else {
        c
    }
}

/// The classification whose store totals the summary of `c` shows (see
/// [`summary_key_of`]).
pub fn summary_key(c: ClassificationType) -> (r: ClassificationType)
    ensures
        r == summary_key_of(c),
{
    if c == ClassificationType::Discovery {
        ClassificationType::Unclassified
    } else {
        c
    }
}

/// What the summary shows of one classification.
pub struct ClassSummary {
    pub classification: ClassificationType,
    /// Messages counted over the last minute (the low 32 bits of the total).
    pub count: u32,
    /// The current rate as messages and seconds to divide by (none: rate zero).
    pub rate: Option<(u64, i64)>,
    pub asn_count: u32,
    pub prefix_count: u32,
    pub ipv4_prefix_count: u32,
    pub ipv6_prefix_count: u32,
    /// Addresses covered: the aggregated count when there is one, else 256 per IPv4
    /// prefix.
    pub ipv4_count: u64,
    /// Messages counted since the counter started.
    pub total_count: u64,
}

/// The summary of `class`: its counter advanced to `now` (rate since `start_ts`), the
/// store totals `db` of its summary key, and the aggregated address count when known.
pub fn class_summary(
    class: ClassificationType,
    stats: &mut CumulativeStats,
    now: i64,
    start_ts: i64,
    db: Option<&ClassificationStats>,
    aggregated_ipv4: Option<u64>,
) -> (r: ClassSummary)
    requires
        old(stats).wf(),
        cleanup_defined(old(stats).last_bucket_ts, now),
        i64::MIN <= now - cleaned_last(old(stats).last_bucket_ts, now) <= i64::MAX,
        i64::MIN <= now - start_ts <= i64::MAX,
    ensures
        final(stats).wf(),
        final(stats).msg_count == old(stats).msg_count,
        final(stats).last_bucket_ts == cleaned_last(old(stats).last_bucket_ts, now),
        final(stats).rate_buckets@ == cleaned_ring(
            old(stats).rate_buckets@,
            old(stats).last_bucket_ts,
            now,
        ),
        r.classification == class,
        r.count == (wrap64(prefix_sum(final(stats).rate_buckets@, 60)) % 0x1_0000_0000) as u32,
        now - final(stats).last_bucket_ts >= 60 ==> r.rate is None,
        now - final(stats).last_bucket_ts < 60 ==> r.rate == Some(
            (
                wrap64(prefix_sum(final(stats).rate_buckets@, 60)) as u64,
                clamp(now - start_ts, 1, 60) as i64,
            ),
        ),
        r.total_count == old(stats).msg_count,
        match db {
            Some(s) => {
                &&& r.prefix_count == s.total_prefixes
                &&& r.asn_count == s.asn_count
                &&& r.ipv4_prefix_count == s.ipv4_prefixes
                &&& r.ipv6_prefix_count == s.ipv6_prefixes
            },
            None => r.prefix_count == 0 && r.asn_count == 0 && r.ipv4_prefix_count == 0
                && r.ipv6_prefix_count == 0,
        },
        r.ipv4_count == match aggregated_ipv4 {
            Some(n) if n != 0 => n as int,
            _ => r.ipv4_prefix_count * 256,
        },
{
    let rate = stats.get_current_rate_parts(now, start_ts);
    let mut total: u64 = 0;
    let mut i: usize = 0;
    while i < 60
        invariant
            0 <= i <= 60,
            stats.rate_buckets@.len() == 60,
            total as int == wrap64(prefix_sum(stats.rate_buckets@, i as int)),
        decreases 60 - i,
    {
        let add = stats.rate_buckets[i];
        proof {
            let s = prefix_sum(stats.rate_buckets@, i as int);
            vstd::arithmetic::div_mod::lemma_add_mod_noop(s, add as int, 0x1_0000_0000_0000_0000);
            vstd::arithmetic::div_mod::lemma_mod_twice(s, 0x1_0000_0000_0000_0000);
            vstd::arithmetic::div_mod::lemma_small_mod(add as nat, 0x1_0000_0000_0000_0000);
        }
        total = total.wrapping_add(add);
        i = i + 1;
    }
    let count: u32 = (total % 0x1_0000_0000) as u32;
    let (prefix_count, asn_count, ipv4_prefix_count, ipv6_prefix_count) = match db {
        Some(s) => (s.total_prefixes, s.asn_count, s.ipv4_prefixes, s.ipv6_prefixes),
        None => (0, 0, 0, 0),
    };
    let ipv4_count: u64 = match aggregated_ipv4 {
        Some(n) if n != 0 => n,
        _ => ipv4_prefix_count as u64 * 256,
    };
    ClassSummary {
        classification: class,
        count,
        rate,
        asn_count,
        prefix_count,
        ipv4_prefix_count,
        ipv6_prefix_count,
        ipv4_count,
        total_count: stats.msg_count,
    }
}

} // verus!

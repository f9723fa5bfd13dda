//! Classification kinds and the records that the classifier reads and emits.
use vstd::prelude::*;

verus! {

/// The kind of routing event a prefix is classified as.
#[derive(Debug, Clone, Copy, PartialEq, Eq, Hash, Structural)]
pub enum ClassificationType {
    Unclassified,
    Bogon,
    Hijack,
    RouteLeak,
    MinorRouteLeak,
    Outage,
    DDoSMitigation,
    Flap,
    PathHunting,
    Discovery,
}

/// The wire number of each classification kind.
pub open spec fn classification_code(c: ClassificationType) -> i32 {
    match c {
        ClassificationType::Unclassified => 0,
        ClassificationType::Bogon => 1,
        ClassificationType::Hijack => 2,
        ClassificationType::RouteLeak => 3,
        ClassificationType::MinorRouteLeak => 10,
        ClassificationType::Outage => 4,
        ClassificationType::DDoSMitigation => 5,
        ClassificationType::Flap => 6,
        ClassificationType::PathHunting => 8,
        ClassificationType::Discovery => 9,
    }
}

/// The kind a wire number denotes; unknown numbers denote `Unclassified`.
pub open spec fn classification_of_code(v: i32) -> ClassificationType {
    if v == 1 {
        ClassificationType::Bogon
    } else if v == 2 {
        ClassificationType::Hijack
    } else if v == 3 {
        ClassificationType::RouteLeak
    } else if v == 10 {
        ClassificationType::MinorRouteLeak
    } else if v == 4 {
        ClassificationType::Outage
    } else if v == 5 {
        ClassificationType::DDoSMitigation
    } else if v == 6 {
        ClassificationType::Flap
    } else if v == 8 {
        ClassificationType::PathHunting
    } else if v == 9 {
        ClassificationType::Discovery
    } else {
        ClassificationType::Unclassified
    }
}

impl ClassificationType {
    /// The kind with wire number `val`; any other number gives `Unclassified`.
    pub fn from_i32(val: i32) -> (r: Self)
        ensures
            r == classification_of_code(val),
    {
        match val {
            1 => ClassificationType::Bogon,
            2 => ClassificationType::Hijack,
            3 => ClassificationType::RouteLeak,
            10 => ClassificationType::MinorRouteLeak,
            4 => ClassificationType::Outage,
            5 => ClassificationType::DDoSMitigation,
            6 => ClassificationType::Flap,
            8 => ClassificationType::PathHunting,
            9 => ClassificationType::Discovery,
            _ => ClassificationType::Unclassified,
        }
    }

    /// The wire number of this kind.
    pub fn as_i32(&self) -> (r: i32)
        ensures
            r == classification_code(*self),
    {
        match self {
            ClassificationType::Unclassified => 0,
            ClassificationType::Bogon => 1,
            ClassificationType::Hijack => 2,
            ClassificationType::RouteLeak => 3,
            ClassificationType::MinorRouteLeak => 10,
            ClassificationType::Outage => 4,
            ClassificationType::DDoSMitigation => 5,
            ClassificationType::Flap => 6,
            ClassificationType::PathHunting => 8,
            ClassificationType::Discovery => 9,
        }
    }
}

/// Every kind survives the trip through its wire number.
pub proof fn law_classification_code_round_trip(c: ClassificationType)
    ensures
        classification_of_code(classification_code(c)) == c,
{
}

/// The wire numbers in use are exactly those that name a kind, and they name it back.
pub proof fn law_classification_codes_named(v: i32)
    ensures
        (v == 0 || v == 1 || v == 2 || v == 3 || v == 4 || v == 5 || v == 6 || v == 8 || v == 9
            || v == 10) <==> classification_code(classification_of_code(v)) == v,
{
}

/// The kind of route leak found on an AS path.
#[derive(Debug, Clone, Copy, PartialEq, Eq, Hash, Structural)]
pub enum LeakType {
    NoLeak,
    ReOrigination,
    Hairpin,
    Lateral,
    Flowspec,
    RTBH,
    TrafficRedirection,
    ValleyFreeViolation,
}

/// The wire number of each leak kind.
pub open spec fn leak_code(l: LeakType) -> u32 {
    match l {
        LeakType::NoLeak => 0,
        LeakType::ReOrigination => 1,
        LeakType::Hairpin => 2,
        LeakType::Lateral => 3,
        LeakType::Flowspec => 4,
        LeakType::RTBH => 5,
        LeakType::TrafficRedirection => 6,
        LeakType::ValleyFreeViolation => 7,
    }
}

impl LeakType {
    /// The wire number of this leak kind.
    pub fn as_u32(&self) -> (r: u32)
        ensures
            r == leak_code(*self),
    {
        match self {
            LeakType::NoLeak => 0,
            LeakType::ReOrigination => 1,
            LeakType::Hairpin => 2,
            LeakType::Lateral => 3,
            LeakType::Flowspec => 4,
            LeakType::RTBH => 5,
            LeakType::TrafficRedirection => 6,
            LeakType::ValleyFreeViolation => 7,
        }
    }
}

/// Who leaked a route and whose route it was.
pub struct LeakDetail {
    pub leak_type: LeakType,
    pub leaker_asn: u32,
    pub victim_asn: u32,
    pub leaker_as_name: String,
    pub victim_as_name: String,
    pub leaker_rpki_status: i32,
    pub victim_rpki_status: i32,
}

impl LeakDetail {
    /// A field-for-field copy.
    pub fn copy(&self) -> (r: Self)
        ensures
            r == *self,
    {
        LeakDetail {
            leak_type: self.leak_type,
            leaker_asn: self.leaker_asn,
            victim_asn: self.victim_asn,
            leaker_as_name: self.leaker_as_name.clone(),
            victim_as_name: self.victim_as_name.clone(),
            leaker_rpki_status: self.leaker_rpki_status,
            victim_rpki_status: self.victim_rpki_status,
        }
    }
}

/// Counts that explain an outage or flap classification.
#[derive(Debug, Clone, Copy)]
pub struct AnomalyDetails {
    pub num_collectors: usize,
    pub num_peers: usize,
    pub num_withdrawals: u32,
    pub num_announcements: u32,
    pub flap_count: usize,
}

/// Update counters of one prefix for one minute.
#[derive(Debug, Clone, Copy)]
pub struct StatsBucket {
    pub announcements: u32,
    pub withdrawals: u32,
    pub total_messages: u32,
    pub path_changes: u32,
    pub community_changes: u32,
    pub next_hop_changes: u32,
    pub aggregator_changes: u32,
    pub med_changes: u32,
    pub local_pref_changes: u32,
    pub path_length_increases: u32,
    pub path_length_decreases: u32,
    pub flaps: u32,
}

/// A bucket with every counter at zero.
pub open spec fn empty_bucket() -> StatsBucket {
    StatsBucket {
        announcements: 0,
        withdrawals: 0,
        total_messages: 0,
        path_changes: 0,
        community_changes: 0,
        next_hop_changes: 0,
        aggregator_changes: 0,
        med_changes: 0,
        local_pref_changes: 0,
        path_length_increases: 0,
        path_length_decreases: 0,
        flaps: 0,
    }
}

impl Default for StatsBucket {
    fn default() -> (r: Self)
        ensures
            r == empty_bucket(),
    {
        StatsBucket {
            announcements: 0,
            withdrawals: 0,
            total_messages: 0,
            path_changes: 0,
            community_changes: 0,
            next_hop_changes: 0,
            aggregator_changes: 0,
            med_changes: 0,
            local_pref_changes: 0,
            path_length_increases: 0,
            path_length_decreases: 0,
            flaps: 0,
        }
    }
}

/// The last route attributes one collector session reported for a prefix.
pub struct LastAttrs {
    pub path: String,
    pub communities: String,
    pub next_hop: String,
    pub aggregator: String,
    pub last_path_len: i32,
    pub origin_asn: u32,
    pub med: Option<u32>,
    pub local_pref: Option<u32>,
    pub last_update_ts: i64,
    pub host: String,
    pub withdrawn: bool,
}

impl LastAttrs {
    /// A field-for-field copy.
    pub fn copy(&self) -> (r: Self)
        ensures
            r == *self,
    {
        LastAttrs {
            path: self.path.clone(),
            communities: self.communities.clone(),
            next_hop: self.next_hop.clone(),
            aggregator: self.aggregator.clone(),
            last_path_len: self.last_path_len,
            origin_asn: self.origin_asn,
            med: self.med,
            local_pref: self.local_pref,
            last_update_ts: self.last_update_ts,
            host: self.host.clone(),
            withdrawn: self.withdrawn,
        }
    }
}

/// One BGP update element as the classifier sees it.
pub struct MessageContext {
    pub now: i64,
    pub host: String,
    pub peer: String,
    pub is_withdrawal: bool,
    pub path_str: String,
    pub comm_str: String,
    pub origin_asn: u32,
    pub path_len: usize,
    pub source: String,
}

/// An event the classifier emits for a prefix. The coordinates are kept as the bit
/// patterns of the `f32` latitude and longitude.
pub struct PendingEvent {
    pub prefix: String,
    pub asn: u32,
    pub as_name: String,
    pub peer_ip: String,
    pub historical_asn: u32,
    pub timestamp: i64,
    pub classification_type: ClassificationType,
    pub old_classification: ClassificationType,
    pub incident_id: Option<String>,
    pub incident_start_time: i64,
    pub leak_detail: Option<LeakDetail>,
    pub anomaly_details: Option<AnomalyDetails>,
    pub source: String,
    pub lat_bits: u32,
    pub lon_bits: u32,
    pub city: Option<String>,
    pub country: Option<String>,
}

/// Per-classification database totals.
pub struct ClassificationStats {
    pub total_prefixes: u32,
    pub ipv4_prefixes: u32,
    pub ipv6_prefixes: u32,
    pub asn_count: u32,
}

impl ClassificationStats {
    /// Totals from the counts a query returned: IPv6 prefixes are those that are not IPv4.
    pub fn from_counts(total: u32, ipv4: u32, asns: u32) -> (r: Self)
        requires
            ipv4 <= total,
        ensures
            r.total_prefixes == total,
            r.ipv4_prefixes == ipv4,
            r.ipv6_prefixes == total - ipv4,
            r.asn_count == asns,
    {
        ClassificationStats {
            total_prefixes: total,
            ipv4_prefixes: ipv4,
            ipv6_prefixes: total - ipv4,
            asn_count: asns,
        }
    }
}

/// Database-wide totals.
pub struct GlobalCounts {
    pub asn_count: u32,
    pub prefix_count: u32,
    pub ipv4_prefix_count: u32,
    pub ipv6_prefix_count: u32,
}

impl GlobalCounts {
    /// All counts zero, as reported when the database cannot be read.
    pub fn zero() -> (r: Self)
        ensures
            r.asn_count == 0,
            r.prefix_count == 0,
            r.ipv4_prefix_count == 0,
            r.ipv6_prefix_count == 0,
    {
        GlobalCounts { asn_count: 0, prefix_count: 0, ipv4_prefix_count: 0, ipv6_prefix_count: 0 }
    }

    /// Totals from the counts the queries returned: IPv6 prefixes are those that are not IPv4.
    pub fn from_counts(asn_count: u32, prefix_count: u32, ipv4_prefix_count: u32) -> (r: Self)
        requires
            ipv4_prefix_count <= prefix_count,
        ensures
            r.asn_count == asn_count,
            r.prefix_count == prefix_count,
            r.ipv4_prefix_count == ipv4_prefix_count,
            r.ipv6_prefix_count == prefix_count - ipv4_prefix_count,
    {
        GlobalCounts {
            asn_count,
            prefix_count,
            ipv4_prefix_count,
            ipv6_prefix_count: prefix_count - ipv4_prefix_count,
        }
    }
}

/// A map cell and classification that events are counted under.
#[derive(Debug, Clone, Copy, PartialEq, Eq, Hash, Structural)]
pub struct AggregationKey {
    pub lat_q: i32,
    pub lon_q: i32,
    pub classification: ClassificationType,
}

/// The classification kinds of the service's wire protocol.
#[derive(Debug, Clone, Copy, PartialEq, Eq, Hash, Structural)]
pub enum ProtoClassification {
    Unspecified,
    Bogon,
    Hijack,
    RouteLeak,
    Outage,
    DdosMitigation,
    Flap,
    PathHunting,
    Discovery,
    MinorRouteLeak,
}

/// The wire kind of each classification kind.
pub open spec fn proto_of(c: ClassificationType) -> ProtoClassification {
    match c {
        ClassificationType::Unclassified => ProtoClassification::Unspecified,
        ClassificationType::Bogon => ProtoClassification::Bogon,
        ClassificationType::Hijack => ProtoClassification::Hijack,
        ClassificationType::RouteLeak => ProtoClassification::RouteLeak,
        ClassificationType::Outage => ProtoClassification::Outage,
        ClassificationType::DDoSMitigation => ProtoClassification::DdosMitigation,
        ClassificationType::Flap => ProtoClassification::Flap,
        ClassificationType::PathHunting => ProtoClassification::PathHunting,
        ClassificationType::Discovery => ProtoClassification::Discovery,
        ClassificationType::MinorRouteLeak => ProtoClassification::MinorRouteLeak,
    }
}

/// The wire kind of a classification kind.
pub fn map_classification(c: ClassificationType) -> (r: ProtoClassification)
    ensures
        r == proto_of(c),
{
    match c {
        ClassificationType::Unclassified => ProtoClassification::Unspecified,
        ClassificationType::Bogon => ProtoClassification::Bogon,
        ClassificationType::Hijack => ProtoClassification::Hijack,
        ClassificationType::RouteLeak => ProtoClassification::RouteLeak,
        ClassificationType::Outage => ProtoClassification::Outage,
        ClassificationType::DDoSMitigation => ProtoClassification::DdosMitigation,
        ClassificationType::Flap => ProtoClassification::Flap,
        ClassificationType::PathHunting => ProtoClassification::PathHunting,
        ClassificationType::Discovery => ProtoClassification::Discovery,
        ClassificationType::MinorRouteLeak => ProtoClassification::MinorRouteLeak,
    }
}

/// Distinct classification kinds have distinct wire kinds.
pub proof fn law_proto_mapping_injective(a: ClassificationType, b: ClassificationType)
    ensures
        proto_of(a) == proto_of(b) ==> a == b,
{
}

} // verus!

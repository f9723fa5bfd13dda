//! IP prefixes: parsing, network masks, storage keys and locally known bogon ranges.
use vstd::prelude::*;
use std::str::FromStr;

verus! {

/// An IP prefix: the address as written and the prefix length.
#[allow(inconsistent_fields)]
#[derive(Debug, Clone, Copy, PartialEq, Eq, Structural)]
pub enum IpPrefix {
    V4 { addr: u32, len: u8 },
    V6 { addr: u128, len: u8 },
}

impl IpPrefix {
    /// The prefix length fits the address family.
    pub open spec fn wf(self) -> bool {
        match self {
            IpPrefix::V4 { len, .. } => len <= 32,
            IpPrefix::V6 { len, .. } => len <= 128,
        }
    }
}

/// What `ipnet`'s `IpNet::from_str` reads from the text `s`, as address and length.
pub uninterp spec fn ipnet_parse(s: Seq<char>) -> Option<IpPrefix>;

/// Parses `s` with `IpNet::from_str` of the `ipnet` crate. Claimed: the result is the
/// one named `ipnet_parse` for these characters, and a parsed length fits its family
/// (as `Ipv4Net`/`Ipv6Net` guarantee).
#[verifier::external_body]
fn ipnet_from_str(s: &str) -> (r: Option<IpPrefix>)
    ensures
        r == ipnet_parse(s@),
        r matches Some(p) ==> p.wf(),
{
    match ipnet::IpNet::from_str(s) {
        Ok(ipnet::IpNet::V4(n)) => Some(IpPrefix::V4 { addr: u32::from(n.addr()), len: n.prefix_len() }),
        Ok(ipnet::IpNet::V6(n)) => Some(IpPrefix::V6 { addr: u128::from(n.addr()), len: n.prefix_len() }),
        Err(_) => None,
    }
}

/// The prefix written in `s`, if `s` is one.
pub fn parse_prefix(s: &str) -> (r: Option<IpPrefix>)
    ensures
        r == ipnet_parse(s@),
        r matches Some(p) ==> p.wf(),
{
    ipnet_from_str(s)
}

/// The first `len` bits of the IPv4 address `ip`, the rest cleared.
pub open spec fn network_v4(ip: u32, len: u8) -> u32 {
    ((ip >> (32 - len) as u32) << (32 - len) as u32) as u32
}

/// The first `len` bits of the IPv6 address `ip`, the rest cleared.
pub open spec fn network_v6(ip: u128, len: u8) -> u128 {
    ((ip >> (128 - len) as u32) << (128 - len) as u32) as u128
}

/// Byte `k` (most significant first) of an IPv4 address.
pub open spec fn octet_v4(ip: u32, k: int) -> u8 {
    (ip >> (24 - 8 * k) as u32) as u8
}

/// Byte `k` (most significant first) of an IPv6 address.
pub open spec fn octet_v6(ip: u128, k: int) -> u8 {
    (ip >> (120 - 8 * k) as u32) as u8
}

/// The storage key of an IPv4 prefix: tag 4, the four address bytes, the length.
pub open spec fn key_v4(ip: u32, len: u8) -> Seq<u8> {
    seq![4u8, octet_v4(ip, 0), octet_v4(ip, 1), octet_v4(ip, 2), octet_v4(ip, 3), len]
}

/// The storage key of an IPv6 prefix: tag 6, the sixteen address bytes, the length.
pub open spec fn key_v6(ip: u128, len: u8) -> Seq<u8> {
    seq![6u8] + Seq::new(16, |k: int| octet_v6(ip, k)) + seq![len]
}

/// The address `ip` with all but its first `len` bits cleared.
pub fn mask_v4(ip: u32, len: u8) -> (r: u32)
    requires
        len <= 32,
    ensures
        r == network_v4(ip, len),
{
    let shift = (32 - len) as u64;
    assert((1u64 << shift) >= 1) by (bit_vector)
        requires
            shift <= 32,
    ;
    let mask = #[verifier::truncate] (!((1u64 << shift) - 1) as u32);
    assert((ip & (!(((1u64 << shift) - 1) as u64)) as u32) == ((ip >> shift as u32) << shift as u32) as u32)
        by (bit_vector)
        requires
            shift <= 32,
    ;
    ip & mask
}

/// The address `ip` with all but its first `len` bits cleared.
pub fn mask_v6(ip: u128, len: u8) -> (r: u128)
    requires
        len <= 128,
    ensures
        r == network_v6(ip, len),
{
    let shift: u32 = (128 - len) as u32;
    if len == 0 {
        assert(ip & 0u128 == ((ip >> 128u32) << 128u32) as u128) by (bit_vector);
        ip & 0
    } else if len == 128 {
        assert(ip & u128::MAX == ((ip >> 0u32) << 0u32) as u128) by (bit_vector);
        ip & u128::MAX
    } else {
        assert((1u128 << shift) >= 1 && ip & !(((1u128 << shift) - 1) as u128) == ((ip >> shift) << shift) as u128) by (bit_vector)
            requires
                0 < shift < 128,
        ;
        ip & !((1u128 << shift) - 1)
    }
}

/// The storage key of the IPv4 prefix `ip`/`prefix_len`.
pub fn make_key_v4(ip: u32, prefix_len: u8) -> (r: Vec<u8>)
    ensures
        r@ == key_v4(ip, prefix_len),
{
    let mut key: Vec<u8> = Vec::new();
    key.push(4);
    key.push((ip >> 24u32) as u8);
    key.push((ip >> 16u32) as u8);
    key.push((ip >> 8u32) as u8);
    key.push((ip >> 0u32) as u8);
    key.push(prefix_len);
    assert(key@ =~= key_v4(ip, prefix_len));
    key
}

/// The storage key of the IPv6 prefix `ip`/`prefix_len`.
pub fn make_key_v6(ip: u128, prefix_len: u8) -> (r: Vec<u8>)
    ensures
        r@ == key_v6(ip, prefix_len),
{
    let mut key: Vec<u8> = Vec::new();
    key.push(6);
    let mut k: u32 = 0;
    while k < 16
        invariant
            k <= 16,
            key@ == seq![6u8] + Seq::new(k as nat, |j: int| octet_v6(ip, j)),
        decreases 16 - k,
    {
        key.push((ip >> (120 - 8 * k)) as u8);
        assert(key@ =~= seq![6u8] + Seq::new((k + 1) as nat, |j: int| octet_v6(ip, j)));
        k = k + 1;
    }
    key.push(prefix_len);
    assert(key@ =~= key_v6(ip, prefix_len));
    key
}

/// IPv4 addresses that no public route should carry: loopback, multicast, unspecified,
/// private, link-local, shared address space and the documentation networks.
pub open spec fn local_bogon_v4(a: u32) -> bool {
    ||| 0x7f00_0000 <= a < 0x8000_0000  // 127.0.0.0/8 loopback
    ||| 0xe000_0000 <= a < 0xf000_0000  // 224.0.0.0/4 multicast
    ||| a == 0  // unspecified
    ||| 0x0a00_0000 <= a < 0x0b00_0000  // 10.0.0.0/8
    ||| 0xac10_0000 <= a < 0xac20_0000  // 172.16.0.0/12
    ||| 0xc0a8_0000 <= a < 0xc0a9_0000  // 192.168.0.0/16
    ||| 0xa9fe_0000 <= a < 0xa9ff_0000  // 169.254.0.0/16 link-local
    ||| 0x6440_0000 <= a < 0x6480_0000  // 100.64.0.0/10 shared
    ||| 0xc000_0200 <= a < 0xc000_0300  // 192.0.2.0/24
    ||| 0xc633_6400 <= a < 0xc633_6500  // 198.51.100.0/24
    ||| 0xcb00_7100 <= a < 0xcb00_7200  // 203.0.113.0/24
}

/// IPv6 addresses that no public route should carry: loopback, multicast, unspecified
/// and unicast link-local.
pub open spec fn local_bogon_v6(a: u128) -> bool {
    ||| a == 1  // ::1
    ||| a >= 0xff00_0000_0000_0000_0000_0000_0000_0000  // ff00::/8
    ||| a == 0  // ::
    ||| 0xfe80_0000_0000_0000_0000_0000_0000_0000 <= a < 0xfec0_0000_0000_0000_0000_0000_0000_0000  // fe80::/10
}

/// The address of the prefix written in `s` lies in a locally known bogon range.
pub open spec fn local_bogon(s: Seq<char>) -> bool {
    match ipnet_parse(s) {
        Some(IpPrefix::V4 { addr, .. }) => local_bogon_v4(addr),
        Some(IpPrefix::V6 { addr, .. }) => local_bogon_v6(addr),
        None => false,
    }
}

/// Whether the prefix written in `prefix` has its address in a locally known bogon range.
pub fn is_local_bogon(prefix: &str) -> (r: bool)
    ensures
        r == local_bogon(prefix@),
{
    match parse_prefix(prefix) {
        Some(IpPrefix::V4 { addr: a, .. }) => {
            (0x7f00_0000 <= a && a < 0x8000_0000) || (0xe000_0000 <= a && a < 0xf000_0000) || a
                == 0 || (0x0a00_0000 <= a && a < 0x0b00_0000) || (0xac10_0000 <= a && a
                < 0xac20_0000) || (0xc0a8_0000 <= a && a < 0xc0a9_0000) || (0xa9fe_0000 <= a
                && a < 0xa9ff_0000) || (0x6440_0000 <= a && a < 0x6480_0000) || (0xc000_0200
                <= a && a < 0xc000_0300) || (0xc633_6400 <= a && a < 0xc633_6500) || (
            0xcb00_7100 <= a && a < 0xcb00_7200)
        },
        Some(IpPrefix::V6 { addr: a, .. }) => {
            a == 1 || a >= 0xff00_0000_0000_0000_0000_0000_0000_0000 || a == 0 || (
            0xfe80_0000_0000_0000_0000_0000_0000_0000 <= a && a
                < 0xfec0_0000_0000_0000_0000_0000_0000_0000)
        },
        None => false,
    }
}

} // verus!

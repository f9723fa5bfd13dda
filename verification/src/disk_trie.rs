//! Longest-prefix-match lookups over prefixes stored in an on-disk `sled` tree.
use vstd::prelude::*;
use crate::prefix::{IpPrefix, key_v4, key_v6, network_v4, network_v6, mask_v4, mask_v6, make_key_v4, make_key_v6};

verus! {

/// `sled`'s on-disk key-value tree handle.
#[verifier::external_type_specification]
#[verifier::external_body]
pub struct ExSledTree(sled::Tree);

/// `sled`'s error type.
#[verifier::external_type_specification]
#[verifier::external_body]
pub struct ExSledError(sled::Error);

/// Reads `key` with `sled::Tree::get`. Nothing is claimed of the result: it is whatever
/// the tree, which other handles may write, holds on disk at the time of the call.
#[verifier::external_body]
fn sled_get(tree: &sled::Tree, key: &[u8]) -> (r: Result<Option<Vec<u8>>, sled::Error>) {
    tree.get(key).map(|found| found.map(|v| v.to_vec()))
}

/// Writes `key` to `value` with `sled::Tree::insert`, dropping the previous value that
/// `sled` hands back. Nothing is claimed of the outcome.
#[verifier::external_body]
fn sled_insert(tree: &sled::Tree, key: Vec<u8>, value: &[u8]) -> (r: Result<(), sled::Error>) {
    tree.insert(key, value).map(|_previous| ())
}

/// `tree` gave the answer `ans` to a read of `key`: a call of [`sled_get`] made for that
/// key returned it. This speaks of reads that were made, not of what the tree holds.
pub closed spec fn tree_answered(tree: sled::Tree, key: Seq<u8>, ans: Result<Option<Vec<u8>>, sled::Error>) -> bool {
    exists|k: &[u8]| #[trigger] call_ensures(sled_get, (&tree, k), ans) && k@ == key
}

/// A storage failure reported by the tree.
pub enum TrieError {
    Storage(sled::Error),
}

/// Prefixes stored under their keys, with a value each.
pub struct DiskTrie {
    tree: sled::Tree,
}

/// The key a prefix is stored under.
pub open spec fn prefix_key(p: IpPrefix) -> Seq<u8> {
    match p {
        IpPrefix::V4 { addr, len } => key_v4(addr, len),
        IpPrefix::V6 { addr, len } => key_v6(addr, len),
    }
}

/// The key probed for the covering IPv4 prefix of length `len`.
pub open spec fn probe_key_v4(ip: u32, len: u8) -> Seq<u8> {
    key_v4(network_v4(ip, len), len)
}

/// The key probed for the covering IPv6 prefix of length `len`.
pub open spec fn probe_key_v6(ip: u128, len: u8) -> Seq<u8> {
    key_v6(network_v6(ip, len), len)
}

impl DiskTrie {
    /// The tree the prefixes are stored in.
    pub closed spec fn store(&self) -> sled::Tree {
        self.tree
    }

    /// A trie over the given tree.
    pub fn new(tree: sled::Tree) -> (r: Self)
        ensures
            r.store() == tree,
    {
        DiskTrie { tree }
    }

    /// The key `prefix` is stored under: the address as written, tagged by family and
    /// followed by the length.
    pub fn key_of(prefix: IpPrefix) -> (r: Vec<u8>)
        ensures
            r@ == prefix_key(prefix),
    {
        match prefix {
            IpPrefix::V4 { addr, len } => make_key_v4(addr, len),
            IpPrefix::V6 { addr, len } => make_key_v6(addr, len),
        }
    }

    /// Stores `value` under the key of `prefix`.
    pub fn insert(&self, prefix: IpPrefix, value: &[u8]) -> (r: Result<(), TrieError>) {
        let key = Self::key_of(prefix);
        match sled_insert(&self.tree, key, value) {
            Ok(()) => Ok(()),
            Err(e) => Err(TrieError::Storage(e)),
        }
    }

    /// The value of the longest stored prefix covering `ip`, with its length. Lengths are
    /// probed from 32 down to 0, under the keys `probe_key_v4(ip, len)`; each probe's
    /// answer is judged by [`lpm_next`]: the first hit is returned, a failed read ends the
    /// lookup with its error, and no hit down to length 0 gives `None`.
    pub fn lookup_lpm_v4(&self, ip: u32) -> (r: Result<Option<(u8, Vec<u8>)>, TrieError>)
        ensures
            r matches Ok(Some((len, _))) ==> len <= 32,
            r matches Ok(Some((len, v))) ==> tree_answered(self.store(), probe_key_v4(ip, len), Ok(Some(v))),
            r matches Ok(Some((len, _))) ==> forall|m: u8|
                len < m <= 32 ==> #[trigger] tree_answered(self.store(), probe_key_v4(ip, m), Ok(None)),
            r matches Ok(None) ==> forall|m: u8|
                m <= 32 ==> #[trigger] tree_answered(self.store(), probe_key_v4(ip, m), Ok(None)),
            r is Err ==> exists|m: u8|
                m <= 32 && #[trigger] tree_answered(
                    self.store(),
                    probe_key_v4(ip, m),
                    Err(r->Err_0->Storage_0),
                ),
    {
        let read = sled_get;
        let mut len: u8 = 32;
        let ghost mut probed: Seq<Seq<u8>> = Seq::empty();
        loop
            invariant
                len <= 32,
                probed.len() == 32 - len,
                forall|k: int| 0 <= k < probed.len() ==> #[trigger] probed[k] == probe_key_v4(ip, (32 - k) as u8),
                forall|m: u8| len < m <= 32 ==> #[trigger] tree_answered(self.store(), probe_key_v4(ip, m), Ok(None)),
            decreases len,
        {
            let masked = mask_v4(ip, len);
            let key = make_key_v4(masked, len);
            assert(key@ == probe_key_v4(ip, len));
            let got = read(&self.tree, key.as_slice());
            assert(tree_answered(self.store(), probe_key_v4(ip, len), got));
            proof {
                probed = probed.push(key@);
            }
            match lpm_next(len, got) {
                LpmStep::Hit(l, v) => {
                    return Ok(Some((l, v)));
                },
                LpmStep::Probe(next) => {
                    len = next;
                },
                LpmStep::Miss => {
                    assert(probed.len() == 33);
                    return Ok(None);
                },
                LpmStep::Failed(e) => {
                    assert(got is Err);
                    assert(tree_answered(self.store(), probe_key_v4(ip, len), Err(got->Err_0)));
                    assert(e == TrieError::Storage(got->Err_0));
                    let res: Result<Option<(u8, Vec<u8>)>, TrieError> = Err(e);
                    assert(res->Err_0->Storage_0 == got->Err_0);
                    assert(exists|m: u8| m <= 32 && #[trigger] tree_answered(self.store(), probe_key_v4(ip, m), Err(res->Err_0->Storage_0)));
                    return res;
                },
            }
        }
    }

    /// The value of the longest stored prefix covering `ip`, with its length. Lengths are
    /// probed from 128 down to 0, under the keys `probe_key_v6(ip, len)`; each probe's
    /// answer is judged by [`lpm_next`]: the first hit is returned, a failed read ends the
    /// lookup with its error, and no hit down to length 0 gives `None`.
    pub fn lookup_lpm_v6(&self, ip: u128) -> (r: Result<Option<(u8, Vec<u8>)>, TrieError>)
        ensures
            r matches Ok(Some((len, _))) ==> len <= 128,
            r matches Ok(Some((len, v))) ==> tree_answered(self.store(), probe_key_v6(ip, len), Ok(Some(v))),
            r matches Ok(Some((len, _))) ==> forall|m: u8|
                len < m <= 128 ==> #[trigger] tree_answered(self.store(), probe_key_v6(ip, m), Ok(None)),
            r matches Ok(None) ==> forall|m: u8|
                m <= 128 ==> #[trigger] tree_answered(self.store(), probe_key_v6(ip, m), Ok(None)),
            r is Err ==> exists|m: u8|
                m <= 128 && #[trigger] tree_answered(
                    self.store(),
                    probe_key_v6(ip, m),
                    Err(r->Err_0->Storage_0),
                ),
    {
        let read = sled_get;
        let mut len: u8 = 128;
        let ghost mut probed: Seq<Seq<u8>> = Seq::empty();
        loop
            invariant
                len <= 128,
                probed.len() == 128 - len,
                forall|k: int| 0 <= k < probed.len() ==> #[trigger] probed[k] == probe_key_v6(ip, (128 - k) as u8),
                forall|m: u8| len < m <= 128 ==> #[trigger] tree_answered(self.store(), probe_key_v6(ip, m), Ok(None)),
            decreases len,
        {
            let masked = mask_v6(ip, len);
            let key = make_key_v6(masked, len);
            assert(key@ == probe_key_v6(ip, len));
            let got = read(&self.tree, key.as_slice());
            assert(tree_answered(self.store(), probe_key_v6(ip, len), got));
            proof {
                probed = probed.push(key@);
            }
            match lpm_next(len, got) {
                LpmStep::Hit(l, v) => {
                    return Ok(Some((l, v)));
                },
                LpmStep::Probe(next) => {
                    len = next;
                },
                LpmStep::Miss => {
                    assert(probed.len() == 129);
                    return Ok(None);
                },
                LpmStep::Failed(e) => {
                    assert(got is Err);
                    assert(tree_answered(self.store(), probe_key_v6(ip, len), Err(got->Err_0)));
                    assert(e == TrieError::Storage(got->Err_0));
                    let res: Result<Option<(u8, Vec<u8>)>, TrieError> = Err(e);
                    assert(res->Err_0->Storage_0 == got->Err_0);
                    assert(exists|m: u8| m <= 128 && #[trigger] tree_answered(self.store(), probe_key_v6(ip, m), Err(res->Err_0->Storage_0)));
                    return res;
                },
            }
        }
    }
}

/// What a longest-prefix lookup does after reading the key of one length.
pub enum LpmStep {
    /// A value is stored under that length: it is the answer, with the length.
    Hit(u8, Vec<u8>),
    /// Nothing is stored there: probe this next shorter length.
    Probe(u8),
    /// Nothing is stored there and no shorter length is left.
    Miss,
    /// The read failed: the lookup ends with this error.
    Failed(TrieError),
}

/// The decision on the read of length `len` during a longest-prefix lookup: a hit is the
/// answer with its length, a miss moves one length shorter, a miss at length 0 ends
/// with nothing found, and a failed read ends with the storage error.
pub fn lpm_next(len: u8, got: Result<Option<Vec<u8>>, sled::Error>) -> (r: LpmStep)
    ensures
        got matches Ok(Some(v)) ==> r == LpmStep::Hit(len, v),
        got matches Ok(None) && len > 0 ==> r == LpmStep::Probe((len - 1) as u8),
        got matches Ok(None) && len == 0 ==> r is Miss,
        got matches Err(e) ==> r == LpmStep::Failed(TrieError::Storage(e)),
{
    match got {
        Ok(Some(v)) => LpmStep::Hit(len, v),
        Ok(None) => {
            if len > 0 {
                LpmStep::Probe(len - 1)
            } else {
                LpmStep::Miss
            }
        },
        Err(e) => LpmStep::Failed(TrieError::Storage(e)),
    }
}

/// The `u32` whose big-endian bytes are `b`.
pub open spec fn be_u32(b: Seq<u8>) -> u32 {
    (b[0] as int * 0x100_0000 + b[1] as int * 0x1_0000 + b[2] as int * 0x100 + b[3] as int) as u32
}

/// The big-endian `u32` stored in a four-byte value; other values hold none.
pub fn u32_from_be_value(v: &Vec<u8>) -> (r: Option<u32>)
    ensures
        r == (if v@.len() == 4 {
            Some(be_u32(v@))
        } else {
            None
        }),
{
    if v.len() == 4 {
        let x = (v[0] as u32) * 0x100_0000 + (v[1] as u32) * 0x1_0000 + (v[2] as u32) * 0x100
            + (v[3] as u32);
        Some(x)
    } else {
        None
    }
}

/// The four big-endian bytes of `x`.
pub fn u32_to_be_bytes(x: u32) -> (r: Vec<u8>)
    ensures
        r@.len() == 4,
        be_u32(r@) == x,
{
    let mut r: Vec<u8> = Vec::new();
    r.push((x / 0x100_0000) as u8);
    r.push((x / 0x1_0000 % 0x100) as u8);
    r.push((x / 0x100 % 0x100) as u8);
    r.push((x % 0x100) as u8);
    r
}

/// The origin recorded by a longest-prefix lookup's answer: the big-endian `u32` of a
/// four-byte hit, else 0.
pub open spec fn origin_of_hit(found: Result<Option<(u8, Vec<u8>)>, TrieError>) -> u32 {
    match found {
        Ok(Some((_, v))) => if v@.len() == 4 {
            be_u32(v@)
        } else {
            0
        },
        _ => 0,
    }
}

/// The origin recorded by a longest-prefix lookup's answer (see [`origin_of_hit`]).
pub fn origin_from_hit(found: Result<Option<(u8, Vec<u8>)>, TrieError>) -> (r: u32)
    ensures
        r == origin_of_hit(found),
{
    match found {
        Ok(Some((_, val))) => match u32_from_be_value(&val) {
            Some(v) => v,
            None => 0,
        },
        _ => 0,
    }
}

} // verus!

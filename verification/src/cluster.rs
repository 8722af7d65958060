//! Peer registry, cluster formation and distributed key generation.
//!
//! A cluster is the local node's private identity plus an ordered list of
//! partner identities; membership is exactly the peer numbers `0..=n` with no
//! duplicates and no gaps. Key generation combines one contribution per
//! member, order-independently, into a single collectively-held public key;
//! each node's private share never leaves its own state.

use vstd::prelude::*;
use crate::field::{fe_ok, sp_add, sp_mul, fe_mul, lemma_sp_mul_distributes};
use crate::cipher::KEY_GENERATOR;
use crate::shares::{seq_sum, reconstruct};
use crate::errors::MpcError;

verus! {

/// A small unsigned integer uniquely identifying a node within a cluster.
pub type PeerNumber = u8;

/// A deterministic per-node key salt used by constant-derived identities.
pub const NODE_KEY_SALT: u64 = 1103515245285312345;

/// The private key share a constant-derived node of a given peer number holds.
pub open spec fn node_secret(peer: int) -> u64 {
    sp_mul((peer + 1) as u64, NODE_KEY_SALT)
}

/// The collective cluster secret: the field sum of all members' shares.
pub open spec fn spec_cluster_secret(count: int) -> u64
    decreases count,
{
    if count <= 0 {
        0u64
    } else {
        sp_add(spec_cluster_secret(count - 1), node_secret(count - 1))
    }
}

/// The cluster public key every member converges on.
pub open spec fn spec_cluster_key(count: int) -> u64 {
    sp_mul(spec_cluster_secret(count), KEY_GENERATOR)
}

/// The peer number of the `j`-th partner, counting all peers but the local
/// one in ascending order.
pub open spec fn canonical_partner(local: PeerNumber, j: int) -> PeerNumber {
    if j < local as int {
        j as PeerNumber
    } else {
        (j + 1) as PeerNumber
    }
}

/// Compute a node's private key share from its peer number.
pub fn node_secret_exec(peer: PeerNumber) -> (r: u64)
    ensures
        r == node_secret(peer as int),
        fe_ok(r),
{
    fe_mul((peer as u64) + 1, NODE_KEY_SALT)
}

/// List the peer numbers of all partners of `local_peer_number` in a cluster
/// of `partner_count + 1` members: every peer number except the local one,
/// ascending.
pub fn get_partner_peer_numbers(local_peer_number: PeerNumber, partner_count: usize) -> (r: Vec<PeerNumber>)
    requires
        partner_count <= 255,
        local_peer_number as int <= partner_count as int,
    ensures
        r@.len() == partner_count,
        forall|j: int| 0 <= j < partner_count ==> r@[j] == canonical_partner(local_peer_number, j),
{
    let mut out: Vec<PeerNumber> = Vec::new();
    for j in 0..partner_count
        invariant
            partner_count <= 255,
            out@.len() == j,
            forall|k: int| 0 <= k < j ==> out@[k] == canonical_partner(local_peer_number, k),
    {
        if j < local_peer_number as usize {
            out.push(j as u8);
        } else {
            out.push((j + 1) as u8);
        }
    }
    out
}

/// Public identity of a peer: its number and network port.
#[derive(Clone, Copy, PartialEq, Eq, Structural, Debug)]
pub struct NodeInfo {
    pub peer_number: PeerNumber,
    pub port: u16,
}

impl NodeInfo {
    /// Build a partner identity from its peer number and port.
    pub fn new_from_const(peer_number: PeerNumber, port: u16) -> (r: NodeInfo)
        ensures
            r == (NodeInfo { peer_number, port }),
    {
        NodeInfo { peer_number, port }
    }
}

/// The local node's identity plus its private key share. Never sent to other
/// nodes.
#[derive(Clone, Copy, PartialEq, Eq, Structural, Debug)]
pub struct PrivNodeInfo {
    pub info: NodeInfo,
    pub secret_key: u64,
}

impl PrivNodeInfo {
    /// Build the local node's identity, deriving its private key share
    /// deterministically from the peer number.
    pub fn new_from_const(peer_number: PeerNumber, port: u16) -> (r: PrivNodeInfo)
        ensures
            r.info == (NodeInfo { peer_number, port }),
            r.secret_key == node_secret(peer_number as int),
            fe_ok(r.secret_key),
    {
        PrivNodeInfo { info: NodeInfo { peer_number, port }, secret_key: node_secret_exec(peer_number) }
    }
}

/// Membership is well-formed: between 2 and 256 members, the local peer
/// number inside the range, the local share consistent with the local peer
/// number, and the partners exactly the remaining peer numbers in ascending
/// order — no duplicates, no gaps.
pub open spec fn membership_ok(local: PrivNodeInfo, partners: Seq<NodeInfo>) -> bool {
    let n = partners.len() as int;
    &&& 1 <= n <= 255
    &&& local.info.peer_number as int <= n
    &&& local.secret_key == node_secret(local.info.peer_number as int)
    &&& forall|j: int| 0 <= j < n ==> (#[trigger] partners[j]).peer_number == canonical_partner(
        local.info.peer_number,
        j,
    )
}

/// Every member is addressable: no port is zero.
pub open spec fn ports_ok(local: PrivNodeInfo, partners: Seq<NodeInfo>) -> bool {
    &&& local.info.port != 0
    &&& forall|j: int| 0 <= j < partners.len() ==> (#[trigger] partners[j]).port != 0
}

/// The set of `n + 1` nodes participating in one session: the local private
/// identity plus an ordered, length-checked list of partner identities, and
/// the cached result of key generation.
pub struct Cluster {
    pub local: PrivNodeInfo,
    pub partners: Vec<NodeInfo>,
    pub public_key: Option<u64>,
}

impl Cluster {
    /// A cluster value is well-formed when its membership and ports are, and
    /// any cached public key is the one key generation produces.
    pub open spec fn wf(self) -> bool {
        &&& membership_ok(self.local, self.partners@)
        &&& ports_ok(self.local, self.partners@)
        &&& (self.public_key matches Some(k) ==> k == spec_cluster_key(
            self.partners@.len() as int + 1,
        ))
    }

    /// The full membership in peer-number order, public identities only.
    pub open spec fn member_seq(self) -> Seq<NodeInfo> {
        Seq::new(
            self.partners@.len() + 1,
            |i: int|
                if i == self.local.info.peer_number as int {
                    self.local.info
                } else if i < self.local.info.peer_number as int {
                    self.partners@[i]
                } else {
                    self.partners@[i - 1]
                },
        )
    }

    /// Construct a cluster from the local private identity and the partner
    /// list. Fails with `ConfigurationError` if the membership is not exactly
    /// the peer numbers `0..=n` (duplicates, gaps, a local share inconsistent
    /// with the local peer number, or a size outside `1..=255` partners), and
    /// with `ConnectivityError` naming the first unreachable member (port 0),
    /// checking the local node first and then the partners in order.
    pub fn new(local: PrivNodeInfo, partners: Vec<NodeInfo>) -> (r: Result<Cluster, MpcError>)
        ensures
            membership_ok(local, partners@) && ports_ok(local, partners@) ==> (r matches Ok(c)
                && c.local == local && c.partners == partners && c.public_key is None),
            r matches Ok(c) ==> membership_ok(local, partners@) && ports_ok(local, partners@)
                && c.local == local && c.partners == partners && c.public_key is None,
            !membership_ok(local, partners@) ==> r == Err::<Cluster, MpcError>(
                MpcError::ConfigurationError,
            ),
            membership_ok(local, partners@) && local.info.port == 0 ==> r == Err::<
                Cluster,
                MpcError,
            >(MpcError::ConnectivityError { peer: local.info.peer_number }),
            membership_ok(local, partners@) && local.info.port != 0 && !ports_ok(local, partners@)
                ==> (r matches Err(e) && e matches MpcError::ConnectivityError { peer } && exists|
                j: int,
            |
                0 <= j < partners@.len() && (#[trigger] partners@[j]).port == 0 && peer
                    == partners@[j].peer_number && (forall|k: int|
                    0 <= k < j ==> partners@[k].port != 0)),
    {
        let n = partners.len();
        if n < 1 || n > 255 {
            return Err(MpcError::ConfigurationError);
        }
        if (local.info.peer_number as usize) > n {
            return Err(MpcError::ConfigurationError);
        }
        if local.secret_key != node_secret_exec(local.info.peer_number) {
            return Err(MpcError::ConfigurationError);
        }
        for j in 0..n
            invariant
                n == partners@.len(),
                n <= 255,
                forall|k: int| 0 <= k < j ==> (#[trigger] partners@[k]).peer_number
                    == canonical_partner(local.info.peer_number, k),
        {
            let expected: u8 = if j < local.info.peer_number as usize {
                j as u8
            } else {
                (j + 1) as u8
            };
            if partners[j].peer_number != expected {
                return Err(MpcError::ConfigurationError);
            }
        }
        if local.info.port == 0 {
            return Err(MpcError::ConnectivityError { peer: local.info.peer_number });
        }
        for j in 0..n
            invariant
                n == partners@.len(),
                membership_ok(local, partners@),
                local.info.port != 0,
                forall|k: int| 0 <= k < j ==> (#[trigger] partners@[k]).port != 0,
        {
            if partners[j].port == 0 {
                return Err(MpcError::ConnectivityError { peer: partners[j].peer_number });
            }
        }
        Ok(Cluster { local, partners, public_key: None })
    }

    /// The full membership in peer-number order.
    pub fn member_list(&self) -> (r: Vec<NodeInfo>)
        requires
            membership_ok(self.local, self.partners@),
        ensures
            r@ == self.member_seq(),
    {
        let n = self.partners.len();
        let local_peer = self.local.info.peer_number as usize;
        let mut out: Vec<NodeInfo> = Vec::new();
        for i in 0..n + 1
            invariant
                n == self.partners@.len(),
                local_peer == self.local.info.peer_number as int,
                local_peer <= n,
                out@.len() == i,
                forall|k: int| 0 <= k < i ==> out@[k] == self.member_seq()[k],
        {
            if i == local_peer {
                out.push(self.local.info);
            } else if i < local_peer {
                out.push(self.partners[i]);
            } else {
                out.push(self.partners[i - 1]);
            }
        }
        proof {
            assert(out@ =~= self.member_seq());
        }
        out
    }

    /// Run distributed key generation: every member contributes its share's
    /// public value, contributions are validated and combined
    /// order-independently, and the resulting cluster public key is cached
    /// and returned. The private shares never leave the members.
    pub fn gen_key_shares(&mut self) -> (r: Result<u64, MpcError>)
        requires
            old(self).wf(),
        ensures
            final(self).wf(),
            final(self).local == old(self).local,
            final(self).partners == old(self).partners,
            r matches Ok(k) && k == spec_cluster_key(old(self).partners@.len() as int + 1),
            final(self).public_key == Some(spec_cluster_key(old(self).partners@.len() as int + 1)),
    {
        let n = self.partners.len();
        let count = n + 1;
        let mut contributions: Vec<u64> = Vec::new();
        for peer in 0..count
            invariant
                count == n + 1,
                n <= 255,
                contributions@.len() == peer,
                forall|k: int| 0 <= k < peer ==> contributions@[k] == sp_mul(
                    node_secret(k),
                    KEY_GENERATOR,
                ),
                forall|k: int| 0 <= k < peer ==> fe_ok(#[trigger] contributions@[k]),
        {
            let s = node_secret_exec(peer as u8);
            contributions.push(fe_mul(s, KEY_GENERATOR));
        }
        let key = match combine_contributions(&contributions, count) {
            Ok(k) => k,
            Err(e) => {
                proof {
                    assert(false);
                }
                return Err(e);
            },
        };
        proof {
            lemma_scaled_secret_sum(contributions@, KEY_GENERATOR);
        }
        self.public_key = Some(key);
        Ok(key)
    }
}

/// Validate and combine the members' key-generation contributions. Fails
/// with `ConfigurationError` on a wrong contribution count, and with a
/// `ProtocolError` naming the first contributor whose value is not a reduced
/// field element; round 0 is the key-generation round. On success the key is
/// the order-independent field sum of all contributions.
pub fn combine_contributions(contributions: &Vec<u64>, expected_count: usize) -> (r: Result<
    u64,
    MpcError,
>)
    requires
        expected_count <= 256,
    ensures
        contributions@.len() != expected_count ==> r == Err::<u64, MpcError>(
            MpcError::ConfigurationError,
        ),
        contributions@.len() == expected_count && (forall|i: int|
            0 <= i < contributions@.len() ==> fe_ok(#[trigger] contributions@[i])) ==> (r
            matches Ok(k) && k == seq_sum(contributions@)),
        contributions@.len() == expected_count && !(forall|i: int|
            0 <= i < contributions@.len() ==> fe_ok(#[trigger] contributions@[i])) ==> (r matches Err(
            e,
        ) && e matches MpcError::ProtocolError { peer, round } && round == 0 && (peer as int)
            < contributions@.len() && !fe_ok(contributions@[peer as int]) && (forall|k: int|
            0 <= k < peer as int ==> fe_ok(#[trigger] contributions@[k]))),
{
    if contributions.len() != expected_count {
        return Err(MpcError::ConfigurationError);
    }
    let n = contributions.len();
    for i in 0..n
        invariant
            n == contributions@.len(),
            n == expected_count,
            n <= 256,
            forall|k: int| 0 <= k < i ==> fe_ok(#[trigger] contributions@[k]),
    {
        if contributions[i] >= crate::field::FIELD_MODULUS {
            return Err(MpcError::ProtocolError { peer: i as u8, round: 0 });
        }
    }
    Ok(reconstruct(contributions))
}

/// The field sum of per-member contributions `node_secret(j) * base` equals
/// the collective secret applied to `base`: the combination of shares is the
/// same key every member computes, regardless of arrival order.
pub proof fn lemma_scaled_secret_sum(s: Seq<u64>, base: u64)
    requires
        forall|j: int| 0 <= j < s.len() ==> s[j] == sp_mul(node_secret(j), base),
    ensures
        seq_sum(s) == sp_mul(spec_cluster_secret(s.len() as int), base),
    decreases s.len(),
{
    if s.len() == 0 {
    } else {
        let d = s.drop_last();
        lemma_scaled_secret_sum(d, base);
        lemma_sp_mul_distributes(spec_cluster_secret(d.len() as int), node_secret(d.len() as int), base);
    }
}

/// Law: distributed key generation agreement. Any two well-formed clusters
/// of the same size that have completed key generation hold the identical
/// cluster public key, whichever member's view each value represents.
pub proof fn lemma_dkg_agreement(a: Cluster, b: Cluster)
    requires
        a.wf(),
        b.wf(),
        a.partners@.len() == b.partners@.len(),
        a.public_key is Some,
        b.public_key is Some,
    ensures
        a.public_key == b.public_key,
{
}

} // verus!

//! ZAB-Sync: the bookkeeping of a node that synchronises with known peers.

use crate::clock::unix_seconds;
use crate::frame::{push_all, text_is};
use crate::QwartzError;
use vstd::prelude::*;
use vstd::string::*;
use vstd::utf8::encode_utf8;

verus! {

/// A known peer.
#[derive(Debug, Clone)]
pub struct SyncNode {
    /// Node id.
    pub id: String,
    /// Node address.
    pub address: String,
    /// Port.
    pub port: u16,
    /// Last sync timestamp (seconds since the Unix epoch).
    pub last_sync: u64,
    /// Connection status.
    pub connected: bool,
}

/// A peer with its texts as character sequences.
pub struct SyncNodeView {
    pub id: Seq<char>,
    pub address: Seq<char>,
    pub port: u16,
    pub last_sync: u64,
    pub connected: bool,
}

impl View for SyncNode {
    type V = SyncNodeView;

    open spec fn view(&self) -> SyncNodeView {
        SyncNodeView {
            id: self.id@,
            address: self.address@,
            port: self.port,
            last_sync: self.last_sync,
            connected: self.connected,
        }
    }
}

impl SyncNode {
    /// A peer that has never synchronised and is not connected.
    pub fn new(id: &str, address: &str, port: u16) -> (node: SyncNode)
        ensures
            node@ == (SyncNodeView { id: id@, address: address@, port, last_sync: 0, connected: false }),
    {
        SyncNode {
            id: id.to_owned(),
            address: address.to_owned(),
            port,
            last_sync: 0,
            connected: false,
        }
    }
}

/// The synchronisation manager of a node.
pub struct ZABSync {
    local_id: String,
    peers: Vec<SyncNode>,
    sync_count: u64,
}

/// The state of a synchronisation manager.
pub struct ZABSyncView {
    pub local_id: Seq<char>,
    pub peers: Seq<SyncNodeView>,
    pub sync_count: u64,
}

/// The views of a list of peers.
pub open spec fn node_views(peers: Seq<SyncNode>) -> Seq<SyncNodeView> {
    peers.map_values(|p: SyncNode| p@)
}

impl View for ZABSync {
    type V = ZABSyncView;

    closed spec fn view(&self) -> ZABSyncView {
        ZABSyncView { local_id: self.local_id@, peers: node_views(self.peers@), sync_count: self.sync_count }
    }
}

/// Synchronisation statistics.
#[derive(Debug, Clone)]
pub struct SyncStats {
    pub local_id: String,
    pub peer_count: usize,
    pub connected_count: usize,
    pub sync_count: u64,
}

/// The peers that are connected, in order.
pub open spec fn connected_of(peers: Seq<SyncNodeView>) -> Seq<SyncNodeView> {
    peers.filter(|p: SyncNodeView| p.connected)
}

/// The peers whose id is not `id`, in order.
pub open spec fn without_id(peers: Seq<SyncNodeView>, id: Seq<char>) -> Seq<SyncNodeView> {
    peers.filter(|p: SyncNodeView| p.id != id)
}

/// Whether `i` is the position of the first peer with id `id`.
pub open spec fn first_with_id(peers: Seq<SyncNodeView>, id: Seq<char>, i: int) -> bool {
    &&& 0 <= i < peers.len()
    &&& peers[i].id == id
    &&& forall|j: int| 0 <= j < i ==> peers[j].id != id
}

/// Whether some peer has id `id`.
pub open spec fn has_id(peers: Seq<SyncNodeView>, id: Seq<char>) -> bool {
    exists|j: int| 0 <= j < peers.len() && #[trigger] peers[j].id == id
}

/// A peer after a synchronisation at time `now`: stamped and connected.
pub open spec fn synced_node(p: SyncNodeView, now: u64) -> SyncNodeView {
    SyncNodeView { last_sync: now, connected: true, ..p }
}

/// The decimal digits of a number, as ASCII bytes, most significant first.
pub open spec fn decimal_digits(n: nat) -> Seq<u8>
    decreases n,
{
    if n < 10 {
        seq![(48 + n) as u8]
    } else {
        decimal_digits(n / 10).push((48 + n % 10) as u8)
    }
}

/// The reply to a synchronisation: `SYNC:`, the local id (UTF-8), `:`, the
/// synchronisation count in decimal.
pub open spec fn sync_message(local_id: Seq<char>, count: u64) -> Seq<u8> {
    seq![0x53u8, 0x59u8, 0x4Eu8, 0x43u8, 0x3Au8] + encode_utf8(local_id) + seq![0x3Au8] + decimal_digits(
        count as nat,
    )
}

/// Whether `p` is `old` after a synchronisation at some time.
pub open spec fn synced_from(p: SyncNodeView, old: SyncNodeView) -> bool {
    exists|now: u64| p == synced_node(old, now)
}

/// Whether every peer synchronised at `now` or before.
pub open spec fn all_synced_by(peers: Seq<SyncNodeView>, now: u64) -> bool {
    forall|j: int| 0 <= j < peers.len() ==> #[trigger] peers[j].last_sync <= now
}

/// A peer after a health check at `now`: disconnected when its last
/// synchronisation lies more than 60 seconds back, else unchanged.
pub open spec fn checked_node(p: SyncNodeView, now: u64) -> SyncNodeView {
    if now - p.last_sync > 60 {
        SyncNodeView { connected: false, ..p }
    } else {
        p
    }
}

/// The peers after a health check at `now`.
pub open spec fn checked_peers(peers: Seq<SyncNodeView>, now: u64) -> Seq<SyncNodeView> {
    peers.map_values(|p: SyncNodeView| checked_node(p, now))
}

/// Appends the decimal digits of `n` to `out`.
fn push_decimal(out: &mut Vec<u8>, n: u64)
    ensures
        final(out)@ == old(out)@ + decimal_digits(n as nat),
    decreases n,
{
    if n >= 10 {
        push_decimal(out, n / 10);
    }
    out.push((48 + n % 10) as u8);
    proof {
        if n >= 10 {
            assert(decimal_digits(n as nat) == decimal_digits((n / 10) as nat).push((48 + n % 10) as u8));
        }
    }
}

impl ZABSync {
    /// A manager for the node `local_id`, with no peers and no synchronisations.
    pub fn new(local_id: &str) -> (s: ZABSync)
        ensures
            s@ == (ZABSyncView { local_id: local_id@, peers: seq![], sync_count: 0 }),
    {
        let s = ZABSync { local_id: local_id.to_owned(), peers: Vec::new(), sync_count: 0 };
        assert(node_views(s.peers@) =~= seq![]);
        s
    }

    /// Adds a peer at the end of the list.
    pub fn add_peer(&mut self, node: SyncNode)
        ensures
            final(self)@ == (ZABSyncView { peers: old(self)@.peers.push(node@), ..old(self)@ }),
    {
        let ghost v = node@;
        self.peers.push(node);
        assert(node_views(self.peers@) =~= node_views(old(self).peers@).push(v));
    }

    /// Removes every peer with id `id`; the others keep their order.
    pub fn remove_peer(&mut self, id: &str)
        ensures
            final(self)@ == (ZABSyncView { peers: without_id(old(self)@.peers, id@), ..old(self)@ }),
    {
        let ghost orig = self.peers@;
        let ghost before = node_views(orig);
        let mut rest: Vec<SyncNode> = Vec::new();
        std::mem::swap(&mut rest, &mut self.peers);
        let n: usize = rest.len();
        let mut i: usize = 0;
        while i < n
            invariant
                i <= n,
                n == orig.len(),
                before == node_views(orig),
                rest@ == orig.subrange(i as int, n as int),
                node_views(self.peers@) == without_id(before.subrange(0, i as int), id@),
                self.local_id == old(self).local_id,
                self.sync_count == old(self).sync_count,
            decreases n - i,
        {
            let ghost kept = self.peers@;
            let p = rest.remove(0);
            assert(p == orig[i as int]);
            assert(rest@ =~= orig.subrange(i + 1, n as int));
            proof {
                reveal_with_fuel(Seq::<_>::filter, 1);
                assert(before.subrange(0, i + 1).drop_last() =~= before.subrange(0, i as int));
                assert(before.subrange(0, i + 1).last() == p@);
            }
            if !text_is(&p.id, id) {
                let ghost pv = p@;
                self.peers.push(p);
                assert(node_views(self.peers@) =~= node_views(kept).push(pv));
            }
            i += 1;
        }
        assert(before.subrange(0, n as int) =~= before);
    }

    /// The connected peers, in order.
    pub fn connected_peers(&self) -> (out: Vec<&SyncNode>)
        ensures
            out@.map_values(|p: &SyncNode| p@) == connected_of(self@.peers),
    {
        let ghost all = node_views(self.peers@);
        let mut out: Vec<&SyncNode> = Vec::new();
        let mut i: usize = 0;
        while i < self.peers.len()
            invariant
                i <= self.peers@.len(),
                all == node_views(self.peers@),
                out@.map_values(|p: &SyncNode| p@) == connected_of(all.subrange(0, i as int)),
            decreases self.peers.len() - i,
        {
            let ghost before = out@;
            let p: &SyncNode = &self.peers[i];
            proof {
                reveal_with_fuel(Seq::<_>::filter, 1);
                assert(all.subrange(0, i + 1).drop_last() =~= all.subrange(0, i as int));
                assert(all.subrange(0, i + 1).last() == p@);
            }
            if p.connected {
                out.push(p);
                assert(out@.map_values(|q: &SyncNode| q@) =~= before.map_values(|q: &SyncNode| q@).push(p@));
            }
            i += 1;
        }
        assert(all.subrange(0, self.peers@.len() as int) =~= all);
        out
    }

    /// Synchronises with the first peer whose id is `peer_id`, at time `now`: it
    /// is stamped and connected, the count goes up by one, and the reply is
    /// `sync_message` of the local id and the new count. With no such peer:
    /// `SyncError("Peer not found")` and nothing changes.
    pub fn sync_with_at(&mut self, peer_id: &str, now: u64) -> (r: Result<Vec<u8>, QwartzError>)
        requires
            has_id(old(self)@.peers, peer_id@) ==> old(self)@.sync_count < u64::MAX,
        ensures
            !has_id(old(self)@.peers, peer_id@) ==> final(self)@ == old(self)@,
            !has_id(old(self)@.peers, peer_id@) ==> (r matches Err(QwartzError::SyncError(m)) && m@
                == "Peer not found"@),
            has_id(old(self)@.peers, peer_id@) ==> exists|i: int|
                first_with_id(old(self)@.peers, peer_id@, i) && final(self)@ == (ZABSyncView {
                    peers: old(self)@.peers.update(i, synced_node(old(self)@.peers[i], now)),
                    sync_count: (old(self)@.sync_count + 1) as u64,
                    ..old(self)@
                }),
            has_id(old(self)@.peers, peer_id@) ==> (r matches Ok(m) && m@ == sync_message(
                old(self)@.local_id,
                (old(self)@.sync_count + 1) as u64,
            )),
    {
        let ghost all = node_views(self.peers@);
        let mut i: usize = 0;
        while i < self.peers.len()
            invariant
                i <= self.peers@.len(),
                all == node_views(self.peers@),
                forall|j: int| 0 <= j < i ==> all[j].id != peer_id@,
            ensures
                i <= self.peers@.len(),
                forall|j: int| 0 <= j < i ==> all[j].id != peer_id@,
                i < self.peers@.len() ==> all[i as int].id == peer_id@,
            decreases self.peers.len() - i,
        {
            if text_is(&self.peers[i].id, peer_id) {
                break;
            }
            i += 1;
        }
        if i == self.peers.len() {
            return Err(QwartzError::SyncError(String::from_str("Peer not found")));
        }
        assert(first_with_id(all, peer_id@, i as int));
        self.peers[i].last_sync = now;
        self.peers[i].connected = true;
        self.sync_count += 1;
        assert(node_views(self.peers@) =~= all.update(i as int, synced_node(all[i as int], now)));
        let mut reply: Vec<u8> = Vec::new();
        reply.push(0x53);
        reply.push(0x59);
        reply.push(0x4E);
        reply.push(0x43);
        reply.push(0x3A);
        push_all(&mut reply, self.local_id.as_str().as_bytes());
        reply.push(0x3A);
        push_decimal(&mut reply, self.sync_count);
        assert(reply@ =~= sync_message(self.local_id@, self.sync_count));
        Ok(reply)
    }
    /// Synchronises with the first peer whose id is `peer_id`, stamped with the
    /// wall clock in seconds (see `sync_with_at`).
    pub fn sync_with(&mut self, peer_id: &str) -> (r: Result<Vec<u8>, QwartzError>)
        requires
            has_id(old(self)@.peers, peer_id@) ==> old(self)@.sync_count < u64::MAX,
        ensures
            !has_id(old(self)@.peers, peer_id@) ==> final(self)@ == old(self)@,
            !has_id(old(self)@.peers, peer_id@) ==> (r matches Err(QwartzError::SyncError(m)) && m@
                == "Peer not found"@),
            has_id(old(self)@.peers, peer_id@) ==> exists|i: int, now: u64|
                first_with_id(old(self)@.peers, peer_id@, i) && final(self)@ == (ZABSyncView {
                    peers: old(self)@.peers.update(i, #[trigger] synced_node(old(self)@.peers[i], now)),
                    sync_count: (old(self)@.sync_count + 1) as u64,
                    ..old(self)@
                }),
            has_id(old(self)@.peers, peer_id@) ==> (r matches Ok(m) && m@ == sync_message(
                old(self)@.local_id,
                (old(self)@.sync_count + 1) as u64,
            )),
    {
        let now = unix_seconds();
        self.sync_with_at(peer_id, now)
    }

    /// Marks every peer synchronised (stamped with the wall clock, each read on
    /// its own, and connected) and counts one synchronisation; returns the number
    /// of peers. The data is not sent anywhere.
    pub fn broadcast(&mut self, data: &[u8]) -> (r: Result<usize, QwartzError>)
        requires
            old(self)@.sync_count < u64::MAX,
        ensures
            r matches Ok(n) && n == old(self)@.peers.len(),
            final(self)@.local_id == old(self)@.local_id,
            final(self)@.sync_count == old(self)@.sync_count + 1,
            final(self)@.peers.len() == old(self)@.peers.len(),
            forall|j: int|
                0 <= j < old(self)@.peers.len() ==> synced_from(
                    #[trigger] final(self)@.peers[j],
                    old(self)@.peers[j],
                ),
    {
        let ghost all = node_views(self.peers@);
        let mut synced: usize = 0;
        let mut i: usize = 0;
        while i < self.peers.len()
            invariant
                i <= self.peers@.len(),
                synced == i,
                all.len() == self.peers@.len(),
                self.local_id == old(self).local_id,
                self.sync_count == old(self).sync_count,
                forall|j: int| i <= j < all.len() ==> node_views(self.peers@)[j] == all[j],
                all == node_views(old(self).peers@),
                forall|j: int|
                    0 <= j < i ==> synced_from(#[trigger] node_views(self.peers@)[j], all[j]),
            decreases self.peers.len() - i,
        {
            let ghost before = node_views(self.peers@);
            let now = unix_seconds();
            self.peers[i].last_sync = now;
            self.peers[i].connected = true;
            synced += 1;
            assert(node_views(self.peers@) =~= before.update(i as int, synced_node(all[i as int], now)));
            assert forall|j: int| 0 <= j < i + 1 implies synced_from(
                #[trigger] node_views(self.peers@)[j],
                all[j],
            ) by {
                if j < i {
                    assert(node_views(self.peers@)[j] == before[j]);
                } else {
                    assert(node_views(self.peers@)[j] == synced_node(all[j], now));
                }
            }
            i += 1;
        }
        self.sync_count += 1;
        Ok(synced)
    }

    /// Health check at time `now`: every peer whose last synchronisation lies more
    /// than 60 seconds back is marked disconnected (see `checked_peers`).
    pub fn check_health_at(&mut self, now: u64)
        requires
            all_synced_by(old(self)@.peers, now),
        ensures
            final(self)@ == (ZABSyncView { peers: checked_peers(old(self)@.peers, now), ..old(self)@ }),
    {
        let ghost all = node_views(self.peers@);
        let mut i: usize = 0;
        while i < self.peers.len()
            invariant
                i <= self.peers@.len(),
                all.len() == self.peers@.len(),
                all_synced_by(all, now),
                self.local_id == old(self).local_id,
                self.sync_count == old(self).sync_count,
                all == node_views(old(self).peers@),
                forall|j: int| i <= j < all.len() ==> node_views(self.peers@)[j] == all[j],
                forall|j: int| 0 <= j < i ==> node_views(self.peers@)[j] == checked_node(all[j], now),
            decreases self.peers.len() - i,
        {
            let ghost before = node_views(self.peers@);
            assert(before[i as int] == all[i as int]);
            assert(all[i as int].last_sync <= now);
            if now - self.peers[i].last_sync > 60 {
                self.peers[i].connected = false;
            }
            assert(node_views(self.peers@) =~= before.update(i as int, checked_node(all[i as int], now)));
            i += 1;
        }
        assert(node_views(self.peers@) =~= checked_peers(all, now));
    }

    /// Health check against the wall clock in seconds (see `check_health_at`).
    /// Where some peer was stamped later than the clock now reads, nothing changes.
    pub fn check_health(&mut self)
        ensures
            exists|now: u64|
                #![trigger all_synced_by(old(self)@.peers, now)]
                (all_synced_by(old(self)@.peers, now) && final(self)@ == (ZABSyncView {
                    peers: checked_peers(old(self)@.peers, now),
                    ..old(self)@
                })) || (!all_synced_by(old(self)@.peers, now) && final(self)@ == old(self)@),
    {
        let now = unix_seconds();
        let ghost all = node_views(self.peers@);
        let mut ok = true;
        let mut i: usize = 0;
        while i < self.peers.len()
            invariant
                i <= self.peers@.len(),
                all == node_views(self.peers@),
                ok == (forall|j: int| 0 <= j < i ==> #[trigger] all[j].last_sync <= now),
            decreases self.peers.len() - i,
        {
            let ghost was = ok;
            assert(all[i as int].last_sync == self.peers@[i as int].last_sync);
            if self.peers[i].last_sync > now {
                ok = false;
            }
            assert(ok == (forall|j: int| 0 <= j < i + 1 ==> #[trigger] all[j].last_sync <= now)) by {
                if was && ok {
                    assert forall|j: int| 0 <= j < i + 1 implies #[trigger] all[j].last_sync <= now by {
                        if j < i {
                            assert(0 <= j < i);
                        }
                    }
                }
            }
            i += 1;
        }
        if ok {
            self.check_health_at(now);
        }
        assert(all_synced_by(old(self)@.peers, now) == ok);
    }

    /// Statistics: the local id, the number of peers, of connected peers, and of
    /// synchronisations.
    pub fn stats(&self) -> (st: SyncStats)
        ensures
            st.local_id@ == self@.local_id,
            st.peer_count == self@.peers.len(),
            st.connected_count == connected_of(self@.peers).len(),
            st.sync_count == self@.sync_count,
    {
        let ghost all = node_views(self.peers@);
        let mut count: usize = 0;
        let mut i: usize = 0;
        while i < self.peers.len()
            invariant
                i <= self.peers@.len(),
                all == node_views(self.peers@),
                count == connected_of(all.subrange(0, i as int)).len(),
                count <= i,
            decreases self.peers.len() - i,
        {
            proof {
                reveal_with_fuel(Seq::<_>::filter, 1);
                assert(all.subrange(0, i + 1).drop_last() =~= all.subrange(0, i as int));
            }
            if self.peers[i].connected {
                count += 1;
            }
            i += 1;
        }
        assert(all.subrange(0, self.peers@.len() as int) =~= all);
        SyncStats {
            local_id: self.local_id.clone(),
            peer_count: self.peers.len(),
            connected_count: count,
            sync_count: self.sync_count,
        }
    }
}

/// Adding a peer adds one to the peer count, and one to the connected count
/// when the new peer is connected.
pub proof fn lemma_add_peer_counts(peers: Seq<SyncNodeView>, node: SyncNodeView)
    ensures
        peers.push(node).len() == peers.len() + 1,
        connected_of(peers.push(node)).len() == connected_of(peers).len() + if node.connected {
            1int
        } else {
            0int
        },
{
    reveal_with_fuel(Seq::<_>::filter, 1);
    assert(peers.push(node).drop_last() =~= peers);
}

/// Removing an id leaves no peer with that id, and keeps every other peer.
pub proof fn lemma_remove_peer(peers: Seq<SyncNodeView>, id: Seq<char>)
    ensures
        forall|k: int|
            0 <= k < without_id(peers, id).len() ==> (#[trigger] without_id(peers, id)[k]).id != id,
        forall|k: int|
            0 <= k < peers.len() && peers[k].id != id ==> without_id(peers, id).contains(
                #[trigger] peers[k],
            ),
{
    let pred = |p: SyncNodeView| p.id != id;
    assert forall|k: int| 0 <= k < without_id(peers, id).len() implies (#[trigger] without_id(
        peers,
        id,
    )[k]).id != id by {
        peers.lemma_filter_pred(pred, k);
    }
    assert forall|k: int| 0 <= k < peers.len() && peers[k].id != id implies without_id(
        peers,
        id,
    ).contains(#[trigger] peers[k]) by {
        peers.lemma_filter_contains(pred, k);
    }
}

/// A synchronisation leaves at least one peer connected: the one synchronised.
pub proof fn lemma_sync_connects(peers: Seq<SyncNodeView>, id: Seq<char>, i: int, now: u64)
    requires
        first_with_id(peers, id, i),
    ensures
        connected_of(peers.update(i, synced_node(peers[i], now))).len() >= 1,
{
    let after = peers.update(i, synced_node(peers[i], now));
    let pred = |p: SyncNodeView| p.connected;
    after.lemma_filter_contains(pred, i);
    let f = connected_of(after);
    assert(f.contains(after[i]));
}

/// A health check at `now` (every peer synchronised at `now` or before) keeps
/// every peer in place with its id, address, port and stamp, disconnects each
/// peer whose last synchronisation lies more than 60 seconds before `now`, and
/// leaves the connection of every other peer as it was.
pub proof fn lemma_health_check_disconnects_stale_peers(peers: Seq<SyncNodeView>, now: u64)
    requires
        all_synced_by(peers, now),
    ensures
        checked_peers(peers, now).len() == peers.len(),
        forall|j: int|
            0 <= j < peers.len() ==> {
                let q = #[trigger] checked_peers(peers, now)[j];
                &&& q.id == peers[j].id
                &&& q.address == peers[j].address
                &&& q.port == peers[j].port
                &&& q.last_sync == peers[j].last_sync
                &&& (now > peers[j].last_sync + 60 ==> !q.connected)
                &&& (now <= peers[j].last_sync + 60 ==> q.connected == peers[j].connected)
            },
{
    assert forall|j: int| 0 <= j < peers.len() implies {
        let q = #[trigger] checked_peers(peers, now)[j];
        &&& q.id == peers[j].id
        &&& q.address == peers[j].address
        &&& q.port == peers[j].port
        &&& q.last_sync == peers[j].last_sync
        &&& (now > peers[j].last_sync + 60 ==> !q.connected)
        &&& (now <= peers[j].last_sync + 60 ==> q.connected == peers[j].connected)
    } by {
        assert(peers[j].last_sync <= now);
    }
}

/// There are never more connected peers than peers.
pub proof fn lemma_connected_at_most_peers(peers: Seq<SyncNodeView>)
    ensures
        connected_of(peers).len() <= peers.len(),
{
    peers.lemma_filter_len(|p: SyncNodeView| p.connected);
}

} // verus!

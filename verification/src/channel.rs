//! Channel membership: the peers heard from in a channel, when they go
//! stale, and which commands to execute locally.

use vstd::prelude::*;
use crate::text::str_eq;

verus! {

/// A peer goes stale after this long without a heartbeat (milliseconds).
pub const STALE_AFTER_MS: u64 = 15000;

/// Milliseconds since the Unix epoch by the system clock, or 0 when the clock
/// is set before it. Nothing is claimed of the value: it is the time.
#[verifier::external_body]
pub(crate) fn clock_millis() -> (r: u64) {
    match std::time::SystemTime::now().duration_since(std::time::UNIX_EPOCH) {
        Ok(d) => d.as_millis() as u64,
        Err(_) => 0,
    }
}

/// A remote instance in the same channel.
#[derive(Debug)]
pub struct Peer {
    pub instance_id: String,
    /// Network address (`ip:port`).
    pub address: String,
    pub channel: String,
    /// When we last heard from it (milliseconds).
    pub last_seen: u64,
}

/// Stale at `now`: more than 15 s since it was last heard from.
pub open spec fn stale(p: Peer, now: u64) -> bool {
    now > p.last_seen && now - p.last_seen > STALE_AFTER_MS
}

impl Peer {
    /// A peer heard from at `now`.
    pub fn new_at(instance_id: String, address: String, channel: String, now: u64) -> (r: Self)
        ensures
            r.instance_id == instance_id && r.address == address && r.channel == channel
                && r.last_seen == now,
    {
        Peer { instance_id, address, channel, last_seen: now }
    }

    /// A peer heard from just now.
    pub fn new(instance_id: String, address: String, channel: String) -> (r: Self)
        ensures
            r.instance_id == instance_id && r.address == address && r.channel == channel,
    {
        Peer::new_at(instance_id, address, channel, clock_millis())
    }

    /// Whether no heartbeat came in the last 15 s before `now`.
    pub fn is_stale_at(&self, now: u64) -> (r: bool)
        ensures
            r == stale(*self, now),
    {
        now > self.last_seen && now - self.last_seen > STALE_AFTER_MS
    }

    /// Records a heartbeat at `now`.
    pub fn touch_at(&mut self, now: u64)
        ensures
            final(self).last_seen == now,
            final(self).instance_id == old(self).instance_id,
            final(self).address == old(self).address,
            final(self).channel == old(self).channel,
    {
        self.last_seen = now;
    }

    /// A copy of the peer.
    pub fn copy(&self) -> (r: Self)
        ensures
            r.instance_id@ == self.instance_id@ && r.address@ == self.address@ && r.channel@
                == self.channel@ && r.last_seen == self.last_seen,
    {
        Peer {
            instance_id: self.instance_id.clone(),
            address: self.address.clone(),
            channel: self.channel.clone(),
            last_seen: self.last_seen,
        }
    }
}

/// No two peers share an instance id.
pub open spec fn unique_ids(s: Seq<Peer>) -> bool {
    forall|i: int, j: int|
        0 <= i < s.len() && 0 <= j < s.len() && i != j ==> s[i].instance_id@ != s[j].instance_id@
}

/// The index of the peer with instance id `id`, if any.
pub open spec fn index_of(s: Seq<Peer>, id: Seq<char>) -> Option<int>
    decreases s.len(),
{
    if s.len() == 0 {
        None
    } else if s.last().instance_id@ == id {
        Some(s.len() - 1)
    } else {
        index_of(s.drop_last(), id)
    }
}

/// `peers` with peer `i` given the address `address` and heard from at `now`.
pub open spec fn refreshed(peers: Seq<Peer>, i: int, address: String, now: u64) -> Seq<Peer> {
    peers.update(i, Peer { address: address, last_seen: now, ..peers[i] })
}

pub proof fn lemma_index_of(s: Seq<Peer>, id: Seq<char>)
    ensures
        index_of(s, id) matches Some(i) ==> 0 <= i < s.len() && s[i].instance_id@ == id,
        index_of(s, id) is None ==> forall|j: int| 0 <= j < s.len() ==> s[j].instance_id@ != id,
    decreases s.len(),
{
    if s.len() > 0 {
        let t = s.drop_last();
        lemma_index_of(t, id);
        assert forall|j: int| 0 <= j < t.len() implies #[trigger] s[j] == t[j] by {}
    }
}

/// The peers not stale at `now`, in order.
pub open spec fn fresh_peers(s: Seq<Peer>, now: u64) -> Seq<Peer>
    decreases s.len(),
{
    if s.len() == 0 {
        Seq::empty()
    } else if stale(s.last(), now) {
        fresh_peers(s.drop_last(), now)
    } else {
        fresh_peers(s.drop_last(), now).push(s.last())
    }
}

/// The ids of the peers stale at `now`, in order.
pub open spec fn stale_ids(s: Seq<Peer>, now: u64) -> Seq<Seq<char>>
    decreases s.len(),
{
    if s.len() == 0 {
        Seq::empty()
    } else if stale(s.last(), now) {
        stale_ids(s.drop_last(), now).push(s.last().instance_id@)
    } else {
        stale_ids(s.drop_last(), now)
    }
}

/// `s` without the peer whose id is `id`.
pub open spec fn without_peer(s: Seq<Peer>, id: Seq<char>) -> Seq<Peer>
    decreases s.len(),
{
    if s.len() == 0 {
        Seq::empty()
    } else if s.last().instance_id@ == id {
        without_peer(s.drop_last(), id)
    } else {
        without_peer(s.drop_last(), id).push(s.last())
    }
}

/// Every peer of `fresh_peers` is fresh and comes from `s`.
pub proof fn lemma_fresh_peers(s: Seq<Peer>, now: u64)
    ensures
        forall|i: int|
            0 <= i < fresh_peers(s, now).len() ==> !stale(#[trigger] fresh_peers(s, now)[i], now)
                && s.contains(fresh_peers(s, now)[i]),
        fresh_peers(s, now).len() <= s.len(),
    decreases s.len(),
{
    if s.len() > 0 {
        let t = s.drop_last();
        lemma_fresh_peers(t, now);
        assert forall|i: int| 0 <= i < fresh_peers(s, now).len() implies !stale(
            #[trigger] fresh_peers(s, now)[i],
            now,
        ) && s.contains(fresh_peers(s, now)[i]) by {
            if i < fresh_peers(t, now).len() {
                assert(fresh_peers(s, now)[i] == fresh_peers(t, now)[i]);
                let k = choose|k: int| 0 <= k < t.len() && t[k] == fresh_peers(t, now)[i];
                assert(s[k] == t[k]);
            } else {
                assert(s[s.len() - 1] == s.last());
            }
        }
    }
}

/// Keeping a subsequence keeps ids unique.
pub proof fn lemma_fresh_unique(s: Seq<Peer>, now: u64)
    requires
        unique_ids(s),
    ensures
        unique_ids(fresh_peers(s, now)),
        forall|i: int|
            0 <= i < fresh_peers(s, now).len() ==> #[trigger] index_of(
                s,
                fresh_peers(s, now)[i].instance_id@,
            ) is Some,
    decreases s.len(),
{
    if s.len() > 0 {
        let t = s.drop_last();
        assert(unique_ids(t)) by {
            assert forall|i: int, j: int|
                0 <= i < t.len() && 0 <= j < t.len() && i != j implies t[i].instance_id@
                != t[j].instance_id@ by {
                assert(t[i] == s[i] && t[j] == s[j]);
            }
        }
        lemma_fresh_unique(t, now);
        lemma_fresh_peers(t, now);
        let f = fresh_peers(t, now);
        assert forall|i: int| 0 <= i < fresh_peers(s, now).len() implies #[trigger] index_of(
            s,
            fresh_peers(s, now)[i].instance_id@,
        ) is Some by {
            if i < f.len() {
                assert(fresh_peers(s, now)[i] == f[i]);
                lemma_index_of(t, f[i].instance_id@);
            }
        }
        if !stale(s.last(), now) {
            assert forall|i: int| 0 <= i < f.len() implies #[trigger] f[i].instance_id@
                != s.last().instance_id@ by {
                let k = choose|k: int| 0 <= k < t.len() && t[k] == f[i];
                assert(s[k] == t[k]);
                assert(s[s.len() - 1] == s.last());
            }
        }
    }
}

/// The peers of one channel.
#[derive(Debug)]
pub struct ChannelManager {
    pub instance_id: String,
    pub channel_name: String,
    pub peers: Vec<Peer>,
}

impl ChannelManager {
    /// The table's invariant: one entry per instance id.
    pub open spec fn wf(&self) -> bool {
        unique_ids(self.peers@)
    }

    /// A manager for `channel_name` with no peers.
    pub fn new(instance_id: String, channel_name: String) -> (r: Self)
        ensures
            r.wf(),
            r.instance_id == instance_id,
            r.channel_name == channel_name,
            r.peers@.len() == 0,
    {
        ChannelManager { instance_id, channel_name, peers: Vec::new() }
    }

    fn find(&self, id: &str) -> (r: Option<usize>)
        ensures
            match r {
                Some(i) => index_of(self.peers@, id@) == Some(i as int),
                None => index_of(self.peers@, id@) is None,
            },
    {
        let mut i: usize = self.peers.len();
        proof {
            assert(self.peers@.take(i as int) =~= self.peers@);
        }
        while i > 0
            invariant
                i <= self.peers@.len(),
                index_of(self.peers@, id@) == index_of(self.peers@.take(i as int), id@),
            decreases i,
        {
            let ghost t = self.peers@.take(i as int);
            assert(t.drop_last() =~= self.peers@.take(i - 1));
            assert(t.last() == self.peers@[i - 1]);
            if str_eq(self.peers[i - 1].instance_id.as_str(), id) {
                return Some(i - 1);
            }
            i = i - 1;
        }
        None
    }

    /// Adds a peer heard from at `now`, or, for a known instance, refreshes
    /// its heartbeat and address.
    pub fn add_peer_at(&mut self, peer: Peer, now: u64)
        requires
            old(self).wf(),
        ensures
            final(self).wf(),
            final(self).instance_id == old(self).instance_id,
            final(self).channel_name == old(self).channel_name,
            match index_of(old(self).peers@, peer.instance_id@) {
                Some(i) => final(self).peers@ == old(self).peers@.update(
                    i,
                    Peer { address: peer.address, last_seen: now, ..old(self).peers@[i] },
                ),
                None => final(self).peers@ == old(self).peers@.push(peer),
            },
    {
        proof {
            lemma_index_of(self.peers@, peer.instance_id@);
        }
        match self.find(peer.instance_id.as_str()) {
            Some(i) => {
                let mut existing = self.peers.remove(i);
                existing.touch_at(now);
                existing.address = peer.address;
                self.peers.insert(i, existing);
                proof {
                    let s = self.peers@;
                    assert forall|a: int, b: int|
                        0 <= a < s.len() && 0 <= b < s.len() && a != b implies s[a].instance_id@
                        != s[b].instance_id@ by {
                        assert(s[a].instance_id@ == old(self).peers@[a].instance_id@);
                        assert(s[b].instance_id@ == old(self).peers@[b].instance_id@);
                    }
                }
            },
            None => {
                self.peers.push(peer);
            },
        }
    }

    /// Adds or refreshes a peer, stamped now.
    pub fn add_peer(&mut self, peer: Peer)
        requires
            old(self).wf(),
        ensures
            final(self).wf(),
            index_of(old(self).peers@, peer.instance_id@) is None ==> final(self).peers@ == old(
                self,
            ).peers@.push(peer),
            final(self).instance_id == old(self).instance_id,
            final(self).channel_name == old(self).channel_name,
            match index_of(old(self).peers@, peer.instance_id@) {
                Some(i) => exists|now: u64|
                    final(self).peers@ == #[trigger] refreshed(old(self).peers@, i, peer.address, now),
                None => final(self).peers@ == old(self).peers@.push(peer),
            },
    {
        proof {
            lemma_index_of(self.peers@, peer.instance_id@);
        }
        let ghost address = peer.address;
        let ghost id = peer.instance_id@;
        let now = clock_millis();
        self.add_peer_at(peer, now);
        proof {
            match index_of(old(self).peers@, id) {
                Some(i) => {
                    assert(self.peers@ == refreshed(old(self).peers@, i, address, now));
                },
                None => {},
            }
        }
    }

    /// Forgets the peer with instance id `id`.
    pub fn remove_peer(&mut self, id: &str)
        requires
            old(self).wf(),
        ensures
            final(self).wf(),
            final(self).instance_id == old(self).instance_id,
            final(self).channel_name == old(self).channel_name,
            match index_of(old(self).peers@, id@) {
                Some(i) => final(self).peers@ == old(self).peers@.remove(i),
                None => final(self).peers@ == old(self).peers@,
            },
            forall|j: int| 0 <= j < final(self).peers@.len() ==> (#[trigger] final(self).peers@[j]).instance_id@ != id@,
    {
        proof {
            lemma_index_of(self.peers@, id@);
        }
        match self.find(id) {
            Some(i) => {
                let ghost before = self.peers@;
                self.peers.remove(i);
                proof {
                    assert forall|j: int| 0 <= j < self.peers@.len() implies (#[trigger] self.peers@[j]).instance_id@ != id@ by {
                        if j < i {
                            assert(self.peers@[j] == before[j]);
                        } else {
                            assert(self.peers@[j] == before[j + 1]);
                        }
                    }
                    let s = self.peers@;
                    assert forall|a: int, b: int|
                        0 <= a < s.len() && 0 <= b < s.len() && a != b implies s[a].instance_id@
                        != s[b].instance_id@ by {
                        let oa = if a < i { a } else { a + 1 };
                        let ob = if b < i { b } else { b + 1 };
                        assert(s[a] == before[oa]);
                        assert(s[b] == before[ob]);
                    }
                }
            },
            None => {},
        }
    }

    /// Records a heartbeat of the peer with instance id `id` at `now`.
    pub fn touch_peer_at(&mut self, id: &str, now: u64)
        requires
            old(self).wf(),
        ensures
            final(self).wf(),
            match index_of(old(self).peers@, id@) {
                Some(i) => final(self).peers@ == old(self).peers@.update(
                    i,
                    Peer { last_seen: now, ..old(self).peers@[i] },
                ),
                None => final(self).peers@ == old(self).peers@,
            },
    {
        proof {
            lemma_index_of(self.peers@, id@);
        }
        match self.find(id) {
            Some(i) => {
                let mut p = self.peers.remove(i);
                p.touch_at(now);
                self.peers.insert(i, p);
                proof {
                    let s = self.peers@;
                    assert forall|a: int, b: int|
                        0 <= a < s.len() && 0 <= b < s.len() && a != b implies s[a].instance_id@
                        != s[b].instance_id@ by {
                        assert(s[a].instance_id@ == old(self).peers@[a].instance_id@);
                        assert(s[b].instance_id@ == old(self).peers@[b].instance_id@);
                    }
                }
            },
            None => {},
        }
    }

    /// Whether a command from instance `origin_id` should run here: only
    /// when it did not come from this instance.
    pub fn should_execute(&self, origin_id: &str) -> (r: bool)
        ensures
            r == (origin_id@ != self.instance_id@),
    {
        !str_eq(origin_id, self.instance_id.as_str())
    }

    /// The addresses of the peers not stale at `now`, in table order.
    pub fn get_peer_addresses_at(&self, now: u64) -> (r: Vec<String>)
        ensures
            r@.map_values(|s: String| s@) == fresh_peers(self.peers@, now).map_values(
                |p: Peer| p.address@,
            ),
    {
        let mut out: Vec<String> = Vec::new();
        let mut i: usize = 0;
        while i < self.peers.len()
            invariant
                i <= self.peers@.len(),
                out@.map_values(|s: String| s@) == fresh_peers(
                    self.peers@.take(i as int),
                    now,
                ).map_values(|p: Peer| p.address@),
            decreases self.peers.len() - i,
        {
            let ghost t = self.peers@.take(i + 1);
            assert(t.drop_last() =~= self.peers@.take(i as int));
            assert(t.last() == self.peers@[i as int]);
            let ghost before = out@.map_values(|s: String| s@);
            if !self.peers[i].is_stale_at(now) {
                out.push(self.peers[i].address.clone());
                assert(out@.map_values(|s: String| s@) =~= before.push(self.peers@[i as int].address@));
                assert(fresh_peers(t, now).map_values(|p: Peer| p.address@) =~= fresh_peers(
                    self.peers@.take(i as int),
                    now,
                ).map_values(|p: Peer| p.address@).push(self.peers@[i as int].address@));
            }
            i = i + 1;
        }
        assert(self.peers@.take(self.peers@.len() as int) =~= self.peers@);
        out
    }

    /// Copies of all peers.
    pub fn get_peers(&self) -> (r: Vec<Peer>)
        ensures
            r@.len() == self.peers@.len(),
            forall|i: int|
                0 <= i < r@.len() ==> (#[trigger] r@[i]).instance_id@ == self.peers@[i].instance_id@
                    && r@[i].address@ == self.peers@[i].address@ && r@[i].channel@
                    == self.peers@[i].channel@ && r@[i].last_seen == self.peers@[i].last_seen,
    {
        let mut out: Vec<Peer> = Vec::new();
        let mut i: usize = 0;
        while i < self.peers.len()
            invariant
                i <= self.peers@.len(),
                out@.len() == i,
                forall|j: int|
                    0 <= j < i ==> (#[trigger] out@[j]).instance_id@ == self.peers@[j].instance_id@
                        && out@[j].address@ == self.peers@[j].address@ && out@[j].channel@
                        == self.peers@[j].channel@ && out@[j].last_seen == self.peers@[j].last_seen,
            decreases self.peers.len() - i,
        {
            out.push(self.peers[i].copy());
            i = i + 1;
        }
        out
    }

    /// Removes the peers stale at `now`; returns their ids.
    pub fn prune_stale_peers_at(&mut self, now: u64) -> (r: Vec<String>)
        requires
            old(self).wf(),
        ensures
            final(self).wf(),
            final(self).peers@ == fresh_peers(old(self).peers@, now),
            r@.map_values(|s: String| s@) == stale_ids(old(self).peers@, now),
            final(self).instance_id == old(self).instance_id,
            final(self).channel_name == old(self).channel_name,
    {
        let ghost before = self.peers@;
        let mut kept: Vec<Peer> = Vec::new();
        let mut removed: Vec<String> = Vec::new();
        let mut rest: Vec<Peer> = Vec::new();
        // Take the peers out in reverse, then walk them front to back.
        while self.peers.len() > 0
            invariant
                self.peers@.len() + rest@.len() == before.len(),
                self.instance_id == old(self).instance_id,
                self.channel_name == old(self).channel_name,
                forall|j: int| 0 <= j < self.peers@.len() ==> self.peers@[j] == before[j],
                forall|j: int|
                    0 <= j < rest@.len() ==> #[trigger] rest@[j] == before[before.len() - 1 - j],
            decreases self.peers@.len(),
        {
            let p = self.peers.pop().unwrap();
            rest.push(p);
        }
        let n = rest.len();
        let mut k: usize = 0;
        while rest.len() > 0
            invariant
                k + rest@.len() == n,
                n == before.len(),
                self.instance_id == old(self).instance_id,
                self.channel_name == old(self).channel_name,
                forall|j: int|
                    0 <= j < rest@.len() ==> #[trigger] rest@[j] == before[before.len() - 1 - j],
                kept@ == fresh_peers(before.take(k as int), now),
                removed@.map_values(|s: String| s@) == stale_ids(before.take(k as int), now),
            decreases rest@.len(),
        {
            let p = rest.pop().unwrap();
            proof {
                assert(p == before[k as int]);
                assert(before.take(k + 1).drop_last() =~= before.take(k as int));
                assert(before.take(k + 1).last() == before[k as int]);
            }
            if p.is_stale_at(now) {
                let ghost rv = removed@.map_values(|s: String| s@);
                removed.push(p.instance_id);
                assert(removed@.map_values(|s: String| s@) =~= rv.push(before[k as int].instance_id@));
            } else {
                kept.push(p);
            }
            k = k + 1;
        }
        proof {
            assert(before.take(n as int) =~= before);
            lemma_fresh_unique(before, now);
        }
        self.peers = kept;
        removed
    }

    /// Removes the peers that went stale; returns their ids.
    pub fn prune_stale_peers(&mut self) -> (r: Vec<String>)
        requires
            old(self).wf(),
        ensures
            final(self).wf(),
            exists|now: u64|
                final(self).peers@ == fresh_peers(old(self).peers@, now) && r@.map_values(
                    |s: String| s@,
                ) == stale_ids(old(self).peers@, now),
    {
        let now = clock_millis();
        self.prune_stale_peers_at(now)
    }

    /// Moves to another channel; the peers of the old one are forgotten.
    pub fn set_channel_name(&mut self, name: String)
        ensures
            final(self).wf(),
            final(self).channel_name == name,
            final(self).instance_id == old(self).instance_id,
            final(self).peers@.len() == 0,
    {
        self.channel_name = name;
        self.peers = Vec::new();
    }
}

/// After pruning, no peer left is stale, every one left was there before,
/// and ids stay unique.
pub proof fn prune_leaves_no_stale(peers: Seq<Peer>, now: u64)
    requires
        unique_ids(peers),
    ensures
        forall|i: int|
            0 <= i < fresh_peers(peers, now).len() ==> !stale(#[trigger] fresh_peers(peers, now)[i], now)
                && peers.contains(fresh_peers(peers, now)[i]),
        unique_ids(fresh_peers(peers, now)),
{
    lemma_fresh_peers(peers, now);
    lemma_fresh_unique(peers, now);
}

} // verus!

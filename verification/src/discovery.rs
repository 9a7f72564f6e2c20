//! Peer discovery over mDNS: the service type, the numbering of the
//! instances found, and the table of discovered peers that the resolve and
//! remove events keep. The mDNS daemon itself belongs to the caller.

use vstd::prelude::*;
use crate::num::{parse_u16, spec_parse_u16};
use crate::split::{first_piece, first_piece_of};
use crate::text::{str_eq, to_owned_string};

verus! {

/// The mDNS service type of SherPresent instances.
pub const SERVICE_TYPE: &'static str = "_sher-present._udp.local.";

/// Protocol version advertised in TXT records.
pub const PROTOCOL_VERSION: &'static str = "1";

/// A network interface offered for mDNS advertisement.
#[derive(Debug)]
pub struct NetworkInterface {
    pub name: String,
    pub ip: String,
    pub is_loopback: bool,
}

/// An IPv4 address `a.b.c.d` is link-local when it is in 169.254.0.0/16.
pub fn is_link_local(octets: [u8; 4]) -> (r: bool)
    ensures
        r == (octets[0] == 169 && octets[1] == 254),
{
    octets[0] == 169 && octets[1] == 254
}

/// A peer found on the network.
#[derive(Debug)]
pub struct DiscoveredPeer {
    pub instance_id: String,
    pub display_name: Option<String>,
    /// Small number for easy reference (1, 2, 3...).
    pub display_id: u8,
    pub channel: String,
    pub host: String,
    pub port: u16,
    pub version: String,
    pub is_self: bool,
    /// Config API port (bridges only).
    pub config_port: Option<u16>,
}

/// Optional text as values.
pub open spec fn opt_text(o: Option<String>) -> Option<Seq<char>> {
    match o {
        Some(s) => Some(s@),
        None => None,
    }
}

/// A peer as values.
pub struct PeerView {
    pub instance_id: Seq<char>,
    pub display_name: Option<Seq<char>>,
    pub display_id: u8,
    pub channel: Seq<char>,
    pub host: Seq<char>,
    pub port: u16,
    pub version: Seq<char>,
    pub is_self: bool,
    pub config_port: Option<u16>,
}

pub open spec fn peer_view(p: DiscoveredPeer) -> PeerView {
    PeerView {
        instance_id: p.instance_id@,
        display_name: opt_text(p.display_name),
        display_id: p.display_id,
        channel: p.channel@,
        host: p.host@,
        port: p.port,
        version: p.version@,
        is_self: p.is_self,
        config_port: p.config_port,
    }
}

pub open spec fn peer_views(s: Seq<DiscoveredPeer>) -> Seq<PeerView> {
    s.map_values(|p: DiscoveredPeer| peer_view(p))
}

impl DiscoveredPeer {
    /// A copy of the peer.
    pub fn copy(&self) -> (r: Self)
        ensures
            peer_view(r) == peer_view(*self),
    {
        DiscoveredPeer {
            instance_id: self.instance_id.clone(),
            display_name: match &self.display_name {
                Some(n) => Some(n.clone()),
                None => None,
            },
            display_id: self.display_id,
            channel: self.channel.clone(),
            host: self.host.clone(),
            port: self.port,
            version: self.version.clone(),
            is_self: self.is_self,
            config_port: self.config_port,
        }
    }
}

/// What a resolved service advertises: its TXT properties (`None` when
/// absent), its addresses (each with whether it is IPv4) and its port.
#[derive(Debug)]
pub struct ResolvedService {
    pub instance: Option<String>,
    pub channel: Option<String>,
    pub version: Option<String>,
    pub name: Option<String>,
    pub config_port: Option<String>,
    pub addresses: Vec<(String, bool)>,
    pub port: u16,
}

/// The address a peer is reached at: the first IPv4 one, else the first
/// one, else none.
pub open spec fn chosen_host(addrs: Seq<(String, bool)>) -> Seq<char>
    decreases addrs.len(),
{
    if addrs.len() == 0 {
        Seq::empty()
    } else if addrs[0].1 {
        addrs[0].0@
    } else {
        let rest = chosen_host_v4(addrs.drop_first());
        match rest {
            Some(h) => h,
            None => addrs[0].0@,
        }
    }
}

/// The first IPv4 address, if any.
pub open spec fn chosen_host_v4(addrs: Seq<(String, bool)>) -> Option<Seq<char>>
    decreases addrs.len(),
{
    if addrs.len() == 0 {
        None
    } else if addrs[0].1 {
        Some(addrs[0].0@)
    } else {
        chosen_host_v4(addrs.drop_first())
    }
}

/// The text of an optional TXT value, or `fallback`.
pub open spec fn text_or(o: Option<String>, fallback: Seq<char>) -> Seq<char> {
    match o {
        Some(s) => s@,
        None => fallback,
    }
}

/// The smallest display id in 1..=255 that `used` does not hold, else 255.
pub open spec fn first_free_id(used: Seq<(String, u8)>) -> u8 {
    if exists|d: u8| 1 <= d && !ids_hold(used, d) {
        choose|d: u8|
            1 <= d && !ids_hold(used, d) && forall|e: u8| 1 <= e < d ==> ids_hold(used, e)
    } else {
        255
    }
}

/// Some entry of `used` holds display id `d`.
pub open spec fn ids_hold(used: Seq<(String, u8)>, d: u8) -> bool {
    exists|i: int| 0 <= i < used.len() && used[i].1 == d
}

/// The display id recorded for `id`, if any.
pub open spec fn recorded_id(used: Seq<(String, u8)>, id: Seq<char>) -> Option<u8>
    decreases used.len(),
{
    if used.len() == 0 {
        None
    } else if used.last().0@ == id {
        Some(used.last().1)
    } else {
        recorded_id(used.drop_last(), id)
    }
}

/// The table of display ids and discovered peers.
#[derive(Debug)]
pub struct PeerTable {
    pub our_instance_id: String,
    /// Display id assignments, kept after a peer leaves for stability.
    pub display_ids: Vec<(String, u8)>,
    /// Discovered peers, one per instance id.
    pub peers: Vec<DiscoveredPeer>,
}

/// No two peers share an instance id.
pub open spec fn unique_peer_ids(s: Seq<DiscoveredPeer>) -> bool {
    forall|i: int, j: int|
        0 <= i < s.len() && 0 <= j < s.len() && i != j ==> s[i].instance_id@ != s[j].instance_id@
}

/// `s` without the peer with instance id `id`.
pub open spec fn without(s: Seq<DiscoveredPeer>, id: Seq<char>) -> Seq<DiscoveredPeer>
    decreases s.len(),
{
    if s.len() == 0 {
        Seq::empty()
    } else if s.last().instance_id@ == id {
        without(s.drop_last(), id)
    } else {
        without(s.drop_last(), id).push(s.last())
    }
}

proof fn lemma_without(s: Seq<DiscoveredPeer>, id: Seq<char>)
    requires
        unique_peer_ids(s),
    ensures
        unique_peer_ids(without(s, id)),
        forall|i: int| 0 <= i < without(s, id).len() ==> (#[trigger] without(s, id)[i]).instance_id@ != id,
        forall|i: int| 0 <= i < without(s, id).len() ==> s.contains(#[trigger] without(s, id)[i]),
        forall|i: int| 0 <= i < s.len() && s[i].instance_id@ != id ==> without(s, id).contains(#[trigger] s[i]),
    decreases s.len(),
{
    if s.len() > 0 {
        let t = s.drop_last();
        assert(unique_peer_ids(t)) by {
            assert forall|i: int, j: int|
                0 <= i < t.len() && 0 <= j < t.len() && i != j implies t[i].instance_id@
                != t[j].instance_id@ by {
                assert(t[i] == s[i] && t[j] == s[j]);
            }
        }
        lemma_without(t, id);
        let w = without(t, id);
        assert forall|i: int| 0 <= i < w.len() implies s.contains(#[trigger] w[i]) by {
            let k = choose|k: int| 0 <= k < t.len() && t[k] == w[i];
            assert(s[k] == t[k]);
        }
        assert(s[s.len() - 1] == s.last());
        if s.last().instance_id@ != id {
            assert forall|i: int| 0 <= i < w.len() implies #[trigger] w[i].instance_id@
                != s.last().instance_id@ by {
                let k = choose|k: int| 0 <= k < t.len() && t[k] == w[i];
                assert(s[k] == t[k]);
            }
            let w2 = w.push(s.last());
            assert(w2[w.len() as int] == s.last());
            assert forall|i: int| 0 <= i < s.len() && s[i].instance_id@ != id implies w2.contains(
                #[trigger] s[i],
            ) by {
                if i < t.len() {
                    assert(t[i] == s[i]);
                    let k = choose|k: int| 0 <= k < w.len() && w[k] == t[i];
                    assert(w2[k] == w[k]);
                }
            }
        } else {
            assert forall|i: int| 0 <= i < s.len() && s[i].instance_id@ != id implies w.contains(
                #[trigger] s[i],
            ) by {
                assert(i < t.len());
                assert(t[i] == s[i]);
            }
        }
    }
}

impl PeerTable {
    /// The table's invariant: one peer per instance id, none of them us.
    pub open spec fn wf(&self) -> bool {
        &&& unique_peer_ids(self.peers@)
        &&& forall|i: int|
            0 <= i < self.peers@.len() ==> (#[trigger] self.peers@[i]).instance_id@
                != self.our_instance_id@
    }

    /// A table holding only our own display id, 1.
    pub fn new(our_instance_id: String) -> (r: Self)
        ensures
            r.wf(),
            r.our_instance_id == our_instance_id,
            r.peers@.len() == 0,
            recorded_id(r.display_ids@, our_instance_id@) == Some(1u8),
    {
        let mut ids: Vec<(String, u8)> = Vec::new();
        ids.push((our_instance_id.clone(), 1u8));
        PeerTable { our_instance_id, display_ids: ids, peers: Vec::new() }
    }

    fn id_in_use(&self, d: u8) -> (r: bool)
        ensures
            r == ids_hold(self.display_ids@, d),
    {
        let mut i: usize = 0;
        while i < self.display_ids.len()
            invariant
                i <= self.display_ids@.len(),
                forall|j: int| 0 <= j < i ==> self.display_ids@[j].1 != d,
            decreases self.display_ids.len() - i,
        {
            if self.display_ids[i].1 == d {
                return true;
            }
            i = i + 1;
        }
        false
    }

    fn recorded(&self, id: &str) -> (r: Option<u8>)
        ensures
            r == recorded_id(self.display_ids@, id@),
    {
        let mut i: usize = self.display_ids.len();
        proof {
            assert(self.display_ids@.take(i as int) =~= self.display_ids@);
        }
        while i > 0
            invariant
                i <= self.display_ids@.len(),
                recorded_id(self.display_ids@, id@) == recorded_id(
                    self.display_ids@.take(i as int),
                    id@,
                ),
            decreases i,
        {
            let ghost t = self.display_ids@.take(i as int);
            assert(t.drop_last() =~= self.display_ids@.take(i - 1));
            assert(t.last() == self.display_ids@[i - 1]);
            if str_eq(self.display_ids[i - 1].0.as_str(), id) {
                return Some(self.display_ids[i - 1].1);
            }
            i = i - 1;
        }
        None
    }

    /// The display id of instance `id`: the one recorded, else the smallest
    /// free one from 1 (255 when all are taken), which is then recorded.
    pub fn assign_display_id(&mut self, id: &str) -> (r: u8)
        ensures
            recorded_id(old(self).display_ids@, id@) matches Some(d) ==> r == d
                && final(self).display_ids@ == old(self).display_ids@,
            recorded_id(old(self).display_ids@, id@) is None ==> r == first_free_id(
                old(self).display_ids@,
            ) && views_push(final(self).display_ids@, old(self).display_ids@, id@, r),
            recorded_id(final(self).display_ids@, id@) == Some(r),
            final(self).peers@ == old(self).peers@,
            final(self).our_instance_id == old(self).our_instance_id,
    {
        if let Some(d) = self.recorded(id) {
            return d;
        }
        let mut d: u8 = 1;
        let mut found = false;
        while d < 255 && !found
            invariant
                1 <= d <= 255,
                found ==> !ids_hold(self.display_ids@, d),
                forall|e: u8| 1 <= e < d ==> ids_hold(self.display_ids@, e),
            decreases 255 - d + (if found { 0int } else { 1 }),
        {
            if self.id_in_use(d) {
                d = d + 1;
            } else {
                found = true;
            }
        }
        let new_id: u8 = if found || !self.id_in_use(255) {
            d
        } else {
            255
        };
        proof {
            if found || !ids_hold(self.display_ids@, 255) {
                assert(1 <= new_id && !ids_hold(self.display_ids@, new_id) && forall|e: u8|
                    1 <= e < new_id ==> ids_hold(self.display_ids@, e));
            } else {
                assert forall|e: u8| 1 <= e implies ids_hold(self.display_ids@, e) by {
                    if e < 255 {
                    } else {
                        assert(e == 255);
                    }
                }
            }
        }
        let ghost before = self.display_ids@;
        self.display_ids.push((to_owned_string(id), new_id));
        assert(self.display_ids@.drop_last() =~= before);
        new_id
    }

    /// Takes a resolved service. Our own instance and peers without an
    /// address are ignored (`false`); any other peer gets a display id and
    /// enters or replaces its entry in the table (`true`: listeners are to be
    /// told).
    pub fn on_resolved(&mut self, info: ResolvedService) -> (notify: bool)
        requires
            old(self).wf(),
        ensures
            final(self).wf(),
            final(self).our_instance_id == old(self).our_instance_id,
            ({
                let id = text_or(info.instance, Seq::empty());
                let host = chosen_host(info.addresses@);
                if id == old(self).our_instance_id@ || host.len() == 0 {
                    !notify && peer_views(final(self).peers@) == peer_views(old(self).peers@)
                } else {
                    &&& notify
                    &&& final(self).peers@.len() == without(old(self).peers@, id).len() + 1
                    &&& peer_views(final(self).peers@.drop_last()) == peer_views(
                        without(old(self).peers@, id),
                    )
                    &&& ({
                        let p = peer_view(final(self).peers@.last());
                        &&& p.instance_id == id
                        &&& p.display_name == opt_text(info.name)
                        &&& recorded_id(final(self).display_ids@, id) == Some(p.display_id)
                        &&& p.channel == text_or(info.channel, Seq::empty())
                        &&& p.host == host
                        &&& p.port == info.port
                        &&& p.version == text_or(info.version, PROTOCOL_VERSION@)
                        &&& !p.is_self
                        &&& p.config_port == (match info.config_port {
                            Some(t) => match spec_parse_u16(t@) {
                                Some(v) => Some(v as u16),
                                None => None,
                            },
                            None => None,
                        })
                    })
                }
            }),
    {
        let ResolvedService { instance, channel, version, name, config_port, addresses, port } =
            info;
        let instance_id = match instance {
            Some(s) => s,
            None => String::new(),
        };
        if str_eq(instance_id.as_str(), self.our_instance_id.as_str()) {
            return false;
        }
        let host = pick_host(&addresses);
        if host.as_str().unicode_len() == 0 {
            return false;
        }
        let channel = match channel {
            Some(s) => s,
            None => String::new(),
        };
        let version = match version {
            Some(s) => s,
            None => to_owned_string(PROTOCOL_VERSION),
        };
        let config_port = match config_port {
            Some(t) => parse_u16(t.as_str()),
            None => None,
        };
        let display_id = self.assign_display_id(instance_id.as_str());
        let ghost prior = self.peers@;
        self.remove_peer(instance_id.as_str());
        proof {
            lemma_without(prior, instance_id@);
        }
        let ghost kept = self.peers@;
        let peer = DiscoveredPeer {
            instance_id,
            display_name: name,
            display_id,
            channel,
            host,
            port,
            version,
            is_self: false,
            config_port,
        };
        self.peers.push(peer);
        proof {
            assert(self.peers@.drop_last() =~= kept);
            let s = self.peers@;
            assert forall|a: int, b: int|
                0 <= a < s.len() && 0 <= b < s.len() && a != b implies s[a].instance_id@
                != s[b].instance_id@ by {
                if a < kept.len() && b < kept.len() {
                    assert(s[a] == kept[a] && s[b] == kept[b]);
                } else if a < kept.len() {
                    assert(s[a] == kept[a]);
                } else {
                    assert(s[b] == kept[b]);
                }
            }
            assert forall|i: int| 0 <= i < s.len() implies (#[trigger] s[i]).instance_id@
                != self.our_instance_id@ by {
                if i < kept.len() {
                    assert(s[i] == kept[i]);
                }
            }
        }
        true
    }

    /// Forgets the peer with instance id `id`, keeping its display id.
    pub fn remove_peer(&mut self, id: &str)
        requires
            old(self).wf(),
        ensures
            final(self).wf(),
            final(self).peers@ == without(old(self).peers@, id@),
            final(self).display_ids@ == old(self).display_ids@,
            final(self).our_instance_id == old(self).our_instance_id,
    {
        let ghost before = self.peers@;
        let mut rest: Vec<DiscoveredPeer> = Vec::new();
        while self.peers.len() > 0
            invariant
                self.peers@.len() + rest@.len() == before.len(),
                forall|j: int| 0 <= j < self.peers@.len() ==> self.peers@[j] == before[j],
                forall|j: int|
                    0 <= j < rest@.len() ==> #[trigger] rest@[j] == before[before.len() - 1 - j],
                self.display_ids@ == old(self).display_ids@,
                self.our_instance_id == old(self).our_instance_id,
            decreases self.peers@.len(),
        {
            let p = self.peers.pop().unwrap();
            rest.push(p);
        }
        let n = rest.len();
        let mut k: usize = 0;
        let mut kept: Vec<DiscoveredPeer> = Vec::new();
        while rest.len() > 0
            invariant
                k + rest@.len() == n,
                n == before.len(),
                forall|j: int|
                    0 <= j < rest@.len() ==> #[trigger] rest@[j] == before[before.len() - 1 - j],
                kept@ == without(before.take(k as int), id@),
                self.display_ids@ == old(self).display_ids@,
                self.our_instance_id == old(self).our_instance_id,
            decreases rest@.len(),
        {
            let p = rest.pop().unwrap();
            proof {
                assert(p == before[k as int]);
                assert(before.take(k + 1).drop_last() =~= before.take(k as int));
                assert(before.take(k + 1).last() == before[k as int]);
            }
            if !str_eq(p.instance_id.as_str(), id) {
                kept.push(p);
            }
            k = k + 1;
        }
        proof {
            assert(before.take(n as int) =~= before);
            lemma_without(before, id@);
            let w = without(before, id@);
            assert forall|i: int| 0 <= i < w.len() implies (#[trigger] w[i]).instance_id@
                != self.our_instance_id@ by {
                let k2 = choose|k2: int| 0 <= k2 < before.len() && before[k2] == w[i];
            }
        }
        self.peers = kept;
    }

    /// Copies of the discovered peers, for listeners.
    pub fn peer_list(&self) -> (r: Vec<DiscoveredPeer>)
        ensures
            peer_views(r@) == peer_views(self.peers@),
    {
        let mut out: Vec<DiscoveredPeer> = Vec::new();
        let mut i: usize = 0;
        while i < self.peers.len()
            invariant
                i <= self.peers@.len(),
                peer_views(out@) == peer_views(self.peers@.take(i as int)),
            decreases self.peers.len() - i,
        {
            let ghost before = peer_views(out@);
            out.push(self.peers[i].copy());
            assert(peer_views(out@) =~= before.push(peer_view(self.peers@[i as int])));
            assert(peer_views(self.peers@.take(i + 1)) =~= peer_views(self.peers@.take(i as int)).push(
                peer_view(self.peers@[i as int]),
            ));
            i = i + 1;
        }
        assert(self.peers@.take(self.peers@.len() as int) =~= self.peers@);
        out
    }

    /// The discovered peers and `ourselves`, ordered by display id (stable).
    pub fn get_peers(&self, ourselves: DiscoveredPeer) -> (r: Vec<DiscoveredPeer>)
        ensures
            peer_views(r@) == sorted_by_display_id(peer_views(self.peers@).push(peer_view(ourselves))),
    {
        let mut list = self.peer_list();
        let ghost lv = peer_views(list@);
        list.push(ourselves);
        assert(peer_views(list@) =~= lv.push(peer_view(ourselves)));
        sort_by_display_id(list)
    }
}

/// Writing `(id, d)` after the entries of `before`.
pub open spec fn views_push(after: Seq<(String, u8)>, before: Seq<(String, u8)>, id: Seq<char>, d: u8) -> bool {
    after.len() == before.len() + 1 && after.drop_last() == before && after.last().0@ == id
        && after.last().1 == d
}

/// The first IPv4 address of a service, else its first address, else "".
pub fn pick_host(addrs: &Vec<(String, bool)>) -> (r: String)
    ensures
        r@ == chosen_host(addrs@),
{
    let mut i: usize = 0;
    proof {
        assert(addrs@.skip(0) =~= addrs@);
    }
    while i < addrs.len()
        invariant
            i <= addrs@.len(),
            forall|j: int| 0 <= j < i ==> !addrs@[j].1,
            chosen_host_v4(addrs@) == chosen_host_v4(addrs@.skip(i as int)),
        decreases addrs.len() - i,
    {
        proof {
            assert(addrs@.skip(i as int).drop_first() =~= addrs@.skip(i + 1));
            assert(addrs@.skip(i as int)[0] == addrs@[i as int]);
        }
        if addrs[i].1 {
            proof {
                lemma_chosen_host(addrs@);
            }
            return addrs[i].0.clone();
        }
        i = i + 1;
    }
    proof {
        lemma_chosen_host(addrs@);
        assert(addrs@.skip(i as int) =~= Seq::<(String, bool)>::empty());
    }
    if addrs.len() > 0 {
        addrs[0].0.clone()
    } else {
        String::new()
    }
}

proof fn lemma_chosen_host(addrs: Seq<(String, bool)>)
    ensures
        addrs.len() > 0 ==> chosen_host(addrs) == match chosen_host_v4(addrs) {
            Some(h) => h,
            None => addrs[0].0@,
        },
        addrs.len() == 0 ==> chosen_host(addrs).len() == 0,
{
}

/// Inserting `p` after every entry whose display id is at most its own.
pub open spec fn insert_by_id(sorted: Seq<PeerView>, p: PeerView) -> Seq<PeerView>
    decreases sorted.len(),
{
    if sorted.len() == 0 {
        seq![p]
    } else if sorted.last().display_id <= p.display_id {
        sorted.push(p)
    } else {
        insert_by_id(sorted.drop_last(), p).push(sorted.last())
    }
}

/// A stable sort by display id.
pub open spec fn sorted_by_display_id(s: Seq<PeerView>) -> Seq<PeerView>
    decreases s.len(),
{
    if s.len() == 0 {
        Seq::empty()
    } else {
        insert_by_id(sorted_by_display_id(s.drop_last()), s.last())
    }
}

/// Sorts peers by display id, keeping the order of equal ones.
pub fn sort_by_display_id(v: Vec<DiscoveredPeer>) -> (r: Vec<DiscoveredPeer>)
    ensures
        peer_views(r@) == sorted_by_display_id(peer_views(v@)),
{
    let ghost input = peer_views(v@);
    let mut rest = v;
    let mut stack: Vec<DiscoveredPeer> = Vec::new();
    let total_len: usize = rest.len();
    let ghost total = rest@.len();
    while rest.len() > 0
        invariant
            rest@.len() + stack@.len() == total,
            total == input.len(),
            forall|j: int| 0 <= j < rest@.len() ==> peer_view(rest@[j]) == input[j],
            forall|j: int|
                0 <= j < stack@.len() ==> #[trigger] peer_view(stack@[j]) == input[total - 1 - j],
        decreases rest@.len(),
    {
        let p = rest.pop().unwrap();
        stack.push(p);
    }
    let mut out: Vec<DiscoveredPeer> = Vec::new();
    let mut k: usize = 0;
    while stack.len() > 0
        invariant
            k + stack@.len() == total,
            total == input.len(),
            total == total_len,
            forall|j: int|
                0 <= j < stack@.len() ==> #[trigger] peer_view(stack@[j]) == input[total - 1 - j],
            peer_views(out@) == sorted_by_display_id(input.take(k as int)),
        decreases stack@.len(),
    {
        let p = stack.pop().unwrap();
        proof {
            assert(peer_view(p) == input[k as int]);
            assert(input.take(k + 1).drop_last() =~= input.take(k as int));
            assert(input.take(k + 1).last() == input[k as int]);
        }
        let mut pos: usize = out.len();
        proof {
            let o = peer_views(out@);
            assert(o.take(pos as int) =~= o);
            assert(o.skip(pos as int) =~= Seq::<PeerView>::empty());
            assert(insert_by_id(o, peer_view(p)) + Seq::<PeerView>::empty() =~= insert_by_id(
                o,
                peer_view(p),
            ));
        }
        while pos > 0 && out[pos - 1].display_id > p.display_id
            invariant
                pos <= out@.len(),
                insert_by_id(peer_views(out@), peer_view(p)) == insert_by_id(
                    peer_views(out@).take(pos as int),
                    peer_view(p),
                ) + peer_views(out@).skip(pos as int),
            decreases pos,
        {
            proof {
                let o = peer_views(out@);
                let t = o.take(pos as int);
                assert(t.drop_last() =~= o.take(pos - 1));
                assert(t.last() == o[pos - 1]);
                assert(o.skip(pos - 1) =~= seq![o[pos - 1]] + o.skip(pos as int));
                assert(insert_by_id(o.take(pos - 1), peer_view(p)).push(o[pos - 1]) + o.skip(
                    pos as int,
                ) =~= insert_by_id(o.take(pos - 1), peer_view(p)) + o.skip(pos - 1));
            }
            pos = pos - 1;
        }
        let ghost o = peer_views(out@);
        proof {
            let t = o.take(pos as int);
            if pos == 0 {
                assert(t =~= Seq::<PeerView>::empty());
            }
        }
        out.insert(pos, p);
        proof {
            let t = o.take(pos as int);
            assert(insert_by_id(t, peer_view(p)) =~= t.push(peer_view(p)));
            assert(peer_views(out@) =~= t.push(peer_view(p)) + o.skip(pos as int));
        }
        k = k + 1;
    }
    proof {
        assert(input.take(total as int) =~= input);
    }
    out
}

/// The display id of the first entry of a sorted list is the smallest, and
/// each entry's is at most the next one's.
pub open spec fn ordered_by_id(s: Seq<PeerView>) -> bool {
    forall|i: int, j: int| 0 <= i <= j < s.len() ==> s[i].display_id <= s[j].display_id
}

proof fn lemma_insert_by_id(sorted: Seq<PeerView>, p: PeerView)
    requires
        ordered_by_id(sorted),
    ensures
        ordered_by_id(insert_by_id(sorted, p)),
        insert_by_id(sorted, p).len() == sorted.len() + 1,
        insert_by_id(sorted, p).to_multiset() == sorted.to_multiset().insert(p),
    decreases sorted.len(),
{
    broadcast use vstd::seq_lib::group_to_multiset_ensures;

    if sorted.len() == 0 {
        assert(seq![p] =~= Seq::<PeerView>::empty().push(p));
    } else if sorted.last().display_id <= p.display_id {
    } else {
        let t = sorted.drop_last();
        assert(ordered_by_id(t));
        lemma_insert_by_id(t, p);
        let ins = insert_by_id(t, p);
        assert(sorted =~= t.push(sorted.last()));
        assert forall|i: int, j: int|
            0 <= i <= j < ins.len() + 1 implies #[trigger] ins.push(sorted.last())[i].display_id
            <= #[trigger] ins.push(sorted.last())[j].display_id by {
            if j == ins.len() {
                if i < ins.len() {
                    let x = ins[i];
                    assert(ins.to_multiset().count(x) > 0);
                    assert(t.push(p).to_multiset() =~= t.to_multiset().insert(p));
                    if x != p {
                        assert(t.to_multiset().count(x) > 0);
                        assert(t.contains(x));
                        let k = choose|k: int| 0 <= k < t.len() && t[k] == x;
                        assert(sorted[k] == t[k]);
                        assert(sorted[sorted.len() - 1] == sorted.last());
                    }
                }
            }
        }
    }
}

/// Sorting by display id orders the list and keeps its entries: the result
/// is ordered and holds exactly the same entries, as many times each.
pub proof fn sort_orders_and_permutes(s: Seq<PeerView>)
    ensures
        ordered_by_id(sorted_by_display_id(s)),
        sorted_by_display_id(s).to_multiset() == s.to_multiset(),
    decreases s.len(),
{
    broadcast use vstd::seq_lib::group_to_multiset_ensures;

    if s.len() > 0 {
        sort_orders_and_permutes(s.drop_last());
        lemma_insert_by_id(sorted_by_display_id(s.drop_last()), s.last());
        assert(s =~= s.drop_last().push(s.last()));
    }
}

/// The instance id in a service's full name (`<id>._sher-present._udp.local.`):
/// the text before the first dot.
pub fn instance_from_fullname(fullname: &str) -> (r: String)
    ensures
        r@ == first_piece(fullname@, '.', '.'),
{
    first_piece_of(fullname, '.', '.')
}

/// A display id given to a newcomer is held by no earlier entry, unless all
/// of 1..=255 were taken (then it is 255).
pub proof fn fresh_display_id_is_unused(used: Seq<(String, u8)>)
    ensures
        (exists|d: u8| 1 <= d && !ids_hold(used, d)) ==> !ids_hold(used, first_free_id(used))
            && first_free_id(used) >= 1,
        !(exists|d: u8| 1 <= d && !ids_hold(used, d)) ==> first_free_id(used) == 255,
{
    if exists|d: u8| 1 <= d && !ids_hold(used, d) {
        let w = choose|d: u8| 1 <= d && !ids_hold(used, d);
        lemma_least_free(used, w);
    }
}

proof fn lemma_least_free(used: Seq<(String, u8)>, w: u8)
    requires
        1 <= w,
        !ids_hold(used, w),
    ensures
        exists|d: u8|
            1 <= d && !ids_hold(used, d) && forall|e: u8| 1 <= e < d ==> ids_hold(used, e),
    decreases w,
{
    if exists|e: u8| 1 <= e < w && !ids_hold(used, e) {
        let e = choose|e: u8| 1 <= e < w && !ids_hold(used, e);
        lemma_least_free(used, e);
    } else {
        assert(1 <= w && !ids_hold(used, w) && forall|e: u8| 1 <= e < w ==> ids_hold(used, e));
    }
}

// ---------------------------------------------------------------------------
// Registration and interfaces
// ---------------------------------------------------------------------------

/// The host name advertised over mDNS: the machine's name with `.local.`.
pub fn mdns_hostname(host_name: &str) -> (r: String)
    ensures
        r@ == host_name@ + ".local."@,
{
    let mut r = to_owned_string(host_name);
    crate::text::push_str(&mut r, ".local.");
    r
}

/// The TXT properties of our registration: channel, protocol version,
/// instance id, and the display name (the host name when none is set).
pub open spec fn txt_properties(
    channel: Seq<char>,
    instance: Seq<char>,
    display_name: Option<Seq<char>>,
    host_name: Seq<char>,
) -> Seq<(Seq<char>, Seq<char>)> {
    let name = match display_name {
        Some(n) => n,
        None => host_name,
    };
    seq![("channel"@, channel), ("version"@, PROTOCOL_VERSION@), ("instance"@, instance), ("name"@, name)]
}

/// The TXT properties to register.
pub fn registration_properties(
    channel: &str,
    instance: &str,
    display_name: &Option<String>,
    host_name: &str,
) -> (r: Vec<(String, String)>)
    ensures
        r@.map_values(|p: (String, String)| (p.0@, p.1@)) == txt_properties(
            channel@,
            instance@,
            opt_text(*display_name),
            host_name@,
        ),
{
    let name = match display_name {
        Some(n) => n.clone(),
        None => to_owned_string(host_name),
    };
    let mut v: Vec<(String, String)> = Vec::new();
    v.push((to_owned_string("channel"), to_owned_string(channel)));
    v.push((to_owned_string("version"), to_owned_string(PROTOCOL_VERSION)));
    v.push((to_owned_string("instance"), to_owned_string(instance)));
    v.push((to_owned_string("name"), name));
    assert(v@.map_values(|p: (String, String)| (p.0@, p.1@)) =~= txt_properties(
        channel@,
        instance@,
        opt_text(*display_name),
        host_name@,
    ));
    v
}

/// Which interfaces mDNS advertises on.
#[derive(Debug, PartialEq, Eq)]
pub enum InterfaceChoice {
    All,
    Named(String),
}

/// A named interface, unless the setting is unset or `auto` (all of them).
pub fn interface_choice(network_interface: Option<String>) -> (r: InterfaceChoice)
    ensures
        match network_interface {
            Some(n) => if n@ == "auto"@ {
                r is All
            } else {
                r matches InterfaceChoice::Named(m) && m == n
            },
            None => r is All,
        },
{
    match network_interface {
        Some(n) => {
            if str_eq(n.as_str(), "auto") {
                InterfaceChoice::All
            } else {
                InterfaceChoice::Named(n)
            }
        },
        None => InterfaceChoice::All,
    }
}

/// The dotted text of an IPv4 address.
pub open spec fn dotted(o: [u8; 4]) -> Seq<char> {
    crate::text::decimal(o[0] as nat) + seq!['.'] + crate::text::decimal(o[1] as nat) + seq!['.']
        + crate::text::decimal(o[2] as nat) + seq!['.'] + crate::text::decimal(o[3] as nat)
}

/// An IPv4 interface offered for mDNS, unless its address is link-local.
pub fn ipv4_interface(name: String, octets: [u8; 4], is_loopback: bool) -> (r: Option<
    NetworkInterface,
>)
    ensures
        (octets[0] == 169 && octets[1] == 254) ==> r is None,
        !(octets[0] == 169 && octets[1] == 254) ==> (r matches Some(i) && i.name == name && i.ip@
            == dotted(octets) && i.is_loopback == is_loopback),
{
    if is_link_local(octets) {
        return None;
    }
    let mut ip = crate::text::u64_to_decimal(octets[0] as u64);
    crate::text::push_char(&mut ip, '.');
    let b = crate::text::u64_to_decimal(octets[1] as u64);
    crate::text::push_str(&mut ip, b.as_str());
    crate::text::push_char(&mut ip, '.');
    let c = crate::text::u64_to_decimal(octets[2] as u64);
    crate::text::push_str(&mut ip, c.as_str());
    crate::text::push_char(&mut ip, '.');
    let d = crate::text::u64_to_decimal(octets[3] as u64);
    crate::text::push_str(&mut ip, d.as_str());
    Some(NetworkInterface { name, ip, is_loopback })
}


/// The LAN address found for this machine, unless the lookup fell back to
/// the loopback address.
pub fn lan_ip(ip: String) -> (r: Option<String>)
    ensures
        ip@ == "127.0.0.1"@ ==> r is None,
        ip@ != "127.0.0.1"@ ==> r == Some(ip),
{
    if str_eq(ip.as_str(), "127.0.0.1") {
        None
    } else {
        Some(ip)
    }
}

/// `http://{ip}:{port}{path}`.
pub open spec fn page_url_text(ip: Seq<char>, port: u16, path: Seq<char>) -> Seq<char> {
    "http://"@ + ip + ":"@ + crate::text::decimal(port as nat) + path
}

/// The address of a page of the built-in web server: the server root with
/// an empty `path`, the caption overlay with `/captions`.
pub fn page_url(ip: &str, port: u16, path: &str) -> (r: String)
    ensures
        r@ == page_url_text(ip@, port, path@),
{
    let mut url = to_owned_string("http://");
    crate::text::push_str(&mut url, ip);
    crate::text::push_str(&mut url, ":");
    let d = crate::text::u64_to_decimal(port as u64);
    crate::text::push_str(&mut url, d.as_str());
    crate::text::push_str(&mut url, path);
    url
}

} // verus!

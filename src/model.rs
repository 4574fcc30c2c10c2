//! The shared traffic model: flows, per-application counters, resolved hosts
//! and the per-address resolution state, with the updates made per packet.
use vstd::prelude::*;

use std::collections::HashMap;

use crate::data_info::{sat_add, DataInfo, TrafficDirection};
use crate::frame::ConnectionKey;
use crate::tags::AppProtocol;

verus! {

broadcast use vstd::std_specs::hash::group_hash_axioms;

/// A resolved identity: reverse-DNS name, country code and autonomous system.
#[derive(Clone, Debug)]
pub struct Host {
    pub domain: String,
    pub country: String,
    pub asn: String,
}

/// The text of a host's three fields.
pub type HostView = (Seq<char>, Seq<char>, Seq<char>);

impl View for Host {
    type V = HostView;

    open spec fn view(&self) -> HostView {
        (self.domain@, self.country@, self.asn@)
    }
}

impl Host {
    /// Whether two hosts have the same three fields.
    pub fn same_as(&self, other: &Host) -> (r: bool)
        ensures
            r == (self@ == other@),
    {
        self.domain == other.domain && self.country == other.country && self.asn == other.asn
    }

    /// A copy of the host.
    pub fn duplicate(&self) -> (r: Host)
        ensures
            r@ == self@,
    {
        Host { domain: self.domain.clone(), country: self.country.clone(), asn: self.asn.clone() }
    }
}

/// Counters of a host: its traffic and the number of addresses folded into it.
#[derive(Clone, Copy, Debug, PartialEq, Eq, Structural)]
pub struct HostData {
    pub data: DataInfo,
    pub flow_count: u128,
}

/// A host with its counters.
#[derive(Clone, Debug)]
pub struct HostEntry {
    pub host: Host,
    pub stats: HostData,
}

/// The aggregate of one connection.
#[derive(Clone, Copy, Debug)]
pub struct FlowInfo {
    pub bytes: u128,
    pub packets: u128,
    pub first_seen: u64,
    pub last_seen: u64,
    pub direction: TrafficDirection,
    pub mac_source: [u8; 6],
    pub mac_destination: [u8; 6],
    pub app: AppProtocol,
}

/// The addresses that belong to the local device.
#[derive(Clone, Debug)]
pub struct LocalDevice {
    pub addresses: Vec<u128>,
}

/// What `note_address` found for an address.
#[derive(Clone, Copy, Debug, PartialEq, Eq, Structural)]
pub enum ResolutionState {
    FirstSight,
    AlreadyWaiting,
    AlreadyResolved,
}

/// The model as mathematical values.
pub struct ModelView {
    pub flows: Seq<(ConnectionKey, FlowInfo)>,
    pub app_protocols: Seq<(AppProtocol, DataInfo)>,
    pub hosts: Seq<(HostView, HostData)>,
    pub resolved: Map<u128, (Seq<char>, HostView)>,
    pub waiting: Map<u128, DataInfo>,
    pub all_packets: u128,
    pub all_bytes: u128,
    pub dropped_packets: u64,
    pub traffic: DataInfo,
}

/// The shared traffic model.
pub struct TrafficModel {
    pub flows: Vec<(ConnectionKey, FlowInfo)>,
    pub app_protocols: Vec<(AppProtocol, DataInfo)>,
    pub hosts: Vec<HostEntry>,
    pub addresses_resolved: HashMap<u128, (String, Host)>,
    pub addresses_waiting_resolution: HashMap<u128, DataInfo>,
    pub all_packets: u128,
    pub all_bytes: u128,
    pub dropped_packets: u64,
    pub traffic: DataInfo,
}

/// Position of the last entry with key `k`.
pub open spec fn find_key<K, V>(s: Seq<(K, V)>, k: K) -> Option<int>
    decreases s.len(),
{
    if s.len() == 0 {
        None
    } else if s.last().0 == k {
        Some(s.len() - 1)
    } else {
        find_key(s.drop_last(), k)
    }
}

/// Sets the entry of key `k` to `f(old value)`, or appends `(k, v)` where `k` is absent.
pub open spec fn upsert<K, V>(s: Seq<(K, V)>, k: K, f: spec_fn(V) -> V, v: V) -> Seq<(K, V)> {
    match find_key(s, k) {
        Some(i) => s.update(i, (k, f(s[i].1))),
        None => s.push((k, v)),
    }
}

/// Direction of a packet between `source` and `destination`, decided from the
/// local addresses: multicast and broadcast by the destination, else outgoing
/// when the source is local and incoming otherwise.
pub open spec fn spec_direction(source: u128, destination: u128, local: Seq<u128>) -> TrafficDirection {
    if is_multicast(destination) {
        TrafficDirection::Multicast
    } else if is_broadcast(destination) {
        TrafficDirection::Broadcast
    } else if local.contains(source) {
        TrafficDirection::Outgoing
    } else {
        TrafficDirection::Incoming
    }
}

/// An IPv4 multicast address (`224.0.0.0/4`, mapped) or an IPv6 one (`ff00::/8`).
pub open spec fn is_multicast(a: u128) -> bool {
    (0xffff_e000_0000 <= a && a <= 0xffff_efff_ffff) || a >= 0xff00_0000_0000_0000_0000_0000_0000_0000
}

/// The IPv4 limited broadcast address, mapped.
pub open spec fn is_broadcast(a: u128) -> bool {
    a == 0xffff_ffff_ffff
}

/// The address on the far side of a connection in direction `dir`.
pub open spec fn remote_of(key: ConnectionKey, dir: TrafficDirection) -> u128 {
    if dir == TrafficDirection::Incoming {
        key.source
    } else {
        key.destination
    }
}

/// The flow record of a connection's first packet.
pub open spec fn first_flow(
    key: ConnectionKey,
    macs: ([u8; 6], [u8; 6]),
    bytes: u128,
    app: AppProtocol,
    now: u64,
    local: Seq<u128>,
) -> FlowInfo {
    FlowInfo {
        bytes,
        packets: 1,
        first_seen: now,
        last_seen: now,
        direction: spec_direction(key.source, key.destination, local),
        mac_source: macs.0,
        mac_destination: macs.1,
        app,
    }
}

/// A flow record after one more packet: its direction stays as first decided.
pub open spec fn flow_after(f: FlowInfo, bytes: u128, now: u64) -> FlowInfo {
    FlowInfo {
        bytes: sat_add(f.bytes, bytes as int),
        packets: sat_add(f.packets, 1),
        last_seen: now,
        ..f
    }
}

impl ModelView {
    /// The model before any packet.
    pub open spec fn empty() -> ModelView {
        ModelView {
            flows: Seq::empty(),
            app_protocols: Seq::empty(),
            hosts: Seq::empty(),
            resolved: Map::empty(),
            waiting: Map::empty(),
            all_packets: 0,
            all_bytes: 0,
            dropped_packets: 0,
            traffic: DataInfo::zero(),
        }
    }

    /// Whether an address has been seen: it waits for resolution or is resolved.
    pub open spec fn seen(self, a: u128) -> bool {
        self.waiting.contains_key(a) || self.resolved.contains_key(a)
    }

    /// The model's invariant: no address is both waiting and resolved, and a
    /// host is listed exactly when some resolved address names it.
    pub open spec fn wf(self) -> bool {
        resolution_wf(self.hosts, self.resolved, self.waiting)
    }

    /// Raw totals after a frame of `bytes` bytes, whatever became of it, with
    /// the capture's count of dropped packets.
    pub open spec fn spec_record_any(self, bytes: u128, dropped: Option<u64>) -> ModelView {
        ModelView {
            all_packets: sat_add(self.all_packets, 1),
            all_bytes: sat_add(self.all_bytes, bytes as int),
            dropped_packets: match dropped {
                Some(d) => if d > self.dropped_packets { d } else { self.dropped_packets },
                None => self.dropped_packets,
            },
            ..self
        }
    }

    /// Direction of a packet of connection `key`: the one stored with its
    /// flow, else the one decided now.
    pub open spec fn flow_direction(self, key: ConnectionKey, local: Seq<u128>) -> TrafficDirection {
        match find_key(self.flows, key) {
            Some(i) => self.flows[i].1.direction,
            None => spec_direction(key.source, key.destination, local),
        }
    }

    /// The model after a packet is merged into the flow of `key`.
    pub open spec fn spec_upsert_flow(
        self,
        key: ConnectionKey,
        macs: ([u8; 6], [u8; 6]),
        bytes: u128,
        app: AppProtocol,
        now: u64,
        local: Seq<u128>,
    ) -> ModelView {
        ModelView {
            flows: upsert(
                self.flows,
                key,
                |f: FlowInfo| flow_after(f, bytes, now),
                first_flow(key, macs, bytes, app, now, local),
            ),
            ..self
        }
    }

    /// Per-direction totals after a packet that passed the filters.
    pub open spec fn spec_account_matched(self, bytes: u128, dir: TrafficDirection) -> ModelView {
        ModelView { traffic: self.traffic.spec_add(bytes, dir), ..self }
    }

    /// The counters of an application protocol after one more packet.
    pub open spec fn spec_add_app(self, app: AppProtocol, bytes: u128, dir: TrafficDirection) -> ModelView {
        ModelView {
            app_protocols: upsert(
                self.app_protocols,
                app,
                |d: DataInfo| d.spec_add(bytes, dir),
                DataInfo::zero().spec_add(bytes, dir),
            ),
            ..self
        }
    }

    /// What `note_address` finds for address `a`.
    pub open spec fn spec_note_state(self, a: u128) -> ResolutionState {
        if self.resolved.contains_key(a) {
            ResolutionState::AlreadyResolved
        } else if self.waiting.contains_key(a) {
            ResolutionState::AlreadyWaiting
        } else {
            ResolutionState::FirstSight
        }
    }

    /// The model after a packet for remote address `a`: it goes to the host
    /// that `a` resolved to, else to the counters that wait for `a`'s
    /// resolution, which a first packet starts.
    pub open spec fn spec_note(self, a: u128, bytes: u128, dir: TrafficDirection) -> ModelView {
        if self.resolved.contains_key(a) {
            ModelView {
                hosts: update_existing(
                    self.hosts,
                    self.resolved[a].1,
                    |d: HostData| HostData { data: d.data.spec_add(bytes, dir), ..d },
                ),
                ..self
            }
        } else if self.waiting.contains_key(a) {
            ModelView { waiting: self.waiting.insert(a, self.waiting[a].spec_add(bytes, dir)), ..self }
        } else {
            ModelView { waiting: self.waiting.insert(a, DataInfo::zero().spec_add(bytes, dir)), ..self }
        }
    }

    /// The model after the resolution of a waiting address `a` to `host`: the
    /// address moves to the resolved ones and its counters into the host's,
    /// whose count of addresses grows by one. Otherwise nothing changes.
    pub open spec fn spec_promote(self, a: u128, rdns: Seq<char>, host: HostView) -> ModelView {
        if self.waiting.contains_key(a) && !self.resolved.contains_key(a) {
            let w = self.waiting[a];
            ModelView {
                waiting: self.waiting.remove(a),
                resolved: self.resolved.insert(a, (rdns, host)),
                hosts: upsert(
                    self.hosts,
                    host,
                    |d: HostData| HostData { data: d.data.spec_merge(w), flow_count: sat_add(d.flow_count, 1) },
                    HostData { data: w, flow_count: 1 },
                ),
                ..self
            }
        } else {
            self
        }
    }
}

/// The invariant of the resolution tables: no address is both waiting and
/// resolved, each resolved address names a listed host, and each listed host
/// is named by a resolved address.
pub open spec fn resolution_wf(
    hosts: Seq<(HostView, HostData)>,
    resolved: Map<u128, (Seq<char>, HostView)>,
    waiting: Map<u128, DataInfo>,
) -> bool {
    &&& forall|a: u128| !(#[trigger] waiting.contains_key(a) && resolved.contains_key(a))
    &&& forall|a: u128| #[trigger] resolved.contains_key(a) ==> find_key(hosts, resolved[a].1).is_some()
    &&& forall|i: int|
        0 <= i < hosts.len() ==> exists|a: u128| #[trigger]
            resolved.contains_key(a) && resolved[a].1 == (#[trigger] hosts[i]).0
}

/// Sets the entry of key `k`, where there is one, to `f(old value)`.
pub open spec fn update_existing<K, V>(s: Seq<(K, V)>, k: K, f: spec_fn(V) -> V) -> Seq<(K, V)> {
    match find_key(s, k) {
        Some(i) => s.update(i, (k, f(s[i].1))),
        None => s,
    }
}

impl TrafficModel {
    /// The model as mathematical values.
    pub open spec fn view(&self) -> ModelView {
        ModelView {
            flows: self.flows@,
            app_protocols: self.app_protocols@,
            hosts: self.hosts@.map_values(|e: HostEntry| (e.host@, e.stats)),
            resolved: self.addresses_resolved@.map_values(|v: (String, Host)| (v.0@, v.1@)),
            waiting: self.addresses_waiting_resolution@,
            all_packets: self.all_packets,
            all_bytes: self.all_bytes,
            dropped_packets: self.dropped_packets,
            traffic: self.traffic,
        }
    }

    /// An empty model.
    pub fn new() -> (r: TrafficModel)
        ensures
            r.view() == ModelView::empty(),
            r.view().wf(),
    {
        let r = TrafficModel {
            flows: Vec::new(),
            app_protocols: Vec::new(),
            hosts: Vec::new(),
            addresses_resolved: HashMap::new(),
            addresses_waiting_resolution: HashMap::new(),
            all_packets: 0,
            all_bytes: 0,
            dropped_packets: 0,
            traffic: DataInfo::new(),
        };
        assert(r.view().hosts =~= Seq::empty());
        assert(r.view().resolved =~= Map::empty());
        r
    }

    /// Counts a frame in the raw totals, whatever becomes of it, and takes
    /// the capture's count of dropped packets where it has grown.
    pub fn record_any(&mut self, bytes: u128, dropped: Option<u64>)
        ensures
            final(self).view() == old(self).view().spec_record_any(bytes, dropped),
            final(self).view().wf() == old(self).view().wf(),
    {
        self.all_packets = self.all_packets.saturating_add(1);
        self.all_bytes = self.all_bytes.saturating_add(bytes);
        match dropped {
            Some(d) => {
                if d > self.dropped_packets {
                    self.dropped_packets = d;
                }
            },
            None => {},
        }
    }

    /// Counts a packet that passed the filters in the per-direction totals.
    pub fn account_matched(&mut self, bytes: u128, dir: TrafficDirection)
        ensures
            final(self).view() == old(self).view().spec_account_matched(bytes, dir),
            final(self).view().wf() == old(self).view().wf(),
    {
        self.traffic.add_packet(bytes, dir);
    }

    /// Merges a packet into the flow of `key`, or starts the flow, whose
    /// direction is then decided once from the local addresses. Returns the
    /// flow's direction.
    pub fn upsert_flow(
        &mut self,
        key: ConnectionKey,
        macs: ([u8; 6], [u8; 6]),
        bytes: u128,
        app: AppProtocol,
        now: u64,
        local: &LocalDevice,
    ) -> (r: TrafficDirection)
        ensures
            r == old(self).view().flow_direction(key, local.addresses@),
            final(self).view() == old(self).view().spec_upsert_flow(key, macs, bytes, app, now, local.addresses@),
            final(self).view().wf() == old(self).view().wf(),
    {
        match position_of(&self.flows, &key) {
            Some(i) => {
                let f = self.flows[i].1;
                let g = FlowInfo {
                    bytes: f.bytes.saturating_add(bytes),
                    packets: f.packets.saturating_add(1),
                    last_seen: now,
                    ..f
                };
                self.flows.set(i, (key, g));
                f.direction
            },
            None => {
                let dir = direction(key.source, key.destination, local);
                let f = FlowInfo {
                    bytes,
                    packets: 1,
                    first_seen: now,
                    last_seen: now,
                    direction: dir,
                    mac_source: macs.0,
                    mac_destination: macs.1,
                    app,
                };
                self.flows.push((key, f));
                dir
            },
        }
    }

    /// Records a packet for remote address `a` and says what was known of
    /// `a`. On a first sight `a` starts waiting for its resolution.
    pub fn note_address(&mut self, a: u128, bytes: u128, dir: TrafficDirection) -> (r: ResolutionState)
        requires
            old(self).view().wf(),
        ensures
            r == old(self).view().spec_note_state(a),
            final(self).view() == old(self).view().spec_note(a, bytes, dir),
            final(self).view().wf(),
    {
        let ghost v0 = self.view();
        if self.addresses_resolved.contains_key(&a) {
            let entry = self.addresses_resolved.get(&a);
            match entry {
                Some(e) => {
                    let ghost h = v0.resolved[a].1;
                    assert(e.1@ == h);
                    proof {
                        lemma_find_key_bounds(v0.hosts, h);
                    }
                    let pos = self.host_position(&e.1);
                    match pos {
                        Some(i) => {
                            let old_entry = &self.hosts[i];
                            let mut stats = old_entry.stats;
                            stats.data.add_packet(bytes, dir);
                            let host = old_entry.host.duplicate();
                            self.set_host(i, HostEntry { host, stats });
                        },
                        None => {},
                    }
                },
                None => {},
            }
            proof {
                lemma_note_wf(v0, a, bytes, dir);
            }
            ResolutionState::AlreadyResolved
        } else if self.addresses_waiting_resolution.contains_key(&a) {
            let mut d = match self.addresses_waiting_resolution.get(&a) {
                Some(d) => *d,
                None => DataInfo::new(),
            };
            d.add_packet(bytes, dir);
            self.addresses_waiting_resolution.insert(a, d);
            proof {
                lemma_note_wf(v0, a, bytes, dir);
            }
            ResolutionState::AlreadyWaiting
        } else {
            self.addresses_waiting_resolution.insert(a, DataInfo::new_with_first_packet(bytes, dir));
            proof {
                lemma_note_wf(v0, a, bytes, dir);
            }
            ResolutionState::FirstSight
        }
    }

    /// Moves a waiting address `a` to the resolved ones, with its reverse-DNS
    /// text and host, and folds its counters into the host's. Returns whether
    /// `a` was waiting; where it was not, nothing changes.
    pub fn promote_resolution(&mut self, a: u128, rdns: String, host: Host) -> (r: bool)
        requires
            old(self).view().wf(),
        ensures
            r == old(self).view().waiting.contains_key(a),
            final(self).view() == old(self).view().spec_promote(a, rdns@, host@),
            final(self).view().wf(),
    {
        let ghost v0 = self.view();
        let w = match self.addresses_waiting_resolution.remove(&a) {
            Some(w) => w,
            None => {
                assert(self.view().waiting =~= v0.waiting);
                assert(self.view().resolved =~= v0.resolved);
                return false;
            },
        };
        let pos = self.host_position(&host);
        let ghost hv = host@;
        match pos {
            Some(i) => {
                let mut stats = self.hosts[i].stats;
                stats.data.merge(&w);
                stats.flow_count = stats.flow_count.saturating_add(1);
                let h2 = host.duplicate();
                self.set_host(i, HostEntry { host: h2, stats });
            },
            None => {
                let h2 = host.duplicate();
                let ghost before = self.view().hosts;
                self.hosts.push(HostEntry { host: h2, stats: HostData { data: w, flow_count: 1 } });
                assert(self.view().hosts =~= before.push((hv, HostData { data: w, flow_count: 1 })));
            },
        }
        self.addresses_resolved.insert(a, (rdns, host));
        proof {
            let v1 = self.view();
            assert(v1.waiting =~= v0.waiting.remove(a));
            assert(v1.resolved =~= v0.resolved.insert(a, (rdns@, hv)));
            assert(v1 == v0.spec_promote(a, rdns@, hv));
            lemma_promote_wf(v0, a, rdns@, hv);
        }
        true
    }

    /// Finds the entry of a host.
    fn host_position(&self, host: &Host) -> (r: Option<usize>)
        ensures
            r.is_some() == find_key(self.view().hosts, host@).is_some(),
            r.is_some() ==> find_key(self.view().hosts, host@) == Some(r.unwrap() as int)
                && r.unwrap() < self.hosts@.len(),
    {
        let ghost hs = self.view().hosts;
        let mut i: usize = self.hosts.len();
        assert(hs.take(i as int) =~= hs);
        while i > 0
            invariant
                i <= self.hosts@.len(),
                hs == self.view().hosts,
                hs.len() == self.hosts@.len(),
                find_key(hs, host@) == find_key(hs.take(i as int), host@),
            decreases i,
        {
            assert(hs.take(i as int).drop_last() =~= hs.take(i - 1));
            assert(hs[i - 1].0 == self.hosts@[i - 1].host@);
            if self.hosts[i - 1].host.same_as(host) {
                return Some(i - 1);
            }
            i = i - 1;
        }
        None
    }

    /// Replaces the entry at `i`.
    fn set_host(&mut self, i: usize, e: HostEntry)
        requires
            i < old(self).hosts@.len(),
        ensures
            final(self).view() == (ModelView {
                hosts: old(self).view().hosts.update(i as int, (e.host@, e.stats)),
                ..old(self).view()
            }),
    {
        let ghost before = self.view().hosts;
        let ghost ev = (e.host@, e.stats);
        self.hosts.set(i, e);
        assert(self.view().hosts =~= before.update(i as int, ev));
    }

    /// Counts a packet for its application protocol.
    pub fn add_app_packet(&mut self, app: AppProtocol, bytes: u128, dir: TrafficDirection)
        ensures
            final(self).view() == old(self).view().spec_add_app(app, bytes, dir),
            final(self).view().wf() == old(self).view().wf(),
    {
        match app_position(&self.app_protocols, app) {
            Some(i) => {
                let mut d = self.app_protocols[i].1;
                d.add_packet(bytes, dir);
                self.app_protocols.set(i, (app, d));
            },
            None => {
                self.app_protocols.push((app, DataInfo::new_with_first_packet(bytes, dir)));
            },
        }
    }
}

pub(crate) proof fn lemma_promote_wf(v: ModelView, a: u128, rdns: Seq<char>, host: HostView)
    requires
        v.wf(),
        v.waiting.contains_key(a),
    ensures
        v.spec_promote(a, rdns, host).wf(),
{
    let w = v.waiting[a];
    let f = |d: HostData| HostData { data: d.data.spec_merge(w), flow_count: sat_add(d.flow_count, 1) };
    let n = v.spec_promote(a, rdns, host);
    lemma_find_key_upsert(v.hosts, host, f, HostData { data: w, flow_count: 1 });
    lemma_find_key_bounds(v.hosts, host);
    assert forall|b: u128| #[trigger] n.resolved.contains_key(b) implies find_key(n.hosts, n.resolved[b].1).is_some() by {
        if b != a {
            lemma_find_key_upsert_other(v.hosts, host, f, HostData { data: w, flow_count: 1 }, v.resolved[b].1);
        }
    }
    assert forall|i: int| 0 <= i < n.hosts.len() implies exists|b: u128| #[trigger]
        n.resolved.contains_key(b) && n.resolved[b].1 == (#[trigger] n.hosts[i]).0 by {
        if i < v.hosts.len() && n.hosts[i].0 == v.hosts[i].0 {
            let b = choose|b: u128| #[trigger] v.resolved.contains_key(b) && v.resolved[b].1 == v.hosts[i].0;
            assert(b != a);
            assert(n.resolved.contains_key(b) && n.resolved[b].1 == n.hosts[i].0);
        } else {
            assert(n.resolved.contains_key(a) && n.resolved[a].1 == n.hosts[i].0);
        }
    }
}

pub(crate) proof fn lemma_note_wf(v: ModelView, a: u128, bytes: u128, dir: TrafficDirection)
    requires
        v.wf(),
    ensures
        v.spec_note(a, bytes, dir).wf(),
{
    let n = v.spec_note(a, bytes, dir);
    if v.resolved.contains_key(a) {
        let h = v.resolved[a].1;
        lemma_find_key_bounds(v.hosts, h);
        let i = find_key(v.hosts, h).unwrap();
        let e = (h, HostData { data: v.hosts[i].1.data.spec_add(bytes, dir), ..v.hosts[i].1 });
        assert(n.hosts == v.hosts.update(i, e));
        assert forall|b: u128| #[trigger] n.resolved.contains_key(b) implies find_key(n.hosts, n.resolved[b].1).is_some() by {
            lemma_find_key_update(v.hosts, i, e, v.resolved[b].1);
        }
        assert forall|j: int| 0 <= j < n.hosts.len() implies exists|b: u128| #[trigger]
            n.resolved.contains_key(b) && n.resolved[b].1 == (#[trigger] n.hosts[j]).0 by {
            assert(n.hosts[j].0 == v.hosts[j].0);
        }
    }
}

pub(crate) proof fn lemma_find_key_bounds<K, V>(s: Seq<(K, V)>, k: K)
    ensures
        find_key(s, k) matches Some(i) ==> 0 <= i < s.len() && s[i].0 == k,
    decreases s.len(),
{
    if s.len() > 0 && s.last().0 != k {
        lemma_find_key_bounds(s.drop_last(), k);
    }
}

pub(crate) proof fn lemma_find_key_update<K, V>(s: Seq<(K, V)>, i: int, e: (K, V), k: K)
    requires
        0 <= i < s.len(),
        e.0 == s[i].0,
    ensures
        find_key(s.update(i, e), k) == find_key(s, k),
    decreases s.len(),
{
    let t = s.update(i, e);
    if s.len() > 0 {
        if i == s.len() - 1 {
            assert(t.drop_last() =~= s.drop_last());
        } else {
            assert(t.drop_last() =~= s.drop_last().update(i, e));
            lemma_find_key_update(s.drop_last(), i, e, k);
        }
    }
}

pub(crate) proof fn lemma_find_key_push<K, V>(s: Seq<(K, V)>, e: (K, V), k: K)
    ensures
        find_key(s.push(e), k) == if e.0 == k { Some(s.len() as int) } else { find_key(s, k) },
{
    assert(s.push(e).drop_last() =~= s);
}

pub(crate) proof fn lemma_find_key_upsert<K, V>(s: Seq<(K, V)>, k: K, f: spec_fn(V) -> V, v: V)
    ensures
        find_key(upsert(s, k, f, v), k).is_some(),
{
    lemma_find_key_bounds(s, k);
    match find_key(s, k) {
        Some(i) => lemma_find_key_update(s, i, (k, f(s[i].1)), k),
        None => lemma_find_key_push(s, (k, v), k),
    }
}

proof fn lemma_find_key_upsert_other<K, V>(s: Seq<(K, V)>, k: K, f: spec_fn(V) -> V, v: V, j: K)
    requires
        find_key(s, j).is_some(),
    ensures
        find_key(upsert(s, k, f, v), j).is_some(),
{
    lemma_find_key_bounds(s, k);
    match find_key(s, k) {
        Some(i) => lemma_find_key_update(s, i, (k, f(s[i].1)), j),
        None => lemma_find_key_push(s, (k, v), j),
    }
}

/// Finds the last flow of connection `key`.
fn position_of(s: &Vec<(ConnectionKey, FlowInfo)>, key: &ConnectionKey) -> (r: Option<usize>)
    ensures
        r.is_some() == find_key(s@, *key).is_some(),
        r.is_some() ==> find_key(s@, *key) == Some(r.unwrap() as int) && r.unwrap() < s@.len(),
{
    let mut i: usize = s.len();
    assert(s@.take(i as int) =~= s@);
    while i > 0
        invariant
            i <= s@.len(),
            find_key(s@, *key) == find_key(s@.take(i as int), *key),
        decreases i,
    {
        assert(s@.take(i as int).drop_last() =~= s@.take(i - 1));
        if s[i - 1].0 == *key {
            return Some(i - 1);
        }
        i = i - 1;
    }
    None
}

/// Finds the counters of application protocol `app`.
fn app_position(s: &Vec<(AppProtocol, DataInfo)>, app: AppProtocol) -> (r: Option<usize>)
    ensures
        r.is_some() == find_key(s@, app).is_some(),
        r.is_some() ==> find_key(s@, app) == Some(r.unwrap() as int) && r.unwrap() < s@.len(),
{
    let mut i: usize = s.len();
    assert(s@.take(i as int) =~= s@);
    while i > 0
        invariant
            i <= s@.len(),
            find_key(s@, app) == find_key(s@.take(i as int), app),
        decreases i,
    {
        assert(s@.take(i as int).drop_last() =~= s@.take(i - 1));
        if s[i - 1].0 == app {
            return Some(i - 1);
        }
        i = i - 1;
    }
    None
}

/// Decides the direction of a packet from the local addresses.
pub fn direction(source: u128, destination: u128, local: &LocalDevice) -> (r: TrafficDirection)
    ensures
        r == spec_direction(source, destination, local.addresses@),
{
    if 0xffff_e000_0000u128 <= destination && destination <= 0xffff_efff_ffffu128
        || destination >= 0xff00_0000_0000_0000_0000_0000_0000_0000u128 {
        return TrafficDirection::Multicast;
    }
    if destination == 0xffff_ffff_ffffu128 {
        return TrafficDirection::Broadcast;
    }
    let mut i: usize = 0;
    while i < local.addresses.len()
        invariant
            i <= local.addresses@.len(),
            !is_multicast(destination),
            !is_broadcast(destination),
            forall|j: int| 0 <= j < i ==> local.addresses@[j] != source,
        decreases local.addresses@.len() - i,
    {
        if local.addresses[i] == source {
            assert(local.addresses@.contains(source)) by {
                assert(local.addresses@[i as int] == source);
            }
            return TrafficDirection::Outgoing;
        }
        i = i + 1;
    }
    TrafficDirection::Incoming
}

} // verus!

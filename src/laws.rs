//! Laws of the capture pipeline, stated over the model's mathematical view.
use vstd::prelude::*;

use crate::capture::{
    spec_finish_model, spec_frame_action, spec_frame_model, spec_process, spec_replay, WorkerAction,
};
use crate::data_info::{DataInfo, TrafficDirection};
use crate::frame::{spec_analyze_frame, ConnectionKey, PacketInfo};
use crate::model::{
    find_key, lemma_find_key_upsert, lemma_note_wf, remote_of, FlowInfo, ModelView,
    ResolutionState,
};
use crate::tags::{AppProtocol, Filters};

verus! {

/// The sum of the lengths of the frames.
pub open spec fn total_len(frames: Seq<Seq<u8>>) -> int
    decreases frames.len(),
{
    if frames.len() == 0 {
        0
    } else {
        total_len(frames.drop_last()) + frames.last().len()
    }
}

/// The counters that packets decide, leaving out what the resolution of
/// addresses decides.
pub open spec fn packet_counters(v: ModelView) -> (
    Seq<(ConnectionKey, FlowInfo)>,
    Seq<(AppProtocol, DataInfo)>,
    u128,
    u128,
    u64,
    DataInfo,
) {
    (v.flows, v.app_protocols, v.all_packets, v.all_bytes, v.dropped_packets, v.traffic)
}

proof fn lemma_process_raw(v: ModelView, frame: Seq<u8>, filters: Filters, local: Seq<u128>, now: u64)
    requires
        v.all_packets + 1 <= u128::MAX,
        v.all_bytes + frame.len() <= u128::MAX,
    ensures
        spec_process(v, frame, filters, local, now, None).0.all_packets == v.all_packets + 1,
        spec_process(v, frame, filters, local, now, None).0.all_bytes == v.all_bytes + frame.len(),
{
}

/// Whatever the filters and the local addresses, after a sequence of frames
/// the packet total has grown by the number of frames and the byte total by
/// the sum of their lengths, where neither total reaches the largest `u128`.
pub proof fn lemma_replay_raw_totals(
    v: ModelView,
    frames: Seq<Seq<u8>>,
    filters: Filters,
    local: Seq<u128>,
    now: u64,
)
    requires
        v.all_packets + frames.len() <= u128::MAX,
        v.all_bytes + total_len(frames) <= u128::MAX,
    ensures
        spec_replay(v, frames, filters, local, now).all_packets == v.all_packets + frames.len(),
        spec_replay(v, frames, filters, local, now).all_bytes == v.all_bytes + total_len(frames),
    decreases frames.len(),
{
    if frames.len() > 0 {
        lemma_total_len_nonneg(frames.drop_last());
        lemma_replay_raw_totals(v, frames.drop_last(), filters, local, now);
        let w = spec_replay(v, frames.drop_last(), filters, local, now);
        lemma_process_raw(w, frames.last(), filters, local, now);
    }
}

proof fn lemma_total_len_nonneg(frames: Seq<Seq<u8>>)
    ensures
        total_len(frames) >= 0,
    decreases frames.len(),
{
    if frames.len() > 0 {
        lemma_total_len_nonneg(frames.drop_last());
    }
}

/// From the empty model, a sequence of frames leaves as many packets as
/// frames and as many bytes as their lengths add up to.
pub proof fn lemma_replay_from_empty(frames: Seq<Seq<u8>>, filters: Filters, local: Seq<u128>, now: u64)
    requires
        frames.len() <= u128::MAX,
        total_len(frames) <= u128::MAX,
    ensures
        spec_replay(ModelView::empty(), frames, filters, local, now).all_packets == frames.len(),
        spec_replay(ModelView::empty(), frames, filters, local, now).all_bytes == total_len(frames),
{
    lemma_replay_raw_totals(ModelView::empty(), frames, filters, local, now);
}

/// In a well-formed model an address that has been seen is either waiting
/// for its resolution or resolved, never both; processing a frame and
/// promoting a resolution keep every seen address seen and the model
/// well-formed.
pub proof fn lemma_resolution_exclusive(
    v: ModelView,
    a: u128,
    frame: Seq<u8>,
    filters: Filters,
    local: Seq<u128>,
    now: u64,
    dropped: Option<u64>,
    b: u128,
    rdns: Seq<char>,
    host: (Seq<char>, Seq<char>, Seq<char>),
)
    requires
        v.wf(),
    ensures
        v.seen(a) ==> (v.waiting.contains_key(a) != v.resolved.contains_key(a)),
        spec_process(v, frame, filters, local, now, dropped).0.wf(),
        v.seen(a) ==> spec_process(v, frame, filters, local, now, dropped).0.seen(a),
        v.waiting.contains_key(b) ==> v.spec_promote(b, rdns, host).wf(),
        v.seen(a) ==> v.spec_promote(b, rdns, host).seen(a),
{
    lemma_process_wf(v, frame, filters, local, now, dropped);
    if v.waiting.contains_key(b) {
        crate::model::lemma_promote_wf(v, b, rdns, host);
    }
}

proof fn lemma_process_wf(v: ModelView, frame: Seq<u8>, filters: Filters, local: Seq<u128>, now: u64, dropped: Option<u64>)
    requires
        v.wf(),
    ensures
        spec_process(v, frame, filters, local, now, dropped).0.wf(),
{
    match spec_analyze_frame(frame) {
        None => {},
        Some(p) => {
            if filters.spec_matches(p.tags) {
                let dir = v.flow_direction(p.key, local);
                let v2 = v.spec_upsert_flow(p.key, (p.mac_source, p.mac_destination), p.bytes, p.tags.application, now, local)
                    .spec_record_any(p.bytes, dropped).spec_account_matched(p.bytes, dir);
                lemma_note_wf(v2, remote_of(p.key, dir), p.bytes, dir);
            }
        },
    }
}

/// The number of first sights among `n` successive notes of address `a`,
/// and the model after them.
pub open spec fn note_run(v: ModelView, a: u128, bytes: u128, dir: TrafficDirection, n: nat) -> (ModelView, nat)
    decreases n,
{
    if n == 0 {
        (v, 0)
    } else {
        let (w, k) = note_run(v, a, bytes, dir, (n - 1) as nat);
        (w.spec_note(a, bytes, dir), if w.spec_note_state(a) == ResolutionState::FirstSight { k + 1 } else { k })
    }
}

/// Noting one address `n` times reports a first sight, which starts one
/// resolver, exactly once where it had not been seen, and never where it had.
pub proof fn lemma_note_address_once(v: ModelView, a: u128, bytes: u128, dir: TrafficDirection, n: nat)
    requires
        v.wf(),
    ensures
        note_run(v, a, bytes, dir, n).1 == if n > 0 && !v.seen(a) { 1nat } else { 0nat },
        note_run(v, a, bytes, dir, n).0.wf(),
        n > 0 ==> note_run(v, a, bytes, dir, n).0.seen(a),
    decreases n,
{
    if n > 0 {
        lemma_note_address_once(v, a, bytes, dir, (n - 1) as nat);
        let w = note_run(v, a, bytes, dir, (n - 1) as nat).0;
        lemma_note_wf(w, a, bytes, dir);
    }
}

/// A frame that does not decode to an IP packet over TCP or UDP counts in
/// the raw totals only: no flow, host, address or application counter
/// changes, and no resolver starts.
pub proof fn lemma_malformed_frame_raw_only(
    v: ModelView,
    frame: Seq<u8>,
    filters: Filters,
    local: Seq<u128>,
    now: u64,
    dropped: Option<u64>,
)
    requires
        spec_analyze_frame(frame).is_none(),
    ensures
        spec_process(v, frame, filters, local, now, dropped).0 == v.spec_record_any(frame.len() as u128, dropped),
        spec_process(v, frame, filters, local, now, dropped).0.flows == v.flows,
        spec_process(v, frame, filters, local, now, dropped).0.hosts == v.hosts,
        spec_process(v, frame, filters, local, now, dropped).0.waiting == v.waiting,
        spec_process(v, frame, filters, local, now, dropped).0.app_protocols == v.app_protocols,
        spec_process(v, frame, filters, local, now, dropped).1.is_none(),
{
}

/// A packet that passes the filters is accounted whatever the local
/// addresses hold, also where they hold its remote end: its connection has
/// a flow, its application has counters, its direction's totals grow, and
/// its remote address is seen.
pub proof fn lemma_packet_accounted(
    v: ModelView,
    frame: Seq<u8>,
    filters: Filters,
    local: Seq<u128>,
    now: u64,
    dropped: Option<u64>,
    p: PacketInfo,
)
    requires
        spec_analyze_frame(frame) == Some(p),
        filters.spec_matches(p.tags),
    ensures
        find_key(spec_process(v, frame, filters, local, now, dropped).0.flows, p.key).is_some(),
        find_key(spec_process(v, frame, filters, local, now, dropped).0.app_protocols, p.tags.application).is_some(),
        spec_process(v, frame, filters, local, now, dropped).0.traffic
            == v.traffic.spec_add(p.bytes, v.flow_direction(p.key, local)),
        spec_process(v, frame, filters, local, now, dropped).0.seen(remote_of(p.key, v.flow_direction(p.key, local))),
{
    let dir = v.flow_direction(p.key, local);
    let v1 = v.spec_upsert_flow(p.key, (p.mac_source, p.mac_destination), p.bytes, p.tags.application, now, local);
    lemma_find_key_upsert(
        v.flows,
        p.key,
        |f: FlowInfo| crate::model::flow_after(f, p.bytes, now),
        crate::model::first_flow(p.key, (p.mac_source, p.mac_destination), p.bytes, p.tags.application, now, local),
    );
    let v2 = v1.spec_record_any(p.bytes, dropped).spec_account_matched(p.bytes, dir);
    let v3 = v2.spec_note(remote_of(p.key, dir), p.bytes, dir);
    lemma_find_key_upsert(
        v3.app_protocols,
        p.tags.application,
        |d: DataInfo| d.spec_add(p.bytes, dir),
        DataInfo::zero().spec_add(p.bytes, dir),
    );
}

/// Two models whose packet counters agree, whatever their resolution
/// tables hold, still agree on them after the same frame.
pub proof fn lemma_process_counters_deterministic(
    v1: ModelView,
    v2: ModelView,
    frame: Seq<u8>,
    filters: Filters,
    local: Seq<u128>,
    now: u64,
    dropped: Option<u64>,
)
    requires
        packet_counters(v1) == packet_counters(v2),
    ensures
        packet_counters(spec_process(v1, frame, filters, local, now, dropped).0)
            == packet_counters(spec_process(v2, frame, filters, local, now, dropped).0),
{
}

/// Replaying the same frames with the same filters and local addresses
/// gives the same packet counters, whatever the resolution of addresses
/// did in between.
pub proof fn lemma_replay_counters_deterministic(
    v1: ModelView,
    v2: ModelView,
    frames: Seq<Seq<u8>>,
    filters: Filters,
    local: Seq<u128>,
    now: u64,
)
    requires
        packet_counters(v1) == packet_counters(v2),
    ensures
        packet_counters(spec_replay(v1, frames, filters, local, now))
            == packet_counters(spec_replay(v2, frames, filters, local, now)),
    decreases frames.len(),
{
    if frames.len() > 0 {
        lemma_replay_counters_deterministic(v1, v2, frames.drop_last(), filters, local, now);
        lemma_process_counters_deterministic(
            spec_replay(v1, frames.drop_last(), filters, local, now),
            spec_replay(v2, frames.drop_last(), filters, local, now),
            frames.last(),
            filters,
            local,
            now,
            None,
        );
    }
}

/// Once the generation has advanced past `captured`, a worker or a resolver
/// of generation `captured` changes nothing in the model, and the worker exits.
pub proof fn lemma_stale_generation_invisible(
    v: ModelView,
    captured: u64,
    current: u64,
    frame: Seq<u8>,
    filters: Filters,
    local: Seq<u128>,
    now: u64,
    dropped: Option<u64>,
    a: u128,
    rdns: Seq<char>,
    host: (Seq<char>, Seq<char>, Seq<char>),
)
    requires
        captured < current,
    ensures
        spec_frame_action(v, captured, current, frame, filters, local, now, dropped) == WorkerAction::Exit,
        spec_frame_model(v, captured, current, frame, filters, local, now, dropped) == v,
        spec_finish_model(v, captured, current, a, rdns, host) == v,
{
}

} // verus!

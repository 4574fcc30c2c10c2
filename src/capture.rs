//! The capture worker's decisions: what one frame does to the model, the
//! generation token that retires old workers, and the resolver's write-back.
use vstd::prelude::*;

use crate::data_info::TrafficDirection;
use crate::frame::{analyze, spec_analyze_frame};
use crate::model::{remote_of, Host, HostView, LocalDevice, ModelView, ResolutionState, TrafficModel};
use crate::tags::Filters;

verus! {

/// What the capture worker does after an event.
#[derive(Clone, Copy, Debug, PartialEq, Eq, Structural)]
pub enum WorkerAction {
    /// The worker's generation is over, or the capture failed for good: stop.
    Exit,
    /// Wait for the next frame.
    Continue,
    /// Start a resolver for this remote address, then wait for the next frame.
    Resolve(u128, TrafficDirection),
}

/// What the frame source handed over instead of a frame.
#[derive(Clone, Copy, Debug, PartialEq, Eq, Structural)]
pub enum CaptureError {
    /// A timeout or an interrupted read: try again.
    Transient,
    /// The capture cannot go on.
    Fatal,
}

/// The model after one frame, and the remote address that was seen for the
/// first time, with its direction. Every frame counts in the raw totals; a
/// frame that decodes to a packet that passes the filters is merged into its
/// flow, the per-direction totals, its remote address's counters and its
/// application's counters.
pub open spec fn spec_process(
    v: ModelView,
    frame: Seq<u8>,
    filters: Filters,
    local: Seq<u128>,
    now: u64,
    dropped: Option<u64>,
) -> (ModelView, Option<(u128, TrafficDirection)>) {
    match spec_analyze_frame(frame) {
        None => (v.spec_record_any(frame.len() as u128, dropped), None),
        Some(p) => {
            if !filters.spec_matches(p.tags) {
                (v.spec_record_any(p.bytes, dropped), None)
            } else {
                let dir = v.flow_direction(p.key, local);
                let v1 = v.spec_upsert_flow(
                    p.key,
                    (p.mac_source, p.mac_destination),
                    p.bytes,
                    p.tags.application,
                    now,
                    local,
                );
                let v2 = v1.spec_record_any(p.bytes, dropped).spec_account_matched(p.bytes, dir);
                let a = remote_of(p.key, dir);
                let v3 = v2.spec_note(a, p.bytes, dir).spec_add_app(p.tags.application, p.bytes, dir);
                (v3, if v2.spec_note_state(a) == ResolutionState::FirstSight { Some((a, dir)) } else { None })
            }
        },
    }
}

/// The model after a sequence of frames, all taken at time `now`.
pub open spec fn spec_replay(
    v: ModelView,
    frames: Seq<Seq<u8>>,
    filters: Filters,
    local: Seq<u128>,
    now: u64,
) -> ModelView
    decreases frames.len(),
{
    if frames.len() == 0 {
        v
    } else {
        spec_process(spec_replay(v, frames.drop_last(), filters, local, now), frames.last(), filters, local, now, None).0
    }
}

/// The worker's action for a frame of generation `captured` while the
/// controller is at `current`.
pub open spec fn spec_frame_action(
    v: ModelView,
    captured: u64,
    current: u64,
    frame: Seq<u8>,
    filters: Filters,
    local: Seq<u128>,
    now: u64,
    dropped: Option<u64>,
) -> WorkerAction {
    if captured != current {
        WorkerAction::Exit
    } else {
        match spec_process(v, frame, filters, local, now, dropped).1 {
            Some((a, d)) => WorkerAction::Resolve(a, d),
            None => WorkerAction::Continue,
        }
    }
}

/// The model after a worker of generation `captured` met a frame while the
/// controller is at `current`: a worker of a past generation changes nothing.
pub open spec fn spec_frame_model(
    v: ModelView,
    captured: u64,
    current: u64,
    frame: Seq<u8>,
    filters: Filters,
    local: Seq<u128>,
    now: u64,
    dropped: Option<u64>,
) -> ModelView {
    if captured != current {
        v
    } else {
        spec_process(v, frame, filters, local, now, dropped).0
    }
}

/// The model after a resolver of generation `captured` finished while the
/// controller is at `current`: one of a past generation changes nothing.
pub open spec fn spec_finish_model(
    v: ModelView,
    captured: u64,
    current: u64,
    a: u128,
    rdns: Seq<char>,
    host: HostView,
) -> ModelView {
    if captured != current {
        v
    } else {
        v.spec_promote(a, rdns, host)
    }
}

impl TrafficModel {
    /// Accounts one captured frame. Returns the remote address to resolve
    /// where the frame is the first one seen for it.
    pub fn process_frame(
        &mut self,
        frame: &[u8],
        filters: &Filters,
        local: &LocalDevice,
        now: u64,
        dropped: Option<u64>,
    ) -> (r: Option<(u128, TrafficDirection)>)
        requires
            old(self).view().wf(),
        ensures
            (final(self).view(), r) == spec_process(old(self).view(), frame@, *filters, local.addresses@, now, dropped),
            final(self).view().wf(),
    {
        match analyze(frame) {
            None => {
                self.record_any(frame.len() as u128, dropped);
                None
            },
            Some(p) => {
                if !filters.matches(p.tags) {
                    self.record_any(p.bytes, dropped);
                    None
                } else {
                    let dir = self.upsert_flow(
                        p.key,
                        (p.mac_source, p.mac_destination),
                        p.bytes,
                        p.tags.application,
                        now,
                        local,
                    );
                    self.record_any(p.bytes, dropped);
                    self.account_matched(p.bytes, dir);
                    let a = if dir == TrafficDirection::Incoming {
                        p.key.source
                    } else {
                        p.key.destination
                    };
                    let state = self.note_address(a, p.bytes, dir);
                    self.add_app_packet(p.tags.application, p.bytes, dir);
                    if state == ResolutionState::FirstSight {
                        Some((a, dir))
                    } else {
                        None
                    }
                }
            },
        }
    }

    /// Accounts a sequence of frames, all taken at time `now`.
    pub fn process_frames(&mut self, frames: &Vec<Vec<u8>>, filters: &Filters, local: &LocalDevice, now: u64)
        requires
            old(self).view().wf(),
        ensures
            final(self).view() == spec_replay(
                old(self).view(),
                frames@.map_values(|f: Vec<u8>| f@),
                *filters,
                local.addresses@,
                now,
            ),
            final(self).view().wf(),
    {
        let ghost v0 = self.view();
        let ghost fs = frames@.map_values(|f: Vec<u8>| f@);
        let mut i: usize = 0;
        while i < frames.len()
            invariant
                i <= frames@.len(),
                fs == frames@.map_values(|f: Vec<u8>| f@),
                self.view().wf(),
                self.view() == spec_replay(v0, fs.take(i as int), *filters, local.addresses@, now),
            decreases frames@.len() - i,
        {
            assert(fs.take(i + 1).drop_last() =~= fs.take(i as int));
            let _ = self.process_frame(frames[i].as_slice(), filters, local, now, None);
            i = i + 1;
        }
        assert(fs.take(i as int) =~= fs);
    }

    /// One step of the capture worker of generation `captured` on a frame,
    /// while the controller is at `current`: a worker of a past generation
    /// exits and leaves the model as it is.
    pub fn on_frame(
        &mut self,
        captured: u64,
        current: u64,
        frame: &[u8],
        filters: &Filters,
        local: &LocalDevice,
        now: u64,
        dropped: Option<u64>,
    ) -> (r: WorkerAction)
        requires
            old(self).view().wf(),
        ensures
            r == spec_frame_action(old(self).view(), captured, current, frame@, *filters, local.addresses@, now, dropped),
            final(self).view() == spec_frame_model(
                old(self).view(),
                captured,
                current,
                frame@,
                *filters,
                local.addresses@,
                now,
                dropped,
            ),
            final(self).view().wf(),
    {
        if captured != current {
            return WorkerAction::Exit;
        }
        match self.process_frame(frame, filters, local, now, dropped) {
            Some((a, d)) => WorkerAction::Resolve(a, d),
            None => WorkerAction::Continue,
        }
    }

    /// Writes a resolver's result back, where its generation `captured` is
    /// still the controller's `current` one. Returns whether it was written.
    pub fn finish_resolution(&mut self, captured: u64, current: u64, a: u128, rdns: String, host: Host) -> (r: bool)
        requires
            old(self).view().wf(),
        ensures
            r == (captured == current && old(self).view().waiting.contains_key(a)),
            final(self).view() == spec_finish_model(old(self).view(), captured, current, a, rdns@, host@),
            final(self).view().wf(),
    {
        if captured != current {
            return false;
        }
        self.promote_resolution(a, rdns, host)
    }
}

/// The worker's action after the frame source failed to hand over a frame.
pub fn on_capture_error(captured: u64, current: u64, e: CaptureError) -> (r: WorkerAction)
    ensures
        r == if captured != current || e == CaptureError::Fatal {
            WorkerAction::Exit
        } else {
            WorkerAction::Continue
        },
{
    if captured != current || e == CaptureError::Fatal {
        WorkerAction::Exit
    } else {
        WorkerAction::Continue
    }
}

/// The text that stands for a lookup that found nothing.
pub open spec fn unknown_text() -> Seq<char> {
    seq!['u', 'n', 'k', 'n', 'o', 'w', 'n']
}

/// The reverse-DNS text and host of a resolved address: the name found, else
/// the address's own text; the country and autonomous system found, else
/// `unknown`.
pub open spec fn spec_resolved_host(
    address_text: Seq<char>,
    rdns: Option<Seq<char>>,
    country: Option<Seq<char>>,
    asn: Option<Seq<char>>,
) -> (Seq<char>, HostView) {
    let name = match rdns {
        Some(n) => n,
        None => address_text,
    };
    let c = match country {
        Some(c) => c,
        None => unknown_text(),
    };
    let s = match asn {
        Some(s) => s,
        None => unknown_text(),
    };
    (name, (name, c, s))
}

/// The text of an optional string.
pub open spec fn opt_view(s: Option<String>) -> Option<Seq<char>> {
    match s {
        Some(t) => Some(t@),
        None => None,
    }
}

/// Builds the reverse-DNS text and the host of a resolved address from what
/// the lookups found.
pub fn resolved_host(
    address_text: String,
    rdns: Option<String>,
    country: Option<String>,
    asn: Option<String>,
) -> (r: (String, Host))
    ensures
        (r.0@, r.1@) == spec_resolved_host(address_text@, opt_view(rdns), opt_view(country), opt_view(asn)),
{
    proof {
        reveal_strlit("unknown");
    }
    let name = match rdns {
        Some(n) => n,
        None => address_text,
    };
    let c = match country {
        Some(c) => c,
        None => "unknown".to_owned(),
    };
    let s = match asn {
        Some(s) => s,
        None => "unknown".to_owned(),
    };
    assert("unknown"@ =~= unknown_text());
    let domain = name.clone();
    (name, Host { domain, country: c, asn: s })
}

/// The monotonic token of the current capture generation.
pub struct CaptureGeneration {
    pub value: u64,
}

impl CaptureGeneration {
    /// The first generation.
    pub fn new() -> (r: CaptureGeneration)
        ensures
            r.value == 0,
    {
        CaptureGeneration { value: 0 }
    }

    /// The current generation.
    pub fn current(&self) -> (r: u64)
        ensures
            r == self.value,
    {
        self.value
    }

    /// Starts a new generation, which retires every worker of the earlier ones.
    pub fn advance(&mut self) -> (r: u64)
        requires
            old(self).value < u64::MAX,
        ensures
            final(self).value == old(self).value + 1,
            r == final(self).value,
    {
        self.value = self.value + 1;
        self.value
    }
}

} // verus!

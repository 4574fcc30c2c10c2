//! Where the packets of resolved addresses end up: a host's packet count is
//! the number of packets noted for the addresses that resolved to it.
use vstd::prelude::*;

use crate::data_info::{DataInfo, TrafficDirection};
use crate::model::{
    find_key, lemma_find_key_bounds, lemma_note_wf, lemma_promote_wf, HostData, HostView, ModelView,
};

verus! {

/// A change of the resolution tables: a packet noted for an address, or the
/// promotion of an address with its reverse-DNS text and host.
pub enum AddressEvent {
    Note(u128, u128, TrafficDirection),
    Promote(u128, Seq<char>, HostView),
}

/// The model after one event.
pub open spec fn apply_event(v: ModelView, e: AddressEvent) -> ModelView {
    match e {
        AddressEvent::Note(a, bytes, dir) => v.spec_note(a, bytes, dir),
        AddressEvent::Promote(a, rdns, host) => v.spec_promote(a, rdns, host),
    }
}

/// The model after a sequence of events.
pub open spec fn apply_events(v: ModelView, es: Seq<AddressEvent>) -> ModelView
    decreases es.len(),
{
    if es.len() == 0 {
        v
    } else {
        apply_event(apply_events(v, es.drop_last()), es.last())
    }
}

/// The number of packets noted for address `a`.
pub open spec fn notes_of(es: Seq<AddressEvent>, a: u128) -> nat
    decreases es.len(),
{
    if es.len() == 0 {
        0
    } else {
        notes_of(es.drop_last(), a) + match es.last() {
            AddressEvent::Note(b, _, _) => if b == a { 1nat } else { 0nat },
            _ => 0nat,
        }
    }
}

/// The number of packets noted for the addresses that `resolved` maps to host `h`.
pub open spec fn notes_of_host(es: Seq<AddressEvent>, resolved: Map<u128, (Seq<char>, HostView)>, h: HostView) -> nat
    decreases es.len(),
{
    if es.len() == 0 {
        0
    } else {
        notes_of_host(es.drop_last(), resolved, h) + match es.last() {
            AddressEvent::Note(b, _, _) => if resolved.contains_key(b) && resolved[b].1 == h { 1nat } else { 0nat },
            _ => 0nat,
        }
    }
}

/// The number of packets noted at all.
pub open spec fn notes(es: Seq<AddressEvent>) -> nat
    decreases es.len(),
{
    if es.len() == 0 {
        0
    } else {
        notes(es.drop_last()) + match es.last() {
            AddressEvent::Note(..) => 1nat,
            _ => 0nat,
        }
    }
}

/// What holds of a model after the events `es`, from the empty model.
pub open spec fn accounting_inv(v: ModelView, es: Seq<AddressEvent>) -> bool {
    &&& v.wf()
    &&& notes(es) < u128::MAX
    &&& forall|i: int, j: int| 0 <= i < j < v.hosts.len() ==> #[trigger] v.hosts[i].0 != #[trigger] v.hosts[j].0
    &&& forall|a: u128| !v.seen(a) ==> #[trigger] notes_of(es, a) == 0
    &&& forall|a: u128| #[trigger]
        v.waiting.contains_key(a) ==> v.waiting[a].spec_total_packets() == notes_of(es, a)
    &&& forall|i: int| #![trigger v.hosts[i]]
        0 <= i < v.hosts.len() ==> v.hosts[i].1.data.spec_total_packets() == notes_of_host(es, v.resolved, v.hosts[i].0)
}

proof fn lemma_notes_bounds(es: Seq<AddressEvent>, r: Map<u128, (Seq<char>, HostView)>, h: HostView, a: u128)
    ensures
        notes_of(es, a) <= notes(es),
        notes_of_host(es, r, h) <= notes(es),
        !r.contains_key(a) ==> notes_of_host(es, r, h) + notes_of(es, a) <= notes(es),
    decreases es.len(),
{
    if es.len() > 0 {
        lemma_notes_bounds(es.drop_last(), r, h, a);
    }
}

proof fn lemma_notes_of_host_insert(
    es: Seq<AddressEvent>,
    r: Map<u128, (Seq<char>, HostView)>,
    a: u128,
    x: (Seq<char>, HostView),
    h: HostView,
)
    requires
        !r.contains_key(a),
    ensures
        notes_of_host(es, r.insert(a, x), h) == notes_of_host(es, r, h) + if x.1 == h { notes_of(es, a) } else { 0 },
    decreases es.len(),
{
    if es.len() > 0 {
        lemma_notes_of_host_insert(es.drop_last(), r, a, x, h);
    }
}

proof fn lemma_notes_of_host_none(es: Seq<AddressEvent>, r: Map<u128, (Seq<char>, HostView)>, h: HostView)
    requires
        forall|b: u128| #[trigger] r.contains_key(b) ==> r[b].1 != h,
    ensures
        notes_of_host(es, r, h) == 0,
    decreases es.len(),
{
    if es.len() > 0 {
        lemma_notes_of_host_none(es.drop_last(), r, h);
    }
}

proof fn lemma_inv_step(v: ModelView, es: Seq<AddressEvent>, e: AddressEvent)
    requires
        accounting_inv(v, es),
        notes(es.push(e)) < u128::MAX,
    ensures
        accounting_inv(apply_event(v, e), es.push(e)),
{
    let es2 = es.push(e);
    assert(es2.drop_last() =~= es);
    let n = apply_event(v, e);
    match e {
        AddressEvent::Note(a, bytes, dir) => {
            lemma_note_wf(v, a, bytes, dir);
            let nh: HostView = (Seq::empty(), Seq::empty(), Seq::empty());
            lemma_notes_bounds(es, v.resolved, nh, a);
            assert forall|b: u128| !n.seen(b) implies #[trigger] notes_of(es2, b) == 0 by {
                assert(!v.seen(b));
                assert(notes_of(es2, b) == notes_of(es, b) + if b == a { 1nat } else { 0nat });
            }
            assert forall|b: u128| #[trigger] n.waiting.contains_key(b) implies n.waiting[b].spec_total_packets()
                == notes_of(es2, b) by {
                assert(notes_of(es2, b) == notes_of(es, b) + if b == a { 1nat } else { 0nat });
                if b != a {
                    assert(v.waiting.contains_key(b));
                }
            }
            if v.resolved.contains_key(a) {
                let h = v.resolved[a].1;
                lemma_find_key_bounds(v.hosts, h);
                let k = find_key(v.hosts, h).unwrap();
                lemma_notes_bounds(es, v.resolved, h, a);
                assert forall|i: int| #![trigger n.hosts[i]]
                    0 <= i < n.hosts.len() implies n.hosts[i].1.data.spec_total_packets()
                        == notes_of_host(es2, n.resolved, n.hosts[i].0) by {
                    if i == k {
                    } else {
                        assert(v.hosts[i].0 != h);
                    }
                }
                assert forall|i: int, j: int| 0 <= i < j < n.hosts.len() implies #[trigger] n.hosts[i].0
                    != #[trigger] n.hosts[j].0 by {
                    assert(n.hosts[i].0 == v.hosts[i].0);
                    assert(n.hosts[j].0 == v.hosts[j].0);
                }
            } else {
                assert forall|i: int| #![trigger n.hosts[i]]
                    0 <= i < n.hosts.len() implies n.hosts[i].1.data.spec_total_packets()
                        == notes_of_host(es2, n.resolved, n.hosts[i].0) by {
                    assert(n.hosts[i] == v.hosts[i]);
                }
            }
        },
        AddressEvent::Promote(a, rdns, h) => {
            assert(notes(es2) == notes(es));
            if v.waiting.contains_key(a) {
                lemma_promote_wf(v, a, rdns, h);
                let w = v.waiting[a];
                lemma_find_key_bounds(v.hosts, h);
                lemma_notes_bounds(es, v.resolved, h, a);
                assert forall|b: u128| !n.seen(b) implies #[trigger] notes_of(es2, b) == 0 by {
                    assert(!v.seen(b));
                    assert(notes_of(es2, b) == notes_of(es, b));
                }
                assert forall|b: u128| #[trigger] n.waiting.contains_key(b) implies n.waiting[b].spec_total_packets()
                    == notes_of(es2, b) by {
                    assert(v.waiting.contains_key(b));
                    assert(notes_of(es2, b) == notes_of(es, b));
                }
                match find_key(v.hosts, h) {
                    Some(k) => {
                        assert forall|i: int| #![trigger n.hosts[i]]
                            0 <= i < n.hosts.len() implies n.hosts[i].1.data.spec_total_packets()
                                == notes_of_host(es2, n.resolved, n.hosts[i].0) by {
                            lemma_notes_of_host_insert(es, v.resolved, a, (rdns, h), n.hosts[i].0);
                            if i != k {
                                assert(v.hosts[i].0 != h);
                            }
                        }
                        assert forall|i: int, j: int| 0 <= i < j < n.hosts.len() implies #[trigger] n.hosts[i].0
                            != #[trigger] n.hosts[j].0 by {
                            assert(n.hosts[i].0 == v.hosts[i].0);
                            assert(n.hosts[j].0 == v.hosts[j].0);
                        }
                    },
                    None => {
                        lemma_find_key_absent(v.hosts, h);
                        assert forall|b: u128| #[trigger] v.resolved.contains_key(b) implies v.resolved[b].1 != h by {
                            lemma_find_key_bounds(v.hosts, v.resolved[b].1);
                        }
                        lemma_notes_of_host_none(es, v.resolved, h);
                        assert forall|i: int| #![trigger n.hosts[i]]
                            0 <= i < n.hosts.len() implies n.hosts[i].1.data.spec_total_packets()
                                == notes_of_host(es2, n.resolved, n.hosts[i].0) by {
                            lemma_notes_of_host_insert(es, v.resolved, a, (rdns, h), n.hosts[i].0);
                            if i < v.hosts.len() {
                                assert(n.hosts[i] == v.hosts[i]);
                            }
                        }
                    },
                }
            } else {
                assert forall|i: int| #![trigger n.hosts[i]]
                    0 <= i < n.hosts.len() implies n.hosts[i].1.data.spec_total_packets()
                        == notes_of_host(es2, n.resolved, n.hosts[i].0) by {
                    assert(notes_of_host(es2, v.resolved, v.hosts[i].0) == notes_of_host(es, v.resolved, v.hosts[i].0));
                }
                assert forall|b: u128| #[trigger] n.waiting.contains_key(b) implies n.waiting[b].spec_total_packets()
                    == notes_of(es2, b) by {
                    assert(notes_of(es2, b) == notes_of(es, b));
                }
                assert forall|b: u128| !n.seen(b) implies #[trigger] notes_of(es2, b) == 0 by {
                    assert(notes_of(es2, b) == notes_of(es, b));
                }
            }
        },
    }
}

proof fn lemma_find_key_absent(s: Seq<(HostView, HostData)>, k: HostView)
    requires
        find_key(s, k).is_none(),
    ensures
        forall|i: int| 0 <= i < s.len() ==> #[trigger] s[i].0 != k,
    decreases s.len(),
{
    if s.len() > 0 {
        lemma_find_key_absent(s.drop_last(), k);
        assert forall|i: int| 0 <= i < s.len() implies #[trigger] s[i].0 != k by {
            if i < s.len() - 1 {
                assert(s.drop_last()[i] == s[i]);
            }
        }
    }
}

proof fn lemma_notes_prefix(es: Seq<AddressEvent>)
    requires
        es.len() > 0,
    ensures
        notes(es.drop_last()) <= notes(es),
{
}

proof fn lemma_inv_run(es: Seq<AddressEvent>)
    requires
        notes(es) < u128::MAX,
    ensures
        accounting_inv(apply_events(ModelView::empty(), es), es),
    decreases es.len(),
{
    if es.len() == 0 {
        assert(ModelView::empty().wf());
    } else {
        lemma_notes_prefix(es);
        lemma_inv_run(es.drop_last());
        assert(es.drop_last().push(es.last()) =~= es);
        lemma_inv_step(apply_events(ModelView::empty(), es.drop_last()), es.drop_last(), es.last());
    }
}

/// From the empty model, after any sequence of noted packets and
/// promotions, each listed host has as many packets as were noted for the
/// addresses that resolved to it, and each waiting address as many as were
/// noted for it, where fewer than `u128::MAX` packets were noted.
pub proof fn lemma_host_packets_sum(es: Seq<AddressEvent>)
    requires
        notes(es) < u128::MAX,
    ensures
        ({
            let v = apply_events(ModelView::empty(), es);
            &&& forall|i: int| #![trigger v.hosts[i]]
                0 <= i < v.hosts.len() ==> v.hosts[i].1.data.spec_total_packets()
                    == notes_of_host(es, v.resolved, v.hosts[i].0)
            &&& forall|a: u128| #[trigger]
                v.waiting.contains_key(a) ==> v.waiting[a].spec_total_packets() == notes_of(es, a)
        }),
{
    lemma_inv_run(es);
}

} // verus!

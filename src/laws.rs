//! Laws of the rewrite system, stated over the model of a net.
use crate::heap::{freed, port_of};
use crate::net::Net;
use crate::ptr::{Ptr, CT0, ERA, NUM, VR1, VR2};
use crate::rules::{anni_spec, bump, era1_spec, era2_spec, link_spec, mtch_spec, NetState};
use vstd::prelude::*;

verus! {

/// Where a variable points: its slot and port.
pub open spec fn pos(p: Ptr) -> (int, int) {
    (p.spec_val(), p.spec_port())
}

/// The total rewrite count never goes down while no counter does: every
/// operation of a net states that its counters only grow, so `rewrites()`
/// is non-decreasing across partial runs.
pub proof fn law_rewrites_monotone(s: NetState, t: NetState)
    requires
        s.counted_up_to(t),
    ensures
        s.total() <= t.total(),
{
}

/// Every redex in the queue of a well-formed net pairs two primaries; every
/// operation of a net keeps it well formed.
pub proof fn law_queue_primary(n: &Net)
    requires
        n.wf(),
    ensures
        forall|i: int|
            0 <= i < n.rdex@.len() ==> (#[trigger] n.rdex@[i]).0.spec_is_pri() && n.rdex@[i].1.spec_is_pri(),
{
    assert forall|i: int| 0 <= i < n.rdex@.len() implies (#[trigger] n.rdex@[i]).0.spec_is_pri()
        && n.rdex@[i].1.spec_is_pri() by {}
}

/// Linking two variables that name different ports makes a symmetric wire:
/// each end now names the other, and no other port changes.
pub proof fn law_link_symmetric(s: NetState, a: Ptr, b: Ptr)
    requires
        s.ok(),
        a.spec_is_var(),
        b.spec_is_var(),
        0 <= a.spec_val() < s.heap.len(),
        0 <= b.spec_val() < s.heap.len(),
        pos(a) != pos(b),
    ensures
        ({
            let t = link_spec(s, a, b);
            &&& port_of(t.heap, a.spec_val(), a.spec_port()) == b
            &&& port_of(t.heap, b.spec_val(), b.spec_port()) == a
            &&& t.rdex == s.rdex
            &&& forall|j: int| 0 <= j < s.heap.len() && j != a.spec_val() && j != b.spec_val()
                ==> #[trigger] t.heap[j] == s.heap[j]
        }),
{
    assert(a.spec_port() == 0 || a.spec_port() == 1);
    assert(b.spec_port() == 0 || b.spec_port() == 1);
}

/// Annihilation splices wires: when the aux ports of two nodes are variables
/// naming four distinct ports of other slots, afterwards the two port-1 ends
/// name each other, the two port-2 ends name each other, both nodes are
/// free, and nothing else changes but the annihilation counter.
pub proof fn law_anni_splices(s: NetState, a: Ptr, b: Ptr)
    requires
        s.ok(),
        0 <= a.spec_val() < s.heap.len(),
        0 <= b.spec_val() < s.heap.len(),
        a.spec_val() != b.spec_val(),
        s.at(a, 0).spec_is_var(),
        s.at(b, 0).spec_is_var(),
        s.at(a, 1).spec_is_var(),
        s.at(b, 1).spec_is_var(),
        s.at(a, 0).spec_val() != a.spec_val() && s.at(a, 0).spec_val() != b.spec_val(),
        s.at(b, 0).spec_val() != a.spec_val() && s.at(b, 0).spec_val() != b.spec_val(),
        s.at(a, 1).spec_val() != a.spec_val() && s.at(a, 1).spec_val() != b.spec_val(),
        s.at(b, 1).spec_val() != a.spec_val() && s.at(b, 1).spec_val() != b.spec_val(),
        pos(s.at(a, 0)) != pos(s.at(b, 0)),
        pos(s.at(a, 0)) != pos(s.at(a, 1)),
        pos(s.at(a, 0)) != pos(s.at(b, 1)),
        pos(s.at(b, 0)) != pos(s.at(a, 1)),
        pos(s.at(b, 0)) != pos(s.at(b, 1)),
        pos(s.at(a, 1)) != pos(s.at(b, 1)),
    ensures
        ({
            let t = anni_spec(s, a, b);
            let (x1, y1, x2, y2) = (s.at(a, 0), s.at(b, 0), s.at(a, 1), s.at(b, 1));
            &&& port_of(t.heap, x1.spec_val(), x1.spec_port()) == y1
            &&& port_of(t.heap, y1.spec_val(), y1.spec_port()) == x1
            &&& port_of(t.heap, x2.spec_val(), x2.spec_port()) == y2
            &&& port_of(t.heap, y2.spec_val(), y2.spec_port()) == x2
            &&& t.heap[a.spec_val()] == (Ptr(0), Ptr(0))
            &&& t.heap[b.spec_val()] == (Ptr(0), Ptr(0))
            &&& t.heap.len() == s.heap.len()
            &&& forall|j: int|
                0 <= j < s.heap.len() && j != a.spec_val() && j != b.spec_val() && j != x1.spec_val()
                    && j != y1.spec_val() && j != x2.spec_val() && j != y2.spec_val()
                    ==> #[trigger] t.heap[j] == s.heap[j]
            &&& t.rdex == s.rdex
            &&& t.anni == bump(s.anni, 1)
            &&& t.comm == s.comm && t.eras == s.eras && t.dref == s.dref && t.oper == s.oper
        }),
{
    let (x1, y1, x2, y2) = (s.at(a, 0), s.at(b, 0), s.at(a, 1), s.at(b, 1));
    assert(x1.spec_port() == 0 || x1.spec_port() == 1);
    assert(y1.spec_port() == 0 || y1.spec_port() == 1);
    assert(x2.spec_port() == 0 || x2.spec_port() == 1);
    assert(y2.spec_port() == 0 || y2.spec_port() == 1);
    crate::rules::lemma_port_in_heap(s.heap, a.spec_val(), 0);
    crate::rules::lemma_port_in_heap(s.heap, a.spec_val(), 1);
    crate::rules::lemma_port_in_heap(s.heap, b.spec_val(), 0);
    crate::rules::lemma_port_in_heap(s.heap, b.spec_val(), 1);
}

/// Erasure distributes: an eraser against a two-port node whose aux ports
/// hold nodes queues one eraser redex per aux port and frees the node.
pub proof fn law_era2_distributes(s: NetState, a: Ptr)
    requires
        s.ok(),
        0 <= a.spec_val() < s.heap.len(),
        s.at(a, 0).spec_is_nod(),
        s.at(a, 1).spec_is_nod(),
    ensures
        ({
            let t = era2_spec(s, a);
            let e = Ptr::make(ERA as int, 0);
            &&& t.rdex == s.rdex.push((s.at(a, 0), e)).push((s.at(a, 1), e))
            &&& t.heap == freed(s.heap, a.spec_val())
            &&& t.eras == bump(s.eras, 1)
        }),
{
    Ptr::lemma_make(ERA as int, 0);
}

/// Erasure distributes over a unary operation: its one aux port, holding a
/// node, gets an eraser redex, and the operation is freed.
pub proof fn law_era1_distributes(s: NetState, a: Ptr)
    requires
        s.ok(),
        0 <= a.spec_val() < s.heap.len(),
        s.at(a, 1).spec_is_nod(),
    ensures
        ({
            let t = era1_spec(s, a);
            &&& t.rdex == s.rdex.push((s.at(a, 1), Ptr::make(ERA as int, 0)))
            &&& t.heap == freed(s.heap, a.spec_val())
            &&& t.eras == bump(s.eras, 1)
        }),
{
    Ptr::lemma_make(ERA as int, 0);
}

/// Scott numerals: matching number `n` against a branch pair `p1` (a node)
/// exposes the zero/successor encoding of `n`. For zero, `p1` meets a
/// constructor whose first field is the return wire and whose second is
/// erased; for a successor, `p1` meets a constructor whose first field is
/// erased and whose second is a constructor holding `n - 1` and the return
/// wire.
pub proof fn law_mtch_scott(s: NetState, a: Ptr, b: Ptr, l0: int, l1: int)
    requires
        s.ok(),
        0 <= a.spec_val() < s.heap.len(),
        1 <= l0 < s.heap.len(),
        1 <= l1 < s.heap.len(),
        l0 != l1,
        l0 != a.spec_val(),
        l1 != a.spec_val(),
        b.spec_tag() == NUM,
        s.at(a, 0).spec_is_nod(),
        s.at(a, 1).spec_is_var(),
        s.at(a, 1).spec_val() != l0,
        s.at(a, 1).spec_val() != l1,
        s.at(a, 1).spec_val() != a.spec_val(),
    ensures
        ({
            let t = mtch_spec(s, a, b, l0, l1);
            let n = b.spec_val();
            let ret = s.at(a, 1);
            let e = Ptr::make(ERA as int, 0);
            &&& t.rdex == s.rdex.push((s.at(a, 0), Ptr::make(CT0 as int, l0)))
            &&& t.heap[a.spec_val()] == (Ptr(0), Ptr(0))
            &&& n == 0 ==> t.heap[l0] == (ret, e) && port_of(t.heap, ret.spec_val(), ret.spec_port())
                == Ptr::make(VR1 as int, l0)
            &&& n > 0 ==> t.heap[l0] == (e, Ptr::make(CT0 as int, l1)) && t.heap[l1] == (
            Ptr::make(NUM as int, n - 1), ret) && port_of(t.heap, ret.spec_val(), ret.spec_port())
                == Ptr::make(VR2 as int, l1)
        }),
{
    let ret = s.at(a, 1);
    crate::rules::lemma_port_in_heap(s.heap, a.spec_val(), 1);
    Ptr::lemma_make(ERA as int, 0);
    Ptr::lemma_make(CT0 as int, l0);
    Ptr::lemma_make(CT0 as int, l1);
    Ptr::lemma_make(VR1 as int, l0);
    Ptr::lemma_make(VR2 as int, l1);
    assert(ret.spec_port() == 0 || ret.spec_port() == 1);
}

} // verus!

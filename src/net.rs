//! The net: heap, redex queue and rewrite counters, with the rewrite rules,
//! the dispatcher and the normaliser.
use crate::book::{Book, Def, Native};
use crate::heap::{freed, port_of, with_port, Heap};
use crate::ptr::{
    Port, Ptr, Val, CT0, MAT, ERA, NUM, OP1, OP2, P1, P2, REF, VAL_LIMIT, VR1, VR2,
};
use crate::rules::{
    alu, anni_spec, bump, heap_full, fresh, few_free, marked, expands, fresh_locs, comm_done, comm_spec, conn_spec, fold_chain, mesh, mtch_done, mtch_spec,
    op2n_spec, pass_done, pass_spec, adjust_spec, deref_done, ref_free, deref_spec, place, ref_id, relocated, rdex_ok, copy_spec, era1_spec, era2_spec, heap_ok, in_heap,
    lemma_freed_ok, lemma_link_ok, lemma_port_in_heap, lemma_with_port_ok, link_spec, op1n_spec,
    NetState,
};
use vstd::prelude::*;

verus! {

/// Initial size of the relocation table; it grows for larger templates.
pub const LOCS_INIT: usize = 0x1_0000;

/// Why reduction stopped before normal form.
#[derive(Copy, Clone, Debug, PartialEq, Eq, Structural)]
pub enum Fault {
    /// No free heap slot was left for a rewrite.
    HeapFull,
    /// A redex paired two agents that no rule handles.
    BadRedex,
}

/// An interaction combinator net.
pub struct Net {
    /// Active pairs.
    pub rdex: Vec<(Ptr, Ptr)>,
    /// Nodes.
    pub heap: Heap,
    /// Relocation table used while instantiating a definition.
    pub locs: Vec<Val>,
    /// Allocation cursor.
    pub next: usize,
    pub anni: usize,
    pub comm: usize,
    pub eras: usize,
    pub dref: usize,
    pub oper: usize,
    /// Set when reduction had to stop.
    pub fault: Option<Fault>,
}

impl View for Net {
    type V = NetState;

    open spec fn view(&self) -> NetState {
        NetState {
            heap: self.heap@,
            rdex: self.rdex@,
            anni: self.anni,
            comm: self.comm,
            eras: self.eras,
            dref: self.dref,
            oper: self.oper,
        }
    }
}

/// A counter after one more event.
fn bumped(c: usize) -> (r: usize)
    ensures
        r == bump(c, 1),
{
    if c < usize::MAX {
        c + 1
    } else {
        c
    }
}

/// What one interaction does to the net, by the tags of the redex (a, b).
pub open spec fn dispatch<N: Native>(s: NetState, t: NetState, book: &Book<N>, a: Ptr, b: Ptr, locs: Seq<u32>) -> bool {
    let ta = a.spec_tag();
    let tb = b.spec_tag();
    let len = s.heap.len();
    if ta == REF && tb >= OP2 {
        deref_done(s, t, book.lookup(ref_id(a)), a, b, book.call_native.answer(s, a, b), locs)
    } else if ta >= OP2 && tb == REF {
        deref_done(s, t, book.lookup(ref_id(b)), b, a, book.call_native.answer(s, b, a), locs)
    } else if ta >= CT0 && tb >= CT0 {
        if ta == tb {
            t == anni_spec(s, a, b)
        } else {
            comm_done(s, t, a, b)
        }
    } else if ta >= CT0 && tb == ERA {
        t == era2_spec(s, a)
    } else if ta == ERA && tb >= CT0 {
        t == era2_spec(s, b)
    } else if a.spec_is_skp() && b.spec_is_skp() {
        t == (NetState { eras: bump(s.eras, 1), ..s })
    } else if ta >= CT0 && tb == NUM {
        t == copy_spec(s, a, b)
    } else if ta == NUM && tb >= CT0 {
        t == copy_spec(s, b, a)
    } else if ta == OP2 && tb == NUM {
        t == op2n_spec(s, a, b, len)
    } else if ta == NUM && tb == OP2 {
        t == op2n_spec(s, b, a, len)
    } else if ta == OP1 && tb == NUM {
        t == op1n_spec(s, a, b)
    } else if ta == NUM && tb == OP1 {
        t == op1n_spec(s, b, a)
    } else if (ta == OP2 || ta == MAT) && tb >= CT0 {
        comm_done(s, t, a, b)
    } else if ta >= CT0 && (tb == OP2 || tb == MAT) {
        comm_done(s, t, b, a)
    } else if ta == OP1 && tb >= CT0 {
        pass_done(s, t, a, b)
    } else if ta >= CT0 && tb == OP1 {
        pass_done(s, t, b, a)
    } else if (ta == OP2 || ta == MAT) && tb == ERA {
        t == era2_spec(s, a)
    } else if ta == ERA && (tb == OP2 || tb == MAT) {
        t == era2_spec(s, b)
    } else if ta == OP1 && tb == ERA {
        t == era1_spec(s, a)
    } else if ta == ERA && tb == OP1 {
        t == era1_spec(s, b)
    } else if ta == MAT && tb == NUM {
        mtch_done(s, t, a, b)
    } else if ta == NUM && tb == MAT {
        mtch_done(s, t, b, a)
    } else {
        false
    }
}

/// What an interaction does, faults included: a pair that no rule handles
/// marks `BadRedex`; a rule that needs new slots may instead mark
/// `HeapFull`, leaving the net as it was, when too few slots are free;
/// every other pair is rewritten as `dispatch` says.
pub open spec fn interact_post<N: Native>(
    s: NetState,
    t: NetState,
    fo: Option<Fault>,
    fe: Option<Fault>,
    book: &Book<N>,
    a: Ptr,
    b: Ptr,
    locs: Seq<u32>,
) -> bool {
    let ta = a.spec_tag();
    let tb = b.spec_tag();
    let (av, bv) = (a.spec_val(), b.spec_val());
    let full = fe == Some(Fault::HeapFull) && t == s;
    if unhandled(a, b) {
        t == s && fe == Some(Fault::BadRedex)
    } else if ta == REF && tb >= OP2 && book.lookup(ref_id(a)).1.len() > 0 {
        (full && few_free(s.heap, 0, 0, (book.lookup(ref_id(a)).1.len() - 1) as nat)) || (fe == fo
            && dispatch(s, t, book, a, b, locs))
    } else if ta >= OP2 && tb == REF && book.lookup(ref_id(b)).1.len() > 0 {
        (full && few_free(s.heap, 0, 0, (book.lookup(ref_id(b)).1.len() - 1) as nat)) || (fe == fo
            && dispatch(s, t, book, a, b, locs))
    } else if (ta >= CT0 && tb >= CT0 && ta != tb) || ((ta == OP2 || ta == MAT) && tb >= CT0) {
        (full && few_free(s.heap, av, bv, 4)) || (fe == fo && dispatch(s, t, book, a, b, locs))
    } else if ta >= CT0 && (tb == OP2 || tb == MAT) {
        (full && few_free(s.heap, bv, av, 4)) || (fe == fo && dispatch(s, t, book, a, b, locs))
    } else if ta == OP1 && tb >= CT0 {
        (full && few_free(s.heap, av, bv, 3)) || (fe == fo && dispatch(s, t, book, a, b, locs))
    } else if ta >= CT0 && tb == OP1 {
        (full && few_free(s.heap, bv, av, 3)) || (fe == fo && dispatch(s, t, book, a, b, locs))
    } else if ta == MAT && tb == NUM {
        (full && few_free(s.heap, av, av, if bv == 0 { 1 } else { 2 })) || (fe == fo && dispatch(
            s,
            t,
            book,
            a,
            b,
            locs,
        ))
    } else if ta == NUM && tb == MAT {
        (full && few_free(s.heap, bv, bv, if av == 0 { 1 } else { 2 })) || (fe == fo && dispatch(
            s,
            t,
            book,
            a,
            b,
            locs,
        ))
    } else {
        fe == fo && dispatch(s, t, book, a, b, locs)
    }
}

/// The pointer at the far end of the wire that variable `dir` names.
pub open spec fn target(s: NetState, dir: Ptr) -> Ptr {
    port_of(s.heap, dir.spec_val(), dir.spec_port())
}

/// One rewrite step from `s` to `t`: the last queued redex is taken out and
/// interacted, or a REF at the end of a wire is dereferenced.
#[verifier::opaque]
pub open spec fn step<N: Native>(book: &Book<N>, s: NetState, t: NetState) -> bool {
    ||| (s.rdex.len() > 0 && exists|locs: Seq<u32>|
        #[trigger] dispatch(
            NetState { rdex: s.rdex.subrange(0, s.rdex.len() - 1), ..s },
            t,
            book,
            s.rdex[s.rdex.len() - 1].0,
            s.rdex[s.rdex.len() - 1].1,
            locs,
        ))
    ||| (exists|dir: Ptr, locs: Seq<u32>|
        dir.spec_is_var() && dir.spec_val() < s.heap.len() && target(s, dir).spec_tag() == REF
            && #[trigger] deref_done(
                s,
                t,
                book.lookup(ref_id(target(s, dir))),
                target(s, dir),
                dir,
                book.call_native.answer(s, target(s, dir), dir),
                locs,
            ))
}

/// Each state of `tr` is one rewrite step from the one before.
pub open spec fn trace<N: Native>(book: &Book<N>, tr: Seq<NetState>) -> bool {
    &&& tr.len() >= 1
    &&& forall|i: int| 0 <= i < tr.len() - 1 ==> step(book, #[trigger] tr[i], tr[i + 1])
}

/// `t` is reached from `s` by rewrite steps.
pub open spec fn reachable<N: Native>(book: &Book<N>, s: NetState, t: NetState) -> bool {
    exists|tr: Seq<NetState>| #[trigger] trace(book, tr) && tr[0] == s && tr[tr.len() - 1] == t
}

pub proof fn lemma_reachable_refl<N: Native>(book: &Book<N>, s: NetState)
    ensures
        reachable(book, s, s),
{
    let tr = seq![s];
    assert(trace(book, tr));
}

pub proof fn lemma_reachable_step<N: Native>(book: &Book<N>, s: NetState, m: NetState, t: NetState)
    requires
        reachable(book, s, m),
        step(book, m, t),
    ensures
        reachable(book, s, t),
{
    let tr = choose|tr: Seq<NetState>| #[trigger] trace(book, tr) && tr[0] == s && tr[tr.len() - 1] == m;
    let tr2 = tr.push(t);
    assert forall|i: int| 0 <= i < tr2.len() - 1 implies step(book, #[trigger] tr2[i], tr2[i + 1]) by {
        if i < tr.len() - 1 {
            assert(tr2[i] == tr[i] && tr2[i + 1] == tr[i + 1]);
        }
    }
    assert(trace(book, tr2));
}

pub proof fn lemma_reachable_trans<N: Native>(book: &Book<N>, s: NetState, m: NetState, t: NetState)
    requires
        reachable(book, s, m),
        reachable(book, m, t),
    ensures
        reachable(book, s, t),
{
    let tr1 = choose|tr: Seq<NetState>| #[trigger] trace(book, tr) && tr[0] == s && tr[tr.len() - 1] == m;
    let tr2 = choose|tr: Seq<NetState>| #[trigger] trace(book, tr) && tr[0] == m && tr[tr.len() - 1] == t;
    let tr = tr1 + tr2.subrange(1, tr2.len() as int);
    assert forall|i: int| 0 <= i < tr.len() - 1 implies step(book, #[trigger] tr[i], tr[i + 1]) by {
        if i < tr1.len() - 1 {
            assert(tr[i] == tr1[i] && tr[i + 1] == tr1[i + 1]);
        } else {
            let k = i - (tr1.len() - 1);
            assert(tr[i] == tr2[k]);
            assert(tr[i + 1] == tr2[k + 1]);
        }
    }
    assert(trace(book, tr));
    if tr2.len() == 1 {
        assert(tr[tr.len() - 1] == tr1[tr1.len() - 1]);
    } else {
        assert(tr[tr.len() - 1] == tr2[tr2.len() - 1]);
    }
}

/// A normal form: no fault, no redex, and no REF below the root.
pub open spec fn is_normal(s: NetState, fault: Option<Fault>) -> bool {
    fault.is_none() && s.rdex.len() == 0 && ref_free(s.heap, Ptr::make(VR2 as int, 0), s.heap.len())
}

/// Pairs of primaries that no rule handles: two numeric operators meeting.
pub open spec fn unhandled(a: Ptr, b: Ptr) -> bool {
    let ta = a.spec_tag();
    let tb = b.spec_tag();
    OP2 <= ta <= MAT && OP2 <= tb <= MAT
}

impl Net {
    pub open spec fn len(&self) -> nat {
        self.heap@.len()
    }

    pub open spec fn wf(&self) -> bool {
        &&& self@.ok()
        &&& self.locs@.len() >= 1
        &&& forall|i: int| 0 <= i < self.locs@.len() ==> #[trigger] self.locs@[i] < self.len()
        &&& 1 <= self.next < 2 * self.len()
    }

    /// Everything outside the model is as in `o`.
    pub open spec fn same_aux(&self, o: &Net) -> bool {
        &&& self.next == o.next
        &&& self.locs@ == o.locs@
        &&& self.fault == o.fault
    }

    /// A pointer that may be stored in this net.
    pub open spec fn holds(&self, p: Ptr) -> bool {
        in_heap(p, self.len())
    }

    /// An empty net with a heap of `size` slots.
    pub fn new(size: usize) -> (r: Self)
        requires
            1 <= size <= VAL_LIMIT,
        ensures
            r.wf(),
            r.len() == size,
            r.next == 1,
            r.rdex@.len() == 0,
            forall|i: int| 0 <= i < size ==> #[trigger] r.heap@[i] == (Ptr(0), Ptr(0)),
            r@.total() == 0,
            r.fault.is_none(),
    {
        let heap = Heap::new(size);
        let mut locs: Vec<Val> = Vec::new();
        while locs.len() < LOCS_INIT
            invariant
                locs@.len() <= LOCS_INIT,
                forall|i: int| 0 <= i < locs@.len() ==> #[trigger] locs@[i] == 0,
            decreases LOCS_INIT - locs@.len(),
        {
            locs.push(0);
        }
        let r = Net {
            rdex: Vec::new(),
            heap,
            locs,
            next: 1,
            anni: 0,
            comm: 0,
            eras: 0,
            dref: 0,
            oper: 0,
            fault: None,
        };
        assert(heap_ok(r.heap@)) by {
            assert forall|i: int| 0 <= i < r.heap@.len() implies in_heap((#[trigger] r.heap@[i]).0, r.len())
                && in_heap(r.heap@[i].1, r.len()) by {
                assert(r.heap@[i] == (Ptr(0), Ptr(0)));
            }
        }
        r
    }

    /// Writes REF(root_id) into the root wire.
    pub fn boot(&mut self, root_id: Val)
        requires
            old(self).wf(),
            root_id < VAL_LIMIT,
        ensures
            final(self).wf(),
            final(self).same_aux(old(self)),
            final(self)@ == old(self)@.with_heap(with_port(old(self)@.heap, 0, 1, Ptr::make(REF as int, root_id as int))),
    {
        let p = Ptr::new(REF, root_id);
        proof {
            lemma_with_port_ok(self.heap@, 0, 1, p);
        }
        self.heap.set_root(p);
    }

    /// Total rewrite count (saturating at the largest `usize`).
    pub fn rewrites(&self) -> (r: usize)
        ensures
            r == if self@.total() <= usize::MAX { self@.total() } else { usize::MAX as int },
    {
        let t: u128 = self.anni as u128 + self.comm as u128 + self.eras as u128 + self.dref as u128
            + self.oper as u128;
        if t <= usize::MAX as u128 {
            t as usize
        } else {
            usize::MAX
        }
    }

    /// The pointer stored where `ptr` (a variable) points.
    pub fn get_target(&self, ptr: Ptr) -> (r: Ptr)
        requires
            ptr.spec_val() < self.len(),
        ensures
            r == port_of(self.heap@, ptr.spec_val(), ptr.spec_port()),
    {
        self.heap.get(ptr.val(), ptr.port())
    }

    /// Stores `val` where `ptr` (a variable) points.
    pub fn set_target(&mut self, ptr: Ptr, val: Ptr)
        requires
            old(self).wf(),
            ptr.spec_val() < old(self).len(),
            old(self).holds(val),
        ensures
            final(self).wf(),
            final(self).same_aux(old(self)),
            final(self)@ == old(self)@.with_heap(with_port(old(self).heap@, ptr.spec_val(), ptr.spec_port(), val)),
    {
        proof {
            lemma_with_port_ok(self.heap@, ptr.spec_val(), ptr.spec_port(), val);
        }
        self.heap.set(ptr.val(), ptr.port(), val)
    }

    /// Frees slot `index`.
    pub fn free(&mut self, index: Val)
        requires
            old(self).wf(),
            index < old(self).len(),
        ensures
            final(self).wf(),
            final(self).same_aux(old(self)),
            final(self)@ == old(self)@.with_heap(freed(old(self).heap@, index as int)),
    {
        proof {
            lemma_freed_ok(self.heap@, index as int);
        }
        self.heap.free(index)
    }

    /// Takes a slot for a new node that avoids `x` and `y`: the next fresh
    /// one while the heap has not been filled once, and afterwards a slot
    /// (other than the root's) whose second port is null, probing forward.
    /// `None` when a full probe finds no such slot.
    fn grab(&mut self, x: Val, y: Val) -> (r: Option<Val>)
        requires
            old(self).wf(),
        ensures
            final(self).wf(),
            final(self)@ == old(self)@,
            final(self).locs@ == old(self).locs@,
            final(self).fault == old(self).fault,
            r matches Some(i) ==> fresh(old(self).heap@, i as int, x as int, y as int),
            r is None ==> forall|j: int|
                1 <= j < old(self).len() && j != x && j != y ==> #[trigger] old(self).heap@[j].1 != Ptr(0),
    {
        let len = self.heap.len();
        if self.next < len {
            let index = self.next as Val;
            self.next = self.next + 1;
            if index != x && index != y && self.heap.get(index, P2).is_nil() {
                return Some(index);
            }
            if self.next < len {
                self.next = len;
            }
        }
        let ghost c0 = self.next - len;
        proof {
            vstd::arithmetic::div_mod::lemma_small_mod(c0 as nat, len as nat);
        }
        let mut tries: usize = 0;
        while tries < len
            invariant
                self.wf(),
                len == self.len(),
                self@ == old(self)@,
                self.locs@ == old(self).locs@,
                self.fault == old(self).fault,
                0 <= c0 < len,
                len <= self.next < 2 * len,
                tries <= len,
                self.next - len == (c0 + tries) % (len as int),
                forall|t: int|
                    1 <= t <= tries ==> ((c0 + t) % (len as int) == 0 || (c0 + t) % (len as int) == x
                        || (c0 + t) % (len as int) == y || #[trigger] self.heap@[(c0 + t) % (len as int)].1
                        != Ptr(0)),
            decreases len - tries,
        {
            let ghost prev = self.next;
            self.next = if self.next + 1 < 2 * len {
                self.next + 1
            } else {
                len
            };
            proof {
                let l = len as int;
                let k = prev - l;
                assert((k + 1) % l == (c0 + tries + 1) % l) by {
                    vstd::arithmetic::div_mod::lemma_add_mod_noop_right(1, c0 + tries, l);
                }
                if k + 1 < l {
                    vstd::arithmetic::div_mod::lemma_small_mod((k + 1) as nat, l as nat);
                } else {
                    vstd::arithmetic::div_mod::lemma_mod_self_0(l);
                }
            }
            let index = (self.next - len) as Val;
            if index != 0 && index != x && index != y && self.heap.get(index, P2).is_nil() {
                return Some(index);
            }
            tries = tries + 1;
        }
        proof {
            let l = len as int;
            assert forall|j: int| 1 <= j < l && j != x && j != y implies #[trigger] old(self).heap@[j].1 != Ptr(0) by {
                let t = if j > c0 { j - c0 } else { j - c0 + l };
                if j > c0 {
                    vstd::arithmetic::div_mod::lemma_small_mod(j as nat, l as nat);
                } else {
                    vstd::arithmetic::div_mod::lemma_mod_add_multiples_vanish(j, l);
                    vstd::arithmetic::div_mod::lemma_small_mod(j as nat, l as nat);
                }
                assert((c0 + t) % l == j);
                assert(1 <= t <= tries);
            }
        }
        None
    }

    /// Takes a slot for a new node (see `grab`); the net is unchanged but for
    /// the allocation cursor.
    pub fn alloc_slot(&mut self, size: usize) -> (r: Option<Val>)
        requires
            old(self).wf(),
        ensures
            final(self).wf(),
            final(self)@ == old(self)@,
            final(self).locs@ == old(self).locs@,
            final(self).fault == old(self).fault,
            r matches Some(i) ==> fresh(old(self).heap@, i as int, 0, 0),
            r is None ==> heap_full(old(self).heap@),
    {
        self.grab(0, 0)
    }

    /// Clears the reservation marks of `ls`, from index `k` on.
    fn unmark(&mut self, ls: &Vec<Val>, Ghost(h): Ghost<Seq<(Ptr, Ptr)>>, Ghost(x): Ghost<int>, Ghost(y): Ghost<int>)
        requires
            old(self).wf(),
            old(self).heap@ == marked(h, ls@),
            forall|i: int| 0 <= i < ls@.len() ==> fresh(h, #[trigger] ls@[i] as int, x, y),
            forall|i: int, j: int| 0 <= i < j < ls@.len() ==> ls@[i] != ls@[j],
        ensures
            final(self).wf(),
            final(self).heap@ == h,
            final(self)@ == old(self)@.with_heap(h),
            final(self).same_aux(old(self)),
    {
        let mut k: usize = 0;
        assert(ls@.subrange(0, ls@.len() as int) =~= ls@);
        while k < ls.len()
            invariant
                self.wf(),
                self.same_aux(old(self)),
                self@ == old(self)@.with_heap(self.heap@),
                k <= ls@.len(),
                h.len() == self.heap@.len(),
                self.heap@ == marked(h, ls@.subrange(k as int, ls@.len() as int)),
                forall|i: int| 0 <= i < ls@.len() ==> fresh(h, #[trigger] ls@[i] as int, x, y),
                forall|i: int, j: int| 0 <= i < j < ls@.len() ==> ls@[i] != ls@[j],
            decreases ls@.len() - k,
        {
            let l = ls[k];
            assert(fresh(h, ls@[k as int] as int, x, y));
            self.put(l, P2, Ptr::null());
            let ghost rest = ls@.subrange(k + 1, ls@.len() as int);
            assert(!rest.contains(l)) by {
                if rest.contains(l) {
                    let m = choose|m: int| 0 <= m < rest.len() && rest[m] == l;
                    assert(ls@[k + 1 + m] == l);
                }
            }
            assert(self.heap@ =~= marked(h, rest)) by {
                let old_rest = ls@.subrange(k as int, ls@.len() as int);
                assert forall|j: int| 0 <= j < h.len() implies self.heap@[j] == marked(h, rest)[j] by {
                    if rest.contains(j as u32) {
                        let m = choose|m: int| 0 <= m < rest.len() && rest[m] == j as u32;
                        assert(old_rest[m + 1] == j as u32);
                    } else if old_rest.contains(j as u32) && j != l {
                        let m = choose|m: int| 0 <= m < old_rest.len() && old_rest[m] == j as u32;
                        assert(m != 0);
                        assert(rest[m - 1] == j as u32);
                    }
                }
            }
            k = k + 1;
        }
        assert(ls@.subrange(ls@.len() as int, ls@.len() as int) =~= Seq::<u32>::empty());
        assert(self.heap@ =~= h);
    }

    /// Takes `n` distinct fresh slots avoiding `x` and `y`, or `None` when
    /// fewer are free. The net is unchanged but for the allocation cursor.
    fn grab_n(&mut self, n: usize, x: Val, y: Val) -> (r: Option<Vec<Val>>)
        requires
            old(self).wf(),
        ensures
            final(self).wf(),
            final(self)@ == old(self)@,
            final(self).locs@ == old(self).locs@,
            final(self).fault == old(self).fault,
            r matches Some(ls) ==> ls@.len() == n
                && (forall|i: int| 0 <= i < n ==> fresh(old(self).heap@, #[trigger] ls@[i] as int, x as int, y as int))
                && (forall|i: int, j: int| 0 <= i < j < n ==> ls@[i] != ls@[j]),
            r is None ==> few_free(old(self).heap@, x as int, y as int, n as nat),
    {
        let ghost h = self.heap@;
        let ghost s = self@;
        let mut ls: Vec<Val> = Vec::new();
        assert(marked(h, ls@) =~= h);
        while ls.len() < n
            invariant
                self.wf(),
                self.locs@ == old(self).locs@,
                self.fault == old(self).fault,
                s == old(self)@,
                h == s.heap,
                self@ == s.with_heap(self.heap@),
                self.heap@ == marked(h, ls@),
                ls@.len() <= n,
                forall|i: int| 0 <= i < ls@.len() ==> fresh(h, #[trigger] ls@[i] as int, x as int, y as int),
                forall|i: int, j: int| 0 <= i < j < ls@.len() ==> ls@[i] != ls@[j],
            decreases n - ls@.len(),
        {
            let o = self.grab(x, y);
            if o.is_none() {
                proof {
                    assert forall|j: int| #[trigger] fresh(h, j, x as int, y as int) implies ls@.contains(j as u32) by {
                        if !ls@.contains(j as u32) {
                            assert(marked(h, ls@)[j] == h[j]);
                        }
                    }
                    assert(ls@.len() < n);
                }
                self.unmark(&ls, Ghost(h), Ghost(x as int), Ghost(y as int));
                return None;
            }
            let i = o.unwrap();
            proof {
                assert(!ls@.contains(i)) by {
                    if ls@.contains(i) {
                        assert(marked(h, ls@)[i as int].1 == Ptr(5));
                    }
                }
                assert(self.heap@[i as int] == h[i as int]);
            }
            let e = Ptr::eras();
            assert(e == Ptr(5));
            self.put(i, P2, e);
            let ghost before = ls@;
            ls.push(i);
            proof {
                assert(ls@[before.len() as int] == i);
                assert(ls@.contains(i));
                assert(self.heap@ =~= marked(h, ls@)) by {
                    assert forall|j: int| 0 <= j < h.len() implies self.heap@[j] == marked(h, ls@)[j] by {
                        if ls@.contains(j as u32) && j != i {
                            let m = choose|m: int| 0 <= m < ls@.len() && ls@[m] == j as u32;
                            assert(before[m] == j as u32);
                        }
                        if before.contains(j as u32) {
                            let m = choose|m: int| 0 <= m < before.len() && before[m] == j as u32;
                            assert(ls@[m] == j as u32);
                        }
                    }
                }
                assert forall|a: int, b: int| 0 <= a < b < ls@.len() implies ls@[a] != ls@[b] by {
                    if b == before.len() {
                        assert(before.contains(before[a]));
                    }
                }
            }
        }
        self.unmark(&ls, Ghost(h), Ghost(x as int), Ghost(y as int));
        Some(ls)
    }

    /// Links two pointers, forming a new wire.
    pub fn link(&mut self, a: Ptr, b: Ptr)
        requires
            old(self).wf(),
            old(self).holds(a),
            old(self).holds(b),
        ensures
            final(self).wf(),
            old(self)@.counted_up_to(final(self)@),
            final(self).len() == old(self).len(),
            final(self).same_aux(old(self)),
            final(self)@ == link_spec(old(self)@, a, b),
    {
        proof {
            lemma_link_ok(self@, a, b);
        }
        if a.is_pri() && b.is_pri() {
            if a.is_skp() && b.is_skp() {
                self.eras = bumped(self.eras);
            } else {
                self.rdex.push((a, b));
            }
            return;
        }
        if !a.is_pri() {
            self.set_target(a, b);
        }
        if !b.is_pri() {
            self.set_target(b, a);
        }
    }

    /// The pointer at port `port` of the node that `p` names.
    fn port(&self, p: Ptr, port: Val) -> (r: Ptr)
        requires
            self.wf(),
            p.spec_val() < self.len(),
        ensures
            r == self@.at(p, port as int),
            self.holds(r),
    {
        proof {
            lemma_port_in_heap(self.heap@, p.spec_val(), port as int);
        }
        self.heap.get(p.val(), port)
    }

    /// Splices only the port-2 wires of two nodes.
    pub fn conn(&mut self, a: Ptr, b: Ptr)
        requires
            old(self).wf(),
            a.spec_val() < old(self).len(),
            b.spec_val() < old(self).len(),
        ensures
            final(self).wf(),
            old(self)@.counted_up_to(final(self)@),
            final(self).len() == old(self).len(),
            final(self).same_aux(old(self)),
            final(self)@ == conn_spec(old(self)@, a, b),
    {
        self.anni = bumped(self.anni);
        let x = self.port(a, P2);
        let y = self.port(b, P2);
        self.link(x, y);
        self.free(a.val());
        self.free(b.val());
    }

    /// Annihilation of two nodes of the same label.
    pub fn anni(&mut self, a: Ptr, b: Ptr)
        requires
            old(self).wf(),
            a.spec_val() < old(self).len(),
            b.spec_val() < old(self).len(),
        ensures
            final(self).wf(),
            old(self)@.counted_up_to(final(self)@),
            final(self).len() == old(self).len(),
            final(self).same_aux(old(self)),
            final(self)@ == anni_spec(old(self)@, a, b),
    {
        self.anni = bumped(self.anni);
        let x = self.port(a, P1);
        let y = self.port(b, P1);
        self.link(x, y);
        let x = self.port(a, P2);
        let y = self.port(b, P2);
        self.link(x, y);
        self.free(a.val());
        self.free(b.val());
    }

    /// A constructor meets a number: both aux ports receive the number.
    pub fn copy(&mut self, a: Ptr, b: Ptr)
        requires
            old(self).wf(),
            a.spec_val() < old(self).len(),
            old(self).holds(b),
        ensures
            final(self).wf(),
            old(self)@.counted_up_to(final(self)@),
            final(self).len() == old(self).len(),
            final(self).same_aux(old(self)),
            final(self)@ == copy_spec(old(self)@, a, b),
    {
        self.comm = bumped(self.comm);
        let x = self.port(a, P1);
        self.link(x, b);
        let x = self.port(a, P2);
        self.link(x, b);
        self.free(a.val());
    }

    /// A two-port node meets an eraser.
    pub fn era2(&mut self, a: Ptr)
        requires
            old(self).wf(),
            a.spec_val() < old(self).len(),
        ensures
            final(self).wf(),
            old(self)@.counted_up_to(final(self)@),
            final(self).len() == old(self).len(),
            final(self).same_aux(old(self)),
            final(self)@ == era2_spec(old(self)@, a),
    {
        self.eras = bumped(self.eras);
        let x = self.port(a, P1);
        self.link(x, Ptr::eras());
        let x = self.port(a, P2);
        self.link(x, Ptr::eras());
        self.free(a.val());
    }

    /// A unary operation meets an eraser.
    pub fn era1(&mut self, a: Ptr)
        requires
            old(self).wf(),
            a.spec_val() < old(self).len(),
        ensures
            final(self).wf(),
            old(self)@.counted_up_to(final(self)@),
            final(self).len() == old(self).len(),
            final(self).same_aux(old(self)),
            final(self)@ == era1_spec(old(self)@, a),
    {
        self.eras = bumped(self.eras);
        let x = self.port(a, P2);
        self.link(x, Ptr::eras());
        self.free(a.val());
    }

    /// A unary operation, holding its first operand, meets its second.
    pub fn op1n(&mut self, a: Ptr, b: Ptr)
        requires
            old(self).wf(),
            a.spec_val() < old(self).len(),
        ensures
            final(self).wf(),
            old(self)@.counted_up_to(final(self)@),
            final(self).len() == old(self).len(),
            final(self).same_aux(old(self)),
            final(self)@ == op1n_spec(old(self)@, a, b),
    {
        self.oper = bumped(self.oper);
        let p1 = self.port(a, P1);
        let p2 = self.port(a, P2);
        let v = self.op(p1.val(), b.val());
        let n = Ptr::new(NUM, v);
        self.link(n, p2);
        self.free(a.val());
    }

    /// The numeric micro-ALU.
    pub fn op(&self, a: Val, b: Val) -> (r: Val)
        ensures
            r == alu(a, b),
            r < VAL_LIMIT,
    {
        let opr = (a >> 24) & 0xF;
        let x = a & 0xFF_FFFF;
        let y = b & 0xFF_FFFF;
        assert(x <= 0xFF_FFFFu32 && y <= 0xFF_FFFFu32 && opr < 16) by (bit_vector)
            requires
                x == a & 0xFF_FFFFu32,
                y == b & 0xFF_FFFFu32,
                opr == (a >> 24u32) & 0xFu32,
        ;
        if opr == 0 {
            let r = ((x & 0xF) << 24) | y;
            assert(r < 0x1000_0000u32) by (bit_vector)
                requires
                    r == ((x & 0xFu32) << 24u32) | y,
                    y <= 0xFF_FFFFu32,
            ;
            r
        } else if opr == 1 {
            (x + y) % 0x100_0000
        } else if opr == 2 {
            (x + 0x100_0000 - y) % 0x100_0000
        } else if opr == 3 {
            assert((x as int) * (y as int) <= 0xFF_FFFF * 0xFF_FFFF) by (nonlinear_arith)
                requires
                    x <= 0xFF_FFFF,
                    y <= 0xFF_FFFF,
            ;
            ((x as u64 * y as u64) % 0x100_0000) as u32
        } else if opr == 4 {
            if y == 0 {
                0xFF_FFFF
            } else {
                x / y
            }
        } else if opr == 5 {
            if y == 0 {
                x
            } else {
                x % y
            }
        } else if opr == 6 {
            if x == y { 1 } else { 0 }
        } else if opr == 7 {
            if x != y { 1 } else { 0 }
        } else if opr == 8 {
            if x < y { 1 } else { 0 }
        } else if opr == 9 {
            if x > y { 1 } else { 0 }
        } else if opr == 10 {
            assert(x & y <= 0xFF_FFFFu32) by (bit_vector)
                requires
                    x <= 0xFF_FFFFu32,
            ;
            x & y
        } else if opr == 11 {
            assert(x | y <= 0xFF_FFFFu32) by (bit_vector)
                requires
                    x <= 0xFF_FFFFu32,
                    y <= 0xFF_FFFFu32,
            ;
            x | y
        } else if opr == 12 {
            assert(x ^ y <= 0xFF_FFFFu32) by (bit_vector)
                requires
                    x <= 0xFF_FFFFu32,
                    y <= 0xFF_FFFFu32,
            ;
            x ^ y
        } else if opr == 13 {
            let r = (!y) & 0xFF_FFFF;
            assert(r <= 0xFF_FFFFu32) by (bit_vector)
                requires
                    r == (!y) & 0xFF_FFFFu32,
            ;
            r
        } else if opr == 14 {
            if y < 32 {
                let r = (x << y) & 0xFF_FFFF;
                assert(r <= 0xFF_FFFFu32) by (bit_vector)
                    requires
                        r == (x << y) & 0xFF_FFFFu32,
                ;
                r
            } else {
                0
            }
        } else {
            if y < 32 {
                let r = x >> y;
                assert(r <= x) by (bit_vector)
                    requires
                        r == x >> y,
                ;
                r
            } else {
                0
            }
        }
    }

    /// Stores `v` at port `port` of slot `index`.
    fn put(&mut self, index: Val, port: Port, v: Ptr)
        requires
            old(self).wf(),
            index < old(self).len(),
            old(self).holds(v),
        ensures
            final(self).wf(),
            final(self).same_aux(old(self)),
            final(self)@ == old(self)@.with_heap(with_port(old(self).heap@, index as int, port as int, v)),
    {
        proof {
            lemma_with_port_ok(self.heap@, index as int, port as int, v);
        }
        self.heap.set(index, port, v)
    }

    /// Commutation: two nodes of different kinds or labels cross each other,
    /// each wire of one receiving a copy of the other. On a full heap the net
    /// is left as it was and marked `HeapFull`.
    pub fn comm(&mut self, a: Ptr, b: Ptr)
        requires
            old(self).wf(),
            a.spec_val() < old(self).len(),
            b.spec_val() < old(self).len(),
        ensures
            final(self).wf(),
            old(self)@.counted_up_to(final(self)@),
            final(self).len() == old(self).len(),
            final(self).locs@ == old(self).locs@,
            (final(self).fault == Some(Fault::HeapFull) && final(self)@ == old(self)@ && few_free(old(self).heap@, a.spec_val(), b.spec_val(), 4)) || (
            final(self).fault == old(self).fault && comm_done(old(self)@, final(self)@, a, b)),
    {
        let ghost s = self@;
        let o = self.grab_n(4, a.val(), b.val());
        if o.is_none() {
            self.fault = Some(Fault::HeapFull);
            return;
        }
        let ls = o.unwrap();
        let l0 = ls[0];
        let l1 = ls[1];
        let l2 = ls[2];
        let l3 = ls[3];
        self.comm = bumped(self.comm);
        let x = self.port(a, P1);
        self.link(x, Ptr::new(b.tag(), l0));
        let x = self.port(b, P1);
        self.link(x, Ptr::new(a.tag(), l2));
        let x = self.port(a, P2);
        self.link(x, Ptr::new(b.tag(), l1));
        let x = self.port(b, P2);
        self.link(x, Ptr::new(a.tag(), l3));
        let ghost h4 = self.heap@;
        self.put(l0, P1, Ptr::new(VR1, l2));
        self.put(l0, P2, Ptr::new(VR1, l3));
        self.put(l1, P1, Ptr::new(VR2, l2));
        self.put(l1, P2, Ptr::new(VR2, l3));
        self.put(l2, P1, Ptr::new(VR1, l0));
        self.put(l2, P2, Ptr::new(VR1, l1));
        self.put(l3, P1, Ptr::new(VR2, l0));
        self.put(l3, P2, Ptr::new(VR2, l1));
        assert(self.heap@ == mesh(h4, l0 as int, l1 as int, l2 as int, l3 as int));
        self.free(a.val());
        self.free(b.val());
        assert(self@ == comm_spec(s, a, b, l0 as int, l1 as int, l2 as int, l3 as int));
    }

    /// A unary operation meets a constructor: the operation, with its operand,
    /// is copied into both branches.
    pub fn pass(&mut self, a: Ptr, b: Ptr)
        requires
            old(self).wf(),
            a.spec_val() < old(self).len(),
            b.spec_val() < old(self).len(),
        ensures
            final(self).wf(),
            old(self)@.counted_up_to(final(self)@),
            final(self).len() == old(self).len(),
            final(self).locs@ == old(self).locs@,
            (final(self).fault == Some(Fault::HeapFull) && final(self)@ == old(self)@ && few_free(old(self).heap@, a.spec_val(), b.spec_val(), 3)) || (
            final(self).fault == old(self).fault && pass_done(old(self)@, final(self)@, a, b)),
    {
        let ghost s = self@;
        let o = self.grab_n(3, a.val(), b.val());
        if o.is_none() {
            self.fault = Some(Fault::HeapFull);
            return;
        }
        let ls = o.unwrap();
        let l0 = ls[0];
        let l1 = ls[1];
        let l2 = ls[2];
        self.comm = bumped(self.comm);
        let x = self.port(a, P2);
        self.link(x, Ptr::new(b.tag(), l0));
        let x = self.port(b, P1);
        self.link(x, Ptr::new(a.tag(), l1));
        let x = self.port(b, P2);
        self.link(x, Ptr::new(a.tag(), l2));
        self.put(l0, P1, Ptr::new(VR2, l1));
        self.put(l0, P2, Ptr::new(VR2, l2));
        let x = self.port(a, P1);
        self.put(l1, P1, x);
        self.put(l1, P2, Ptr::new(VR1, l0));
        let x = self.port(a, P1);
        self.put(l2, P1, x);
        self.put(l2, P2, Ptr::new(VR2, l0));
        self.free(a.val());
        self.free(b.val());
        assert(self@ == pass_spec(s, a, b, l0 as int, l1 as int, l2 as int));
    }

    /// A match node meets a number: zero selects the first branch, a
    /// successor the second, with the predecessor.
    pub fn mtch(&mut self, a: Ptr, b: Ptr)
        requires
            old(self).wf(),
            a.spec_val() < old(self).len(),
        ensures
            final(self).wf(),
            old(self)@.counted_up_to(final(self)@),
            final(self).len() == old(self).len(),
            final(self).locs@ == old(self).locs@,
            (final(self).fault == Some(Fault::HeapFull) && final(self)@ == old(self)@ && few_free(old(self).heap@, a.spec_val(), a.spec_val(), if b.spec_val() == 0 { 1 } else { 2 })) || (
            final(self).fault == old(self).fault && mtch_done(old(self)@, final(self)@, a, b)),
    {
        let ghost s = self@;
        if b.val() == 0 {
            let o = self.grab_n(1, a.val(), a.val());
            if o.is_none() {
                self.fault = Some(Fault::HeapFull);
                return;
            }
            let l0 = o.unwrap()[0];
            self.oper = bumped(self.oper);
            let p1 = self.port(a, P1);
            let p2 = self.port(a, P2);
            self.put(l0, P2, Ptr::eras());
            self.link(p1, Ptr::new(CT0, l0));
            self.link(p2, Ptr::new(VR1, l0));
            self.free(a.val());
            assert(self@ == mtch_spec(s, a, b, l0 as int, l0 as int));
        } else {
            let o = self.grab_n(2, a.val(), a.val());
            if o.is_none() {
                self.fault = Some(Fault::HeapFull);
                return;
            }
            let ls = o.unwrap();
            let l0 = ls[0];
            let l1 = ls[1];
            self.oper = bumped(self.oper);
            let p1 = self.port(a, P1);
            let p2 = self.port(a, P2);
            self.put(l0, P1, Ptr::eras());
            self.put(l0, P2, Ptr::new(CT0, l1));
            self.put(l1, P1, Ptr::new(NUM, b.val() - 1));
            self.link(p1, Ptr::new(CT0, l0));
            self.link(p2, Ptr::new(VR2, l1));
            self.free(a.val());
            assert(self@ == mtch_spec(s, a, b, l0 as int, l1 as int));
        }
    }

    /// A binary operation meets a number. When the operation already holds a
    /// number, the chain of ready operations behind it is folded at once (at
    /// most one link per heap slot); otherwise it becomes a unary operation
    /// holding the number and waits for its operand.
    pub fn op2n(&mut self, a: Ptr, b: Ptr)
        requires
            old(self).wf(),
            a.spec_val() < old(self).len(),
            old(self).holds(b),
        ensures
            final(self).wf(),
            old(self)@.counted_up_to(final(self)@),
            final(self).len() == old(self).len(),
            final(self).same_aux(old(self)),
            final(self)@ == op2n_spec(old(self)@, a, b, old(self).len()),
    {
        self.oper = bumped(self.oper);
        let ghost s0 = self@;
        let ghost h = self.heap@;
        let mut p1 = self.port(a, P1);
        if p1.is_num() {
            let mut rt = b.val();
            let mut p2 = self.port(a, P2);
            let mut fuel: usize = self.heap.len();
            let ghost whole = fold_chain(h, rt, p1, p2, fuel as nat);
            loop
                invariant_except_break
                    h == s0.heap,
                    self.wf(),
                    self.same_aux(old(self)),
                    self@ == (NetState { oper: bump(s0.oper, (whole.2 - fold_chain(h, rt, p1, p2, fuel as nat).2) as nat), ..s0 }),
                    self.holds(p2),
                    fold_chain(h, rt, p1, p2, fuel as nat).0 == whole.0,
                    fold_chain(h, rt, p1, p2, fuel as nat).1 == whole.1,
                    fold_chain(h, rt, p1, p2, fuel as nat).2 <= whole.2,
                    rt < VAL_LIMIT,
                ensures
                    h == s0.heap,
                    self.wf(),
                    self.same_aux(old(self)),
                    self@ == (NetState { oper: bump(s0.oper, whole.2), ..s0 }),
                    self.holds(p2),
                    rt == whole.0,
                    p2 == whole.1,
                    rt < VAL_LIMIT,
                decreases fuel,
            {
                let ghost rest = fold_chain(h, rt, p1, p2, fuel as nat);
                self.oper = bumped(self.oper);
                rt = self.op(rt, p1.val());
                if fuel == 0 {
                    break;
                }
                if p2.is_op2() {
                    let q1 = self.port(p2, P1);
                    if q1.is_num() {
                        let q2 = self.port(p2, P2);
                        p1 = q1;
                        p2 = q2;
                        self.oper = bumped(self.oper);
                        fuel = fuel - 1;
                        continue;
                    }
                }
                if p2.is_op1() {
                    let tmp = rt;
                    rt = self.port(p2, P1).val();
                    p1 = Ptr::new(NUM, tmp);
                    p2 = self.port(p2, P2);
                    fuel = fuel - 1;
                    continue;
                }
                break;
            }
            self.link(Ptr::new(NUM, rt), p2);
            return;
        }
        self.put(a.val(), P1, b);
        self.link(Ptr::new(OP1, a.val()), p1);
    }

    /// Does `p` fit this net's heap?
    pub fn fits(&self, p: Ptr) -> (r: bool)
        ensures
            r == self.holds(p),
    {
        p.is_skp() || (p.val() as usize) < self.heap.len()
    }

    /// Relocates a template pointer through the relocation table.
    fn adjust(&self, ptr: Ptr) -> (r: Ptr)
        requires
            self.wf(),
            ptr.spec_has_loc() ==> ptr.spec_val() < self.locs@.len(),
        ensures
            r == adjust_spec(ptr, self.locs@),
            ptr.spec_has_loc() ==> self.holds(r) && r.spec_tag() == ptr.spec_tag(),
    {
        if ptr.has_loc() {
            Ptr::new(ptr.tag(), self.locs[ptr.val() as usize])
        } else {
            ptr
        }
    }

    /// Dereferences `ptr`, wired to `par`, given the native hook's answer
    /// `native`. On a full heap the net is left as it was (but for the
    /// relocation table) and marked `HeapFull`.
    pub fn call_with<N>(&mut self, book: &Book<N>, ptr: Ptr, par: Ptr, native: Option<Ptr>)
        requires
            old(self).wf(),
            book.wf(),
            old(self).holds(ptr),
            old(self).holds(par),
        ensures
            final(self).wf(),
            old(self)@.counted_up_to(final(self)@),
            final(self).len() == old(self).len(),
            (final(self).fault == Some(Fault::HeapFull) && final(self)@ == old(self)@
                && expands(old(self)@, book.lookup(ref_id(ptr)), ptr, native)
                && few_free(old(self).heap@, 0, 0, (book.lookup(ref_id(ptr)).1.len() - 1) as nat)) || (
            final(self).fault == old(self).fault && final(self)@ == deref_spec(
                old(self)@,
                book.lookup(ref_id(ptr)),
                ptr,
                par,
                native,
                final(self).locs@,
            ) && (expands(old(self)@, book.lookup(ref_id(ptr)), ptr, native) ==> fresh_locs(
                old(self).heap@,
                final(self).locs@,
                book.lookup(ref_id(ptr)).1.len() as int,
            ))),
    {
        let ghost s = self@;
        if !ptr.is_ref() {
            self.dref = bumped(self.dref);
            self.link(ptr, par);
            return;
        }
        if let Some(p) = native {
            if self.fits(p) {
                self.dref = bumped(self.dref);
                self.link(p, par);
                return;
            }
        }
        let v = ptr.val();
        let id = v & 0xFF_FFFF;
        assert(id == v % 0x100_0000) by (bit_vector)
            requires
                id == v & 0xFF_FFFFu32,
        ;
        let got = book.get(id);
        if got.is_none() {
            self.dref = bumped(self.dref);
            self.link(ptr, par);
            return;
        }
        let def = got.unwrap();
        let n = def.node.len();
        if n == 0 {
            self.dref = bumped(self.dref);
            self.link(ptr, par);
            return;
        }
        assert(def.wf());
        while self.locs.len() < n
            invariant
                self.wf(),
                self@ == s,
                s == old(self)@,
                self.fault == old(self).fault,
            decreases n - self.locs@.len(),
        {
            self.locs.push(0);
        }
        let o = self.grab_n(n - 1, 0, 0);
        if o.is_none() {
            self.fault = Some(Fault::HeapFull);
            return;
        }
        let ls = o.unwrap();
        let mut i: usize = 1;
        while i < n
            invariant
                self.wf(),
                self@ == s,
                s == old(self)@,
                self.fault == old(self).fault,
                1 <= i <= n,
                n == def.node@.len(),
                n <= self.locs@.len(),
                ls@.len() == n - 1,
                forall|k: int| 0 <= k < n - 1 ==> fresh(s.heap, #[trigger] ls@[k] as int, 0, 0),
                forall|k: int, j: int| 0 <= k < j < n - 1 ==> ls@[k] != ls@[j],
                forall|k: int| 1 <= k < i ==> #[trigger] self.locs@[k] == ls@[k - 1],
            decreases n - i,
        {
            let l = ls[i - 1];
            assert(fresh(s.heap, ls@[i - 1] as int, 0, 0));
            self.locs.set(i, l);
            i = i + 1;
        }
        assert(fresh_locs(s.heap, self.locs@, n as int)) by {
            assert forall|k: int| 1 <= k < n implies fresh(s.heap, #[trigger] self.locs@[k] as int, 0, 0) by {
                assert(self.locs@[k] == ls@[k - 1]);
            }
            assert forall|k: int, j: int| 1 <= k < j < n implies self.locs@[k] != self.locs@[j] by {
                assert(self.locs@[k] == ls@[k - 1]);
                assert(self.locs@[j] == ls@[j - 1]);
            }
        }
        let ghost placed_locs = self.locs@;
        self.dref = bumped(self.dref);
        let ghost s0 = self@;
        let ghost locs = self.locs@;
        let mut i: usize = 1;
        while i < n
            invariant
                self.wf(),
                self.holds(par),
                self.len() == old(self).len(),
                old(self)@.counted_up_to(self@),
                self.locs@ == locs,
                self.fault == old(self).fault,
                1 <= i <= n,
                n == def.node@.len(),
                n <= self.locs@.len(),
                def.wf(),
                self@ == s0.with_heap(place(s0.heap, def.node@, locs, i as int)),
            decreases n - i,
        {
            let p1 = self.adjust(def.node[i].0);
            let p2 = self.adjust(def.node[i].1);
            let lc = self.locs[i];
            self.put(lc, P1, p1);
            self.put(lc, P2, p2);
            i = i + 1;
        }
        let ghost s1 = self@;
        let mut j: usize = 0;
        while j < def.rdex.len()
            invariant
                self.wf(),
                self.holds(par),
                self.len() == old(self).len(),
                old(self)@.counted_up_to(self@),
                self.locs@ == locs,
                self.fault == old(self).fault,
                j <= def.rdex@.len(),
                def.node@.len() <= self.locs@.len(),
                def.wf(),
                self@ == (NetState { rdex: s1.rdex + relocated(def.rdex@.take(j as int), locs), ..s1 }),
            decreases def.rdex@.len() - j,
        {
            let r = def.rdex[j];
            let x = self.adjust(r.0);
            let y = self.adjust(r.1);
            let ghost before = self.rdex@;
            self.rdex.push((x, y));
            assert(relocated(def.rdex@.take(j + 1), locs) =~= relocated(def.rdex@.take(j as int), locs).push((x, y)));
            assert(self.rdex@ =~= s1.rdex + relocated(def.rdex@.take(j + 1), locs));
            assert(rdex_ok(self.rdex@, self.len())) by {
                assert forall|k: int| 0 <= k < self.rdex@.len() implies in_heap((#[trigger] self.rdex@[k]).0, self.len())
                    && in_heap(self.rdex@[k].1, self.len()) && self.rdex@[k].0.spec_is_pri()
                    && self.rdex@[k].1.spec_is_pri() by {
                    if k < before.len() {
                        assert(self.rdex@[k] == before[k]);
                    }
                }
            }
            j = j + 1;
        }
        assert(def.rdex@.take(def.rdex@.len() as int) =~= def.rdex@);
        assert(crate::book::local_ok(def.node@[0].0, def.node@.len()));
        let root = self.adjust(def.node[0].1);
        self.link(root, par);
    }

    /// Dereferences `ptr`, wired to `par`, asking the book's native hook
    /// first.
    pub fn call<N: Native>(&mut self, book: &Book<N>, ptr: Ptr, par: Ptr)
        requires
            old(self).wf(),
            book.wf(),
            old(self).holds(ptr),
            old(self).holds(par),
        ensures
            final(self).wf(),
            old(self)@.counted_up_to(final(self)@),
            final(self).len() == old(self).len(),
            (final(self).fault == Some(Fault::HeapFull) && final(self)@ == old(self)@
                && expands(old(self)@, book.lookup(ref_id(ptr)), ptr, book.call_native.answer(old(self)@, ptr, par))
                && few_free(old(self).heap@, 0, 0, (book.lookup(ref_id(ptr)).1.len() - 1) as nat)) || (
            final(self).fault == old(self).fault && deref_done(
                old(self)@,
                final(self)@,
                book.lookup(ref_id(ptr)),
                ptr,
                par,
                book.call_native.answer(old(self)@, ptr, par),
                final(self).locs@,
            )),
    {
        let native = if ptr.is_ref() {
            book.call_native.call_native(self, &book.defs, ptr, par)
        } else {
            None
        };
        self.call_with(book, ptr, par, native);
    }

    /// Performs an interaction over a redex. Two numeric operators meeting is
    /// a malformed net: the net is left as it was and marked `BadRedex`.
    pub fn interact<N: Native>(&mut self, book: &Book<N>, a: Ptr, b: Ptr)
        requires
            old(self).wf(),
            book.wf(),
            old(self).holds(a),
            old(self).holds(b),
            a.spec_is_pri(),
            b.spec_is_pri(),
        ensures
            final(self).wf(),
            old(self)@.counted_up_to(final(self)@),
            final(self).len() == old(self).len(),
            interact_post(old(self)@, final(self)@, old(self).fault, final(self).fault, book, a, b, final(self).locs@),
    {
        let ta = a.tag();
        let tb = b.tag();
        if ta == REF && tb >= OP2 {
            self.call(book, a, b);
        } else if ta >= OP2 && tb == REF {
            self.call(book, b, a);
        } else if ta >= CT0 && tb >= CT0 {
            if ta == tb {
                self.anni(a, b);
            } else {
                self.comm(a, b);
            }
        } else if ta >= CT0 && tb == ERA {
            self.era2(a);
        } else if ta == ERA && tb >= CT0 {
            self.era2(b);
        } else if a.is_skp() && b.is_skp() {
            self.eras = bumped(self.eras);
        } else if ta >= CT0 && tb == NUM {
            self.copy(a, b);
        } else if ta == NUM && tb >= CT0 {
            self.copy(b, a);
        } else if ta == OP2 && tb == NUM {
            self.op2n(a, b);
        } else if ta == NUM && tb == OP2 {
            self.op2n(b, a);
        } else if ta == OP1 && tb == NUM {
            self.op1n(a, b);
        } else if ta == NUM && tb == OP1 {
            self.op1n(b, a);
        } else if (ta == OP2 || ta == MAT) && tb >= CT0 {
            self.comm(a, b);
        } else if ta >= CT0 && (tb == OP2 || tb == MAT) {
            self.comm(b, a);
        } else if ta == OP1 && tb >= CT0 {
            self.pass(a, b);
        } else if ta >= CT0 && tb == OP1 {
            self.pass(b, a);
        } else if (ta == OP2 || ta == MAT) && tb == ERA {
            self.era2(a);
        } else if ta == ERA && (tb == OP2 || tb == MAT) {
            self.era2(b);
        } else if ta == OP1 && tb == ERA {
            self.era1(a);
        } else if ta == ERA && tb == OP1 {
            self.era1(b);
        } else if ta == MAT && tb == NUM {
            self.mtch(a, b);
        } else if ta == NUM && tb == MAT {
            self.mtch(b, a);
        } else {
            self.fault = Some(Fault::BadRedex);
        }
    }

    /// Reduces all redexes: takes the last queued redex and interacts it, until
    /// the queue is empty or a rewrite faults (a faulting redex goes back to
    /// the queue), for at most `usize::MAX` steps. Returns whether the queue
    /// was drained without a fault.
    pub fn reduce<N: Native>(&mut self, book: &Book<N>) -> (drained: bool)
        requires
            old(self).wf(),
            book.wf(),
        ensures
            final(self).wf(),
            old(self)@.counted_up_to(final(self)@),
            final(self).len() == old(self).len(),
            reachable(book, old(self)@, final(self)@),
            old(self).fault.is_some() ==> final(self).fault == old(self).fault && final(self)@ == old(self)@,
            drained == (final(self).rdex@.len() == 0 && final(self).fault.is_none()),
    {
        proof {
            lemma_reachable_refl(book, self@);
        }
        let mut fuel: usize = usize::MAX;
        while self.rdex.len() > 0 && self.fault.is_none() && fuel > 0
            invariant
                self.wf(),
                book.wf(),
                old(self)@.counted_up_to(self@),
                self.len() == old(self).len(),
                reachable(book, old(self)@, self@),
                old(self).fault.is_some() ==> self.fault == old(self).fault && self@ == old(self)@,
            decreases fuel,
        {
            let ghost m = self@;
            let last = self.rdex.len() - 1;
            let ghost pair = self.rdex@[last as int];
            assert(in_heap(self.rdex@[last as int].0, self.len()));
            let (a, b) = self.rdex.pop().unwrap();
            self.interact(book, a, b);
            if self.fault.is_some() {
                self.rdex.push((a, b));
                assert(self.rdex@ =~= m.rdex);
                assert(self@ == m);
            } else {
                proof {
                    let locs = self.locs@;
                    assert(dispatch(
                        NetState { rdex: m.rdex.subrange(0, m.rdex.len() - 1), ..m },
                        self@,
                        book,
                        m.rdex[m.rdex.len() - 1].0,
                        m.rdex[m.rdex.len() - 1].1,
                        locs,
                    ));
                    reveal(step);
                    assert(step(book, m, self@));
                    lemma_reachable_step(book, old(self)@, m, self@);
                }
            }
            fuel = fuel - 1;
        }
        self.rdex.len() == 0 && self.fault.is_none()
    }

    /// Whether no REF lies below `dir`, at most `depth` constructors deep.
    pub fn is_ref_free(&self, dir: Ptr, depth: usize) -> (r: bool)
        requires
            self.wf(),
            dir.spec_val() < self.len(),
        ensures
            r == ref_free(self.heap@, dir, depth as nat),
        decreases depth,
    {
        let ptr = self.get_target(dir);
        proof {
            lemma_port_in_heap(self.heap@, dir.spec_val(), dir.spec_port());
        }
        if ptr.is_ctr() {
            if depth == 0 {
                return true;
            }
            self.is_ref_free(Ptr::new(VR1, ptr.val()), depth - 1) && self.is_ref_free(Ptr::new(VR2, ptr.val()), depth - 1)
        } else {
            !ptr.is_ref()
        }
    }

    /// Expands the heads below `dir`, at most `depth` constructors deep:
    /// the first REF met on each path is dereferenced. Returns whether a REF
    /// lay below `dir`; when none did, the net is unchanged. What results is
    /// reached by dereference steps.
    pub fn expand_at<N: Native>(&mut self, book: &Book<N>, dir: Ptr, depth: usize) -> (found: bool)
        requires
            old(self).wf(),
            book.wf(),
            dir.spec_is_var(),
            dir.spec_val() < old(self).len(),
        ensures
            final(self).wf(),
            old(self)@.counted_up_to(final(self)@),
            final(self).len() == old(self).len(),
            reachable(book, old(self)@, final(self)@),
            found == !ref_free(old(self).heap@, dir, depth as nat),
            !found ==> final(self)@ == old(self)@ && final(self).fault == old(self).fault,
            old(self).fault.is_some() ==> final(self).fault.is_some(),
            found ==> final(self).fault.is_some() || final(self).dref > old(self).dref || old(self).dref == usize::MAX,
        decreases depth,
    {
        let ptr = self.get_target(dir);
        proof {
            lemma_port_in_heap(self.heap@, dir.spec_val(), dir.spec_port());
            lemma_reachable_refl(book, self@);
        }
        if ptr.is_ctr() {
            if depth == 0 {
                return false;
            }
            let ghost s0 = self@;
            let f1 = self.expand_at(book, Ptr::new(VR1, ptr.val()), depth - 1);
            let ghost s1 = self@;
            let f2 = self.expand_at(book, Ptr::new(VR2, ptr.val()), depth - 1);
            proof {
                lemma_reachable_trans(book, s0, s1, self@);
            }
            f1 || f2
        } else if ptr.is_ref() {
            let ghost s0 = self@;
            self.call(book, ptr, dir);
            proof {
                if self@ == s0 {
                    lemma_reachable_refl(book, s0);
                } else {
                    assert(deref_done(
                        s0,
                        self@,
                        book.lookup(ref_id(target(s0, dir))),
                        target(s0, dir),
                        dir,
                        book.call_native.answer(s0, target(s0, dir), dir),
                        self.locs@,
                    ));
                    reveal(step);
                    assert(step(book, s0, self@));
                    lemma_reachable_step(book, s0, s0, self@);
                }
            }
            true
        } else {
            false
        }
    }

    /// Expands the heads below `dir` (see `expand_at`), as deep as the heap
    /// has slots.
    pub fn expand<N: Native>(&mut self, book: &Book<N>, dir: Ptr)
        requires
            old(self).wf(),
            book.wf(),
            dir.spec_is_var(),
            dir.spec_val() < old(self).len(),
        ensures
            final(self).wf(),
            old(self)@.counted_up_to(final(self)@),
            final(self).len() == old(self).len(),
            reachable(book, old(self)@, final(self)@),
            ref_free(old(self).heap@, dir, old(self).len()) ==> final(self)@ == old(self)@ && final(self).fault
                == old(self).fault,
            !ref_free(old(self).heap@, dir, old(self).len()) ==> final(self).fault.is_some() || final(self).dref
                > old(self).dref || old(self).dref == usize::MAX,
    {
        let depth = self.heap.len();
        self.expand_at(book, dir, depth);
    }

    /// Alternates expansion from the root and draining of the queue, at most
    /// `rounds` times. Returns whether the net reached is a normal form (no
    /// fault, no redex, no REF below the root); a net already in normal form
    /// is left as it is. Whatever results is reached by rewrite steps.
    pub fn normal_within<N: Native>(&mut self, book: &Book<N>, rounds: usize) -> (done: bool)
        requires
            old(self).wf(),
            book.wf(),
        ensures
            final(self).wf(),
            old(self)@.counted_up_to(final(self)@),
            final(self).len() == old(self).len(),
            reachable(book, old(self)@, final(self)@),
            done == is_normal(final(self)@, final(self).fault),
            is_normal(old(self)@, old(self).fault) ==> done && final(self)@ == old(self)@,
    {
        proof {
            lemma_reachable_refl(book, self@);
        }
        let mut r: usize = rounds;
        loop
            invariant
                self.wf(),
                book.wf(),
                old(self)@.counted_up_to(self@),
                self.len() == old(self).len(),
                reachable(book, old(self)@, self@),
                is_normal(old(self)@, old(self).fault) ==> self@ == old(self)@ && self.fault == old(self).fault,
            decreases r,
        {
            if self.fault.is_some() {
                return false;
            }
            let depth = self.heap.len();
            let ghost s0 = self@;
            let found = self.expand_at(book, Ptr::root(), depth);
            proof {
                lemma_reachable_trans(book, old(self)@, s0, self@);
            }
            if !found && self.rdex.len() == 0 {
                return true;
            }
            if r == 0 {
                return self.rdex.len() == 0 && self.fault.is_none() && self.is_ref_free(Ptr::root(), depth);
            }
            let ghost s1 = self@;
            self.reduce(book);
            proof {
                lemma_reachable_trans(book, old(self)@, s1, self@);
            }
            r = r - 1;
        }
    }

    /// Reduces a net to normal form (for at most `usize::MAX` rounds of
    /// expansion and draining). Returns whether a normal form was reached: no
    /// fault, no redex, and no REF below the root; a net already in normal
    /// form is left as it is. Whatever results is reached by rewrite steps.
    pub fn normal<N: Native>(&mut self, book: &Book<N>) -> (done: bool)
        requires
            old(self).wf(),
            book.wf(),
        ensures
            final(self).wf(),
            old(self)@.counted_up_to(final(self)@),
            final(self).len() == old(self).len(),
            reachable(book, old(self)@, final(self)@),
            done == is_normal(final(self)@, final(self).fault),
            is_normal(old(self)@, old(self).fault) ==> done && final(self)@ == old(self)@,
    {
        self.normal_within(book, usize::MAX)
    }

    /// Converts to a def: the leading run of non-free slots, and the queue.
    pub fn to_def(self) -> (r: Def)
        requires
            self.wf(),
        ensures
            r.rdex@ == self.rdex@,
            r.node@.len() <= self.len(),
            r.node@ == self.heap@.take(r.node@.len() as int),
            forall|i: int| 0 <= i < r.node@.len() ==> #[trigger] r.node@[i] != (Ptr(0), Ptr(0)),
            r.node@.len() < self.len() ==> self.heap@[r.node@.len() as int] == (Ptr(0), Ptr(0)),
    {
        let mut node: Vec<(Ptr, Ptr)> = Vec::new();
        let len = self.heap.len();
        let mut stop = false;
        while !stop && node.len() < len
            invariant
                self.wf(),
                stop ==> node@.len() < len && self.heap@[node@.len() as int] == (Ptr(0), Ptr(0)),
                len == self.len(),
                node@.len() <= len,
                node@ == self.heap@.take(node@.len() as int),
                forall|i: int| 0 <= i < node@.len() ==> #[trigger] node@[i] != (Ptr(0), Ptr(0)),
            decreases len - node@.len() + if stop { 0int } else { 1int },
        {
            let k = node.len() as Val;
            let p1 = self.heap.get(k, P1);
            let p2 = self.heap.get(k, P2);
            assert((p1, p2) == self.heap@[k as int]);
            if !p1.is_nil() || !p2.is_nil() {
                node.push((p1, p2));
                assert(node@ =~= self.heap@.take(node@.len() as int));
            } else {
                stop = true;
            }
        }
        let mut rdex: Vec<(Ptr, Ptr)> = Vec::new();
        let mut i: usize = 0;
        while i < self.rdex.len()
            invariant
                i <= self.rdex@.len(),
                rdex@ == self.rdex@.take(i as int),
            decreases self.rdex@.len() - i,
        {
            rdex.push(self.rdex[i]);
            i = i + 1;
            assert(rdex@ =~= self.rdex@.take(i as int));
        }
        assert(rdex@ =~= self.rdex@);
        Def { rdex, node }
    }

    /// Reads a net back from a def: its nodes become the heap and its redexes
    /// the queue.
    pub fn from_def(def: Def) -> (r: Self)
        requires
            1 <= def.node@.len() <= VAL_LIMIT,
            heap_ok(def.node@),
            rdex_ok(def.rdex@, def.node@.len()),
        ensures
            r.wf(),
            r.heap@ == def.node@,
            r.rdex@ == def.rdex@,
            r@.total() == 0,
            r.fault.is_none(),
    {
        let n = def.node.len();
        let mut net = Net::new(n);
        let mut i: usize = 0;
        while i < n
            invariant
                n == def.node@.len(),
                1 <= n <= VAL_LIMIT,
                heap_ok(def.node@),
                i <= n,
                net.wf(),
                net.len() == n,
                net.rdex@.len() == 0,
                net@.total() == 0,
                net.fault.is_none(),
                forall|j: int| 0 <= j < i ==> #[trigger] net.heap@[j] == def.node@[j],
            decreases n - i,
        {
            let (p1, p2) = def.node[i];
            assert(in_heap(def.node@[i as int].0, n as nat));
            net.put(i as Val, P1, p1);
            net.put(i as Val, P2, p2);
            i = i + 1;
        }
        assert(net.heap@ =~= def.node@);
        net.rdex = def.rdex;
        net
    }
}

} // verus!

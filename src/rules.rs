//! The mathematical model of a net and of each rewrite rule over it.
use crate::heap::{freed, port_of, with_port};
use crate::ptr::{Ptr, ADD, AND, CT0, REF, DIV, EQ, ERA, GT, LSH, LT, MOD, MUL, NE, NOT, NUM, OP1, OP2, OR, SUB, USE, VAL_LIMIT, VR1, VR2, XOR};
use vstd::prelude::*;

verus! {

/// What a net holds, as mathematical values.
pub struct NetState {
    pub heap: Seq<(Ptr, Ptr)>,
    pub rdex: Seq<(Ptr, Ptr)>,
    pub anni: usize,
    pub comm: usize,
    pub eras: usize,
    pub dref: usize,
    pub oper: usize,
}

/// A counter after `k` more events; counters saturate at the largest `usize`.
pub open spec fn bump(c: usize, k: nat) -> usize {
    if c + k <= usize::MAX {
        (c + k) as usize
    } else {
        usize::MAX
    }
}

/// A pointer whose value, unless it is an unboxed atom, names a slot of a
/// heap of `len` slots.
pub open spec fn in_heap(p: Ptr, len: nat) -> bool {
    !p.spec_is_skp() ==> p.spec_val() < len
}

pub open spec fn heap_ok(h: Seq<(Ptr, Ptr)>) -> bool {
    forall|i: int| 0 <= i < h.len() ==> in_heap((#[trigger] h[i]).0, h.len()) && in_heap(h[i].1, h.len())
}

/// Every slot but the root's has a non-null second port: nothing is left to
/// allocate.
pub open spec fn heap_full(h: Seq<(Ptr, Ptr)>) -> bool {
    forall|j: int| 1 <= j < h.len() ==> #[trigger] h[j].1 != Ptr(0)
}

/// Slot `l` can take a new node: it is not the root's, not `x` nor `y` (the
/// nodes being rewritten), and its second port is null.
pub open spec fn fresh(h: Seq<(Ptr, Ptr)>, l: int, x: int, y: int) -> bool {
    1 <= l < h.len() && l != x && l != y && h[l].1 == Ptr(0)
}

/// Fewer than `n` slots of `h` can take a new node (avoiding `x` and `y`).
pub open spec fn few_free(h: Seq<(Ptr, Ptr)>, x: int, y: int, n: nat) -> bool {
    exists|ls: Seq<u32>|
        #![trigger ls.len()]
        ls.len() < n && forall|j: int| #[trigger] fresh(h, j, x, y) ==> ls.contains(j as u32)
}

/// `h` with the second port of each slot in `ls` holding an eraser, which
/// reserves those slots while more are taken.
pub open spec fn marked(h: Seq<(Ptr, Ptr)>, ls: Seq<u32>) -> Seq<(Ptr, Ptr)> {
    Seq::new(h.len(), |j: int| if ls.contains(j as u32) { (h[j].0, Ptr(5)) } else { h[j] })
}

/// Redexes name slots of the heap and pair two primaries.
pub open spec fn rdex_ok(r: Seq<(Ptr, Ptr)>, len: nat) -> bool {
    forall|i: int|
        0 <= i < r.len() ==> in_heap((#[trigger] r[i]).0, len) && in_heap(r[i].1, len)
            && r[i].0.spec_is_pri() && r[i].1.spec_is_pri()
}

impl NetState {
    /// The pointer at port `port` of the node that `p` names.
    pub open spec fn at(self, p: Ptr, port: int) -> Ptr {
        port_of(self.heap, p.spec_val(), port)
    }

    pub open spec fn ok(self) -> bool {
        &&& 1 <= self.heap.len() <= VAL_LIMIT
        &&& heap_ok(self.heap)
        &&& rdex_ok(self.rdex, self.heap.len())
    }

    /// Sum of the five counters.
    pub open spec fn total(self) -> int {
        self.anni + self.comm + self.eras + self.dref + self.oper
    }

    /// No counter went down from `self` to `t`.
    pub open spec fn counted_up_to(self, t: NetState) -> bool {
        &&& self.anni <= t.anni
        &&& self.comm <= t.comm
        &&& self.eras <= t.eras
        &&& self.dref <= t.dref
        &&& self.oper <= t.oper
    }

    pub open spec fn with_heap(self, h: Seq<(Ptr, Ptr)>) -> NetState {
        NetState { heap: h, ..self }
    }
}

/// Wires `a` to `b`: two primaries form a redex (dropped and counted as an
/// erasure when both are atoms); a variable end is substituted by the other.
pub open spec fn link_spec(s: NetState, a: Ptr, b: Ptr) -> NetState {
    if a.spec_is_pri() && b.spec_is_pri() {
        if a.spec_is_skp() && b.spec_is_skp() {
            NetState { eras: bump(s.eras, 1), ..s }
        } else {
            NetState { rdex: s.rdex.push((a, b)), ..s }
        }
    } else {
        let h1 = if !a.spec_is_pri() {
            with_port(s.heap, a.spec_val(), a.spec_port(), b)
        } else {
            s.heap
        };
        let h2 = if !b.spec_is_pri() {
            with_port(h1, b.spec_val(), b.spec_port(), a)
        } else {
            h1
        };
        s.with_heap(h2)
    }
}

/// Splices the port-1 wires of `a` and `b`, then their port-2 wires, and
/// frees both nodes.
pub open spec fn anni_spec(s: NetState, a: Ptr, b: Ptr) -> NetState {
    let s0 = NetState { anni: bump(s.anni, 1), ..s };
    let s1 = link_spec(s0, s0.at(a, 0), s0.at(b, 0));
    let s2 = link_spec(s1, s1.at(a, 1), s1.at(b, 1));
    s2.with_heap(freed(freed(s2.heap, a.spec_val()), b.spec_val()))
}

/// Splices only the port-2 wires of `a` and `b`, and frees both nodes.
pub open spec fn conn_spec(s: NetState, a: Ptr, b: Ptr) -> NetState {
    let s0 = NetState { anni: bump(s.anni, 1), ..s };
    let s1 = link_spec(s0, s0.at(a, 1), s0.at(b, 1));
    s1.with_heap(freed(freed(s1.heap, a.spec_val()), b.spec_val()))
}

/// The 2x2 mesh of four fresh nodes that commutation builds.
pub open spec fn mesh(h: Seq<(Ptr, Ptr)>, l0: int, l1: int, l2: int, l3: int) -> Seq<(Ptr, Ptr)> {
    let h = with_port(h, l0, 0, Ptr::make(VR1 as int, l2));
    let h = with_port(h, l0, 1, Ptr::make(VR1 as int, l3));
    let h = with_port(h, l1, 0, Ptr::make(VR2 as int, l2));
    let h = with_port(h, l1, 1, Ptr::make(VR2 as int, l3));
    let h = with_port(h, l2, 0, Ptr::make(VR1 as int, l0));
    let h = with_port(h, l2, 1, Ptr::make(VR1 as int, l1));
    let h = with_port(h, l3, 0, Ptr::make(VR2 as int, l0));
    with_port(h, l3, 1, Ptr::make(VR2 as int, l1))
}

/// Commutation of `a` and `b` into the fresh slots `l0..l3`: each aux wire
/// of one node gets a copy of the other, and the copies are meshed.
pub open spec fn comm_spec(s: NetState, a: Ptr, b: Ptr, l0: int, l1: int, l2: int, l3: int) -> NetState {
    let s0 = NetState { comm: bump(s.comm, 1), ..s };
    let s1 = link_spec(s0, s0.at(a, 0), Ptr::make(b.spec_tag(), l0));
    let s2 = link_spec(s1, s1.at(b, 0), Ptr::make(a.spec_tag(), l2));
    let s3 = link_spec(s2, s2.at(a, 1), Ptr::make(b.spec_tag(), l1));
    let s4 = link_spec(s3, s3.at(b, 1), Ptr::make(a.spec_tag(), l3));
    let h = mesh(s4.heap, l0, l1, l2, l3);
    s4.with_heap(freed(freed(h, a.spec_val()), b.spec_val()))
}

/// A unary operation `a` passes through constructor `b` into the fresh slots
/// `l0..l2`: both branches get a copy of the operation.
pub open spec fn pass_spec(s: NetState, a: Ptr, b: Ptr, l0: int, l1: int, l2: int) -> NetState {
    let s0 = NetState { comm: bump(s.comm, 1), ..s };
    let s1 = link_spec(s0, s0.at(a, 1), Ptr::make(b.spec_tag(), l0));
    let s2 = link_spec(s1, s1.at(b, 0), Ptr::make(a.spec_tag(), l1));
    let s3 = link_spec(s2, s2.at(b, 1), Ptr::make(a.spec_tag(), l2));
    let h = with_port(s3.heap, l0, 0, Ptr::make(VR2 as int, l1));
    let h = with_port(h, l0, 1, Ptr::make(VR2 as int, l2));
    let h = with_port(h, l1, 0, port_of(h, a.spec_val(), 0));
    let h = with_port(h, l1, 1, Ptr::make(VR1 as int, l0));
    let h = with_port(h, l2, 0, port_of(h, a.spec_val(), 0));
    let h = with_port(h, l2, 1, Ptr::make(VR2 as int, l0));
    s3.with_heap(freed(freed(h, a.spec_val()), b.spec_val()))
}

/// Constructor `a` meets number `b`: both aux ports get the number.
pub open spec fn copy_spec(s: NetState, a: Ptr, b: Ptr) -> NetState {
    let s0 = NetState { comm: bump(s.comm, 1), ..s };
    let s1 = link_spec(s0, s0.at(a, 0), b);
    let s2 = link_spec(s1, s1.at(a, 1), b);
    s2.with_heap(freed(s2.heap, a.spec_val()))
}

/// A two-port node meets an eraser: both aux ports are erased.
pub open spec fn era2_spec(s: NetState, a: Ptr) -> NetState {
    let s0 = NetState { eras: bump(s.eras, 1), ..s };
    let s1 = link_spec(s0, s0.at(a, 0), Ptr::make(ERA as int, 0));
    let s2 = link_spec(s1, s1.at(a, 1), Ptr::make(ERA as int, 0));
    s2.with_heap(freed(s2.heap, a.spec_val()))
}

/// A unary operation meets an eraser: its output is erased.
pub open spec fn era1_spec(s: NetState, a: Ptr) -> NetState {
    let s0 = NetState { eras: bump(s.eras, 1), ..s };
    let s1 = link_spec(s0, s0.at(a, 1), Ptr::make(ERA as int, 0));
    s1.with_heap(freed(s1.heap, a.spec_val()))
}

/// The numeric micro-ALU on two 28-bit number payloads (operator in bits
/// 24..28, 24-bit operand below); the operator is the first operand's.
pub open spec fn alu(a: u32, b: u32) -> u32 {
    let opr = (a >> 24u32) & 0xFu32;
    let x = a & 0xFF_FFFFu32;
    let y = b & 0xFF_FFFFu32;
    if opr == USE as u32 {
        ((x & 0xFu32) << 24u32) | y
    } else if opr == ADD as u32 {
        ((x + y) % 0x100_0000) as u32
    } else if opr == SUB as u32 {
        ((x + 0x100_0000 - y) % 0x100_0000) as u32
    } else if opr == MUL as u32 {
        ((x * y) % 0x100_0000) as u32
    } else if opr == DIV as u32 {
        if y == 0 {
            0xFF_FFFFu32
        } else {
            (x / y) as u32
        }
    } else if opr == MOD as u32 {
        if y == 0 {
            x
        } else {
            (x % y) as u32
        }
    } else if opr == EQ as u32 {
        if x == y { 1u32 } else { 0u32 }
    } else if opr == NE as u32 {
        if x != y { 1u32 } else { 0u32 }
    } else if opr == LT as u32 {
        if x < y { 1u32 } else { 0u32 }
    } else if opr == GT as u32 {
        if x > y { 1u32 } else { 0u32 }
    } else if opr == AND as u32 {
        x & y
    } else if opr == OR as u32 {
        x | y
    } else if opr == XOR as u32 {
        x ^ y
    } else if opr == NOT as u32 {
        (!y) & 0xFF_FFFFu32
    } else if opr == LSH as u32 {
        if y < 32 {
            (x << y) & 0xFF_FFFFu32
        } else {
            0u32
        }
    } else {
        if y < 32 {
            x >> y
        } else {
            0u32
        }
    }
}

/// `t` is `s` after commuting `a` and `b` into four distinct fresh slots.
pub open spec fn comm_done(s: NetState, t: NetState, a: Ptr, b: Ptr) -> bool {
    exists|l0: int, l1: int, l2: int, l3: int|
        #![trigger comm_spec(s, a, b, l0, l1, l2, l3)]
        fresh(s.heap, l0, a.spec_val(), b.spec_val()) && fresh(s.heap, l1, a.spec_val(), b.spec_val())
            && fresh(s.heap, l2, a.spec_val(), b.spec_val()) && fresh(s.heap, l3, a.spec_val(), b.spec_val())
            && l0 != l1 && l0 != l2 && l0 != l3 && l1 != l2 && l1 != l3 && l2 != l3
            && t == comm_spec(s, a, b, l0, l1, l2, l3)
}

/// `t` is `s` after passing `a` through `b` into three distinct fresh slots.
pub open spec fn pass_done(s: NetState, t: NetState, a: Ptr, b: Ptr) -> bool {
    exists|l0: int, l1: int, l2: int|
        #![trigger pass_spec(s, a, b, l0, l1, l2)]
        fresh(s.heap, l0, a.spec_val(), b.spec_val()) && fresh(s.heap, l1, a.spec_val(), b.spec_val())
            && fresh(s.heap, l2, a.spec_val(), b.spec_val()) && l0 != l1 && l0 != l2 && l1 != l2
            && t == pass_spec(s, a, b, l0, l1, l2)
}

/// A unary operation `a`, holding its first operand, meets number `b`.
pub open spec fn op1n_spec(s: NetState, a: Ptr, b: Ptr) -> NetState {
    let s0 = NetState { oper: bump(s.oper, 1), ..s };
    let v = alu(s0.at(a, 0).spec_val() as u32, b.spec_val() as u32);
    let s1 = link_spec(s0, Ptr::make(NUM as int, v as int), s0.at(a, 1));
    s1.with_heap(freed(s1.heap, a.spec_val()))
}

/// Folds a chain of operations that already hold numbers, starting from
/// accumulator `rt`, operand `p1` and continuation `p2`: the final
/// accumulator, the pointer it goes to, and how many operation steps ran.
pub open spec fn fold_chain(h: Seq<(Ptr, Ptr)>, rt: u32, p1: Ptr, p2: Ptr, fuel: nat) -> (u32, Ptr, nat)
    decreases fuel,
{
    let r = alu(rt, p1.spec_val() as u32);
    if fuel == 0 {
        (r, p2, 1)
    } else if p2.spec_tag() == OP2 && port_of(h, p2.spec_val(), 0).spec_tag() == NUM {
        let t = fold_chain(h, r, port_of(h, p2.spec_val(), 0), port_of(h, p2.spec_val(), 1), (fuel - 1) as nat);
        (t.0, t.1, t.2 + 2)
    } else if p2.spec_tag() == OP1 {
        let t = fold_chain(
            h,
            port_of(h, p2.spec_val(), 0).spec_val() as u32,
            Ptr::make(NUM as int, r as int),
            port_of(h, p2.spec_val(), 1),
            (fuel - 1) as nat,
        );
        (t.0, t.1, t.2 + 1)
    } else {
        (r, p2, 1)
    }
}

/// A binary operation `a` meets number `b`. When its operand is a number too,
/// the chain of ready operations that follows is folded at once (at most
/// `fuel` links of it); otherwise `a` becomes a unary operation holding `b`
/// and waits for its operand.
pub open spec fn op2n_spec(s: NetState, a: Ptr, b: Ptr, fuel: nat) -> NetState {
    let s0 = NetState { oper: bump(s.oper, 1), ..s };
    let p1 = s0.at(a, 0);
    if p1.spec_tag() == NUM {
        let t = fold_chain(s0.heap, b.spec_val() as u32, p1, s0.at(a, 1), fuel);
        let s1 = NetState { oper: bump(s0.oper, t.2), ..s0 };
        link_spec(s1, Ptr::make(NUM as int, t.0 as int), t.1)
    } else {
        let s1 = s0.with_heap(with_port(s0.heap, a.spec_val(), 0, b));
        link_spec(s1, Ptr::make(OP1 as int, a.spec_val()), p1)
    }
}

/// A match node `a` meets number `b`, using the fresh slots `l0` and `l1`
/// (the second only for a non-zero number): zero is a constructor whose
/// second field is erased; a successor is a constructor whose first field is
/// erased and whose second holds a constructor with the predecessor.
pub open spec fn mtch_spec(s: NetState, a: Ptr, b: Ptr, l0: int, l1: int) -> NetState {
    let s0 = NetState { oper: bump(s.oper, 1), ..s };
    let p1 = s0.at(a, 0);
    let p2 = s0.at(a, 1);
    if b.spec_val() == 0 {
        let sa = s0.with_heap(with_port(s0.heap, l0, 1, Ptr::make(ERA as int, 0)));
        let sb = link_spec(sa, p1, Ptr::make(CT0 as int, l0));
        let sc = link_spec(sb, p2, Ptr::make(VR1 as int, l0));
        sc.with_heap(freed(sc.heap, a.spec_val()))
    } else {
        let h = with_port(s0.heap, l0, 0, Ptr::make(ERA as int, 0));
        let h = with_port(h, l0, 1, Ptr::make(CT0 as int, l1));
        let h = with_port(h, l1, 0, Ptr::make(NUM as int, b.spec_val() - 1));
        let sb = link_spec(s0.with_heap(h), p1, Ptr::make(CT0 as int, l0));
        let sc = link_spec(sb, p2, Ptr::make(VR2 as int, l1));
        sc.with_heap(freed(sc.heap, a.spec_val()))
    }
}

/// `t` is `s` after matching `a` on `b` with fresh slots: one for zero, two
/// distinct ones for a successor.
pub open spec fn mtch_done(s: NetState, t: NetState, a: Ptr, b: Ptr) -> bool {
    exists|l0: int, l1: int|
        #![trigger mtch_spec(s, a, b, l0, l1)]
        fresh(s.heap, l0, a.spec_val(), a.spec_val()) && fresh(s.heap, l1, a.spec_val(), a.spec_val())
            && (if b.spec_val() == 0 { l1 == l0 } else { l1 != l0 }) && t == mtch_spec(s, a, b, l0, l1)
}

/// A template pointer relocated through `locs`: variables and nodes name
/// the slot that `locs` gives for their template index; atoms pass through.
pub open spec fn adjust_spec(p: Ptr, locs: Seq<u32>) -> Ptr {
    if p.spec_has_loc() {
        Ptr::make(p.spec_tag(), locs[p.spec_val()] as int)
    } else {
        p
    }
}

/// `h` with the template nodes `1..n` stored, relocated, at their slots.
pub open spec fn place(h: Seq<(Ptr, Ptr)>, node: Seq<(Ptr, Ptr)>, locs: Seq<u32>, n: int) -> Seq<(Ptr, Ptr)>
    decreases n,
{
    if n <= 1 {
        h
    } else {
        let h1 = place(h, node, locs, n - 1);
        let i = locs[n - 1] as int;
        with_port(
            with_port(h1, i, 0, adjust_spec(node[n - 1].0, locs)),
            i,
            1,
            adjust_spec(node[n - 1].1, locs),
        )
    }
}

/// The template redexes, relocated.
pub open spec fn relocated(rdex: Seq<(Ptr, Ptr)>, locs: Seq<u32>) -> Seq<(Ptr, Ptr)> {
    rdex.map_values(|r: (Ptr, Ptr)| (adjust_spec(r.0, locs), adjust_spec(r.1, locs)))
}

/// The definition id that a REF names: its low 24 bits.
pub open spec fn ref_id(p: Ptr) -> int {
    p.spec_val() % 0x100_0000
}

/// Dereference of `ptr`, wired to `par`, against template `def` = (redexes,
/// nodes), given what the native hook answered and the relocation table:
/// a non-REF, an empty template, or a REF the hook answered with a pointer
/// that fits the heap are linked as they stand; otherwise the template's
/// nodes are placed, its redexes queued, and its root linked to `par`.
pub open spec fn deref_spec(
    s: NetState,
    def: (Seq<(Ptr, Ptr)>, Seq<(Ptr, Ptr)>),
    ptr: Ptr,
    par: Ptr,
    native: Option<Ptr>,
    locs: Seq<u32>,
) -> NetState {
    let s0 = NetState { dref: bump(s.dref, 1), ..s };
    if ptr.spec_tag() != REF {
        link_spec(s0, ptr, par)
    } else if native is Some && in_heap(native.unwrap(), s.heap.len()) {
        link_spec(s0, native.unwrap(), par)
    } else if def.1.len() == 0 {
        link_spec(s0, ptr, par)
    } else {
        let s1 = NetState {
            heap: place(s0.heap, def.1, locs, def.1.len() as int),
            rdex: s0.rdex + relocated(def.0, locs),
            ..s0
        };
        link_spec(s1, adjust_spec(def.1[0].1, locs), par)
    }
}

/// The dereference expands the template: `ptr` is a REF that the hook did
/// not answer with a pointer fitting the heap, and the template has nodes.
pub open spec fn expands(
    s: NetState,
    def: (Seq<(Ptr, Ptr)>, Seq<(Ptr, Ptr)>),
    ptr: Ptr,
    native: Option<Ptr>,
) -> bool {
    ptr.spec_tag() == REF && !(native is Some && in_heap(native.unwrap(), s.heap.len())) && def.1.len() > 0
}

/// Entries `1..n` of the relocation table are distinct fresh slots.
pub open spec fn fresh_locs(h: Seq<(Ptr, Ptr)>, locs: Seq<u32>, n: int) -> bool {
    &&& forall|i: int| 1 <= i < n ==> fresh(h, #[trigger] locs[i] as int, 0, 0)
    &&& forall|i: int, j: int| 1 <= i < j < n ==> locs[i] != locs[j]
}

/// `t` is `s` after dereferencing `ptr` against `def`, the native hook
/// having answered `native`; an expansion places the template in distinct
/// fresh slots.
pub open spec fn deref_done(
    s: NetState,
    t: NetState,
    def: (Seq<(Ptr, Ptr)>, Seq<(Ptr, Ptr)>),
    ptr: Ptr,
    par: Ptr,
    native: Option<Ptr>,
    locs: Seq<u32>,
) -> bool {
    &&& t == deref_spec(s, def, ptr, par, native, locs)
    &&& expands(s, def, ptr, native) ==> fresh_locs(s.heap, locs, def.1.len() as int)
}

/// Following the wire at `dir` through constructors (at most `depth` of
/// them deep) meets no REF.
pub open spec fn ref_free(h: Seq<(Ptr, Ptr)>, dir: Ptr, depth: nat) -> bool
    decreases depth,
{
    let t = port_of(h, dir.spec_val(), dir.spec_port());
    if t.spec_is_ctr() {
        depth == 0 || (ref_free(h, Ptr::make(VR1 as int, t.spec_val()), (depth - 1) as nat)
            && ref_free(h, Ptr::make(VR2 as int, t.spec_val()), (depth - 1) as nat))
    } else {
        t.spec_tag() != REF
    }
}

} // verus!

verus! {

pub proof fn lemma_port_in_heap(h: Seq<(Ptr, Ptr)>, i: int, port: int)
    requires
        heap_ok(h),
        0 <= i < h.len(),
    ensures
        in_heap(port_of(h, i, port), h.len()),
{
    assert(in_heap(h[i].0, h.len()) && in_heap(h[i].1, h.len()));
}

pub proof fn lemma_with_port_ok(h: Seq<(Ptr, Ptr)>, i: int, port: int, v: Ptr)
    requires
        heap_ok(h),
        0 <= i < h.len(),
        in_heap(v, h.len()),
    ensures
        heap_ok(with_port(h, i, port, v)),
        with_port(h, i, port, v).len() == h.len(),
{
    let g = with_port(h, i, port, v);
    assert forall|j: int| 0 <= j < g.len() implies in_heap((#[trigger] g[j]).0, g.len()) && in_heap(g[j].1, g.len()) by {
        if j != i {
            assert(g[j] == h[j]);
        }
    }
}

pub proof fn lemma_freed_ok(h: Seq<(Ptr, Ptr)>, i: int)
    requires
        heap_ok(h),
        0 <= i < h.len(),
    ensures
        heap_ok(freed(h, i)),
        freed(h, i).len() == h.len(),
{
    let g = freed(h, i);
    assert forall|j: int| 0 <= j < g.len() implies in_heap((#[trigger] g[j]).0, g.len()) && in_heap(g[j].1, g.len()) by {
        if j != i {
            assert(g[j] == h[j]);
        }
    }
}

/// Linking two pointers that name heap slots keeps every pointer of the net
/// inside the heap, keeps the redexes primary, and only counts up.
pub proof fn lemma_link_ok(s: NetState, a: Ptr, b: Ptr)
    requires
        s.ok(),
        in_heap(a, s.heap.len()),
        in_heap(b, s.heap.len()),
    ensures
        link_spec(s, a, b).ok(),
        link_spec(s, a, b).heap.len() == s.heap.len(),
        s.counted_up_to(link_spec(s, a, b)),
{
    let t = link_spec(s, a, b);
    if a.spec_is_pri() && b.spec_is_pri() {
        if !(a.spec_is_skp() && b.spec_is_skp()) {
            let r = s.rdex.push((a, b));
            assert forall|i: int| 0 <= i < r.len() implies in_heap((#[trigger] r[i]).0, s.heap.len())
                && in_heap(r[i].1, s.heap.len()) && r[i].0.spec_is_pri() && r[i].1.spec_is_pri() by {
                if i < s.rdex.len() {
                    assert(r[i] == s.rdex[i]);
                }
            }
        }
    } else {
        let h1 = if !a.spec_is_pri() {
            lemma_with_port_ok(s.heap, a.spec_val(), a.spec_port(), b);
            with_port(s.heap, a.spec_val(), a.spec_port(), b)
        } else {
            s.heap
        };
        if !b.spec_is_pri() {
            lemma_with_port_ok(h1, b.spec_val(), b.spec_port(), a);
        }
    }
}

} // verus!

//! Definitions (closed net templates) and the book that holds them by id.
use crate::net::Net;
use crate::rules::NetState;
use crate::ptr::{Ptr, Val};
use vstd::prelude::*;

verus! {

/// Number of definition ids: ids are 24-bit.
pub const BOOK_SIZE: u32 = 0x100_0000;

/// A compact closed net, used for dereferences.
#[derive(Clone, Debug, PartialEq, Eq, Hash)]
pub struct Def {
    pub rdex: Vec<(Ptr, Ptr)>,
    pub node: Vec<(Ptr, Ptr)>,
}

/// A pointer of a template is an atom, or names one of the template's own
/// `len` slots.
pub open spec fn local_ok(p: Ptr, len: nat) -> bool {
    p.spec_is_skp() || (p.spec_has_loc() && p.spec_val() < len)
}

impl View for Def {
    type V = (Seq<(Ptr, Ptr)>, Seq<(Ptr, Ptr)>);

    open spec fn view(&self) -> (Seq<(Ptr, Ptr)>, Seq<(Ptr, Ptr)>) {
        (self.rdex@, self.node@)
    }
}

impl Def {
    pub fn new() -> (r: Def)
        ensures
            r.rdex@.len() == 0,
            r.node@.len() == 0,
    {
        Def { rdex: Vec::new(), node: Vec::new() }
    }

    /// Well-formed template: its pointers name its own slots, and its redexes
    /// are pairs of primaries.
    pub open spec fn wf(&self) -> bool {
        &&& forall|i: int|
            0 <= i < self.node@.len() ==> local_ok(#[trigger] self.node@[i].0, self.node@.len())
                && local_ok(self.node@[i].1, self.node@.len())
        &&& forall|i: int|
            0 <= i < self.rdex@.len() ==> local_ok(#[trigger] self.rdex@[i].0, self.node@.len())
                && local_ok(self.rdex@[i].1, self.node@.len()) && self.rdex@[i].0.spec_is_pri()
                && self.rdex@[i].1.spec_is_pri()
    }
}

/// A native routine that may take over the dereference of a REF.
///
/// Given the net, the book's definitions, the REF and its partner, it
/// returns the pointer that the REF stands for (which the runtime then links
/// to the partner), or `None` to fall back to the generic template expansion.
pub trait Native {
    /// What the hook answers on a net (as a model), for a REF and its partner.
    spec fn answer(&self, net: NetState, ptr: Ptr, par: Ptr) -> Option<Ptr>;

    fn call_native(&self, net: &Net, defs: &Vec<Def>, ptr: Ptr, par: Ptr) -> (r: Option<Ptr>)
        ensures
            r == self.answer(net@, ptr, par),
    ;
}

/// The default hook: it never intercepts.
pub struct NoNative;

impl Native for NoNative {
    open spec fn answer(&self, net: NetState, ptr: Ptr, par: Ptr) -> Option<Ptr> {
        None
    }

    fn call_native(&self, net: &Net, defs: &Vec<Def>, ptr: Ptr, par: Ptr) -> Option<Ptr> {
        None
    }
}

/// The default native hook: it answers `None` everywhere.
pub fn call_native() -> (r: NoNative)
    ensures
        forall|s: NetState, ptr: Ptr, par: Ptr| #[trigger] r.answer(s, ptr, par) is None,
{
    NoNative
}

/// A map of id to definitions (closed nets), with a native hook.
///
/// Ids at or beyond `defs.len()` hold the empty definition.
pub struct Book<N> {
    pub defs: Vec<Def>,
    pub call_native: N,
    /// The empty definition, handed out for ids that hold none.
    pub empty: Def,
}

impl<N> Book<N> {
    /// The template stored under `id` (empty where none was installed).
    pub open spec fn lookup(&self, id: int) -> (Seq<(Ptr, Ptr)>, Seq<(Ptr, Ptr)>) {
        if 0 <= id < self.defs@.len() {
            self.defs@[id]@
        } else {
            (Seq::empty(), Seq::empty())
        }
    }

    pub open spec fn wf(&self) -> bool {
        &&& self.defs@.len() <= BOOK_SIZE
        &&& self.empty.node@.len() == 0
        &&& self.empty.rdex@.len() == 0
        &&& forall|i: int| 0 <= i < self.defs@.len() ==> (#[trigger] self.defs@[i]).wf()
    }
}

impl Book<NoNative> {
    pub fn new() -> (r: Self)
        ensures
            r.wf(),
            forall|s: NetState, ptr: Ptr, par: Ptr| #[trigger] r.call_native.answer(s, ptr, par) is None,
            forall|id: int| #[trigger] r.lookup(id) == (Seq::<(Ptr, Ptr)>::empty(), Seq::<(Ptr, Ptr)>::empty()),
    {
        Book { defs: Vec::new(), call_native: call_native(), empty: Def::new() }
    }
}

impl<N> Book<N> {
    /// An empty book whose dereferences first consult `native`.
    pub fn with_native(native: N) -> (r: Self)
        ensures
            r.wf(),
            r.call_native == native,
            forall|id: int| #[trigger] r.lookup(id) == (Seq::<(Ptr, Ptr)>::empty(), Seq::<(Ptr, Ptr)>::empty()),
    {
        Book { defs: Vec::new(), call_native: native, empty: Def::new() }
    }

    /// Installs `def` under `id`.
    pub fn def(&mut self, id: Val, def: Def)
        requires
            old(self).wf(),
            id < BOOK_SIZE,
            def.wf(),
        ensures
            final(self).wf(),
            final(self).defs@.len() > id,
            final(self).lookup(id as int) == def@,
            forall|j: int| j != id ==> #[trigger] final(self).lookup(j) == old(self).lookup(j),
    {
        while self.defs.len() <= id as usize
            invariant
                id < BOOK_SIZE,
                self.wf(),
                old(self).defs@.len() <= self.defs@.len(),
                forall|j: int| #[trigger] self.lookup(j) == old(self).lookup(j),
            decreases id + 1 - self.defs@.len(),
        {
            let ghost pre = *self;
            let blank = Def::new();
            assert(blank.wf());
            self.defs.push(blank);
            assert forall|i: int| 0 <= i < self.defs@.len() implies (#[trigger] self.defs@[i]).wf() by {
                if i < pre.defs@.len() {
                    assert(self.defs@[i] == pre.defs@[i]);
                } else {
                    assert(self.defs@[i] == blank);
                }
            }
            assert forall|j: int| #[trigger] self.lookup(j) == old(self).lookup(j) by {
                assert(self.lookup(j) == pre.lookup(j));
            }
        }
        let ghost pre = *self;
        self.defs.set(id as usize, def);
        assert forall|j: int| j != id implies #[trigger] self.lookup(j) == old(self).lookup(j) by {
            assert(self.lookup(j) == pre.lookup(j));
        }
    }

    /// The definition stored under `id` (the empty one where none was
    /// installed); `None` for an id of more than 24 bits.
    pub fn get(&self, id: Val) -> (r: Option<&Def>)
        requires
            self.wf(),
        ensures
            r.is_some() == (id < BOOK_SIZE),
            r.is_some() ==> r.unwrap()@ == self.lookup(id as int) && r.unwrap().wf(),
    {
        if (id as usize) < self.defs.len() {
            Some(&self.defs[id as usize])
        } else if id < BOOK_SIZE {
            assert(self.empty@ =~= self.lookup(id as int));
            Some(&self.empty)
        } else {
            None
        }
    }
}

} // verus!

//! The node heap: a dense array of slots, each a pair of aux-port pointers.
use crate::ptr::{APtr, Port, Ptr, Val, P1, P2};
use vstd::prelude::*;

verus! {

/// The pointer stored at port `port` (0 or 1) of slot `i`.
pub open spec fn port_of(h: Seq<(Ptr, Ptr)>, i: int, port: int) -> Ptr {
    if port == 0 {
        h[i].0
    } else {
        h[i].1
    }
}

/// `h` with port `port` of slot `i` replaced by `v`.
pub open spec fn with_port(h: Seq<(Ptr, Ptr)>, i: int, port: int, v: Ptr) -> Seq<(Ptr, Ptr)> {
    if port == 0 {
        h.update(i, (v, h[i].1))
    } else {
        h.update(i, (h[i].0, v))
    }
}

/// `h` with slot `i` free (both ports null).
pub open spec fn freed(h: Seq<(Ptr, Ptr)>, i: int) -> Seq<(Ptr, Ptr)> {
    h.update(i, (Ptr(0), Ptr(0)))
}

pub struct Heap {
    pub data: Vec<(APtr, APtr)>,
}

impl View for Heap {
    type V = Seq<(Ptr, Ptr)>;

    open spec fn view(&self) -> Seq<(Ptr, Ptr)> {
        Seq::new(self.data@.len(), |i: int| (Ptr(self.data@[i].0.0), Ptr(self.data@[i].1.0)))
    }
}

impl Heap {
    /// A heap of `size` free slots.
    pub fn new(size: usize) -> (r: Heap)
        ensures
            r@.len() == size,
            forall|i: int| 0 <= i < size ==> #[trigger] r@[i] == (Ptr(0), Ptr(0)),
    {
        let mut data: Vec<(APtr, APtr)> = Vec::new();
        let mut k: usize = 0;
        while k < size
            invariant
                k <= size,
                data@.len() == k,
                forall|i: int| 0 <= i < k ==> (#[trigger] data@[i]).0.0 == 0 && data@[i].1.0 == 0,
            decreases size - k,
        {
            data.push((APtr::new(Ptr::null()), APtr::new(Ptr::null())));
            k = k + 1;
        }
        Heap { data }
    }

    /// Number of slots.
    pub fn len(&self) -> (r: usize)
        ensures
            r == self@.len(),
    {
        self.data.len()
    }

    /// Locking is a no-op for the sequential driver.
    pub fn lock(&self, index: Val) {
    }

    /// Unlocking is a no-op for the sequential driver.
    pub fn unlock(&self, index: Val) {
    }

    pub fn get(&self, index: Val, port: Port) -> (r: Ptr)
        requires
            index < self@.len(),
        ensures
            r == port_of(self@, index as int, port as int),
    {
        let node = &self.data[index as usize];
        if port == P1 {
            node.0.load()
        } else {
            node.1.load()
        }
    }

    pub fn set(&mut self, index: Val, port: Port, value: Ptr)
        requires
            index < old(self)@.len(),
        ensures
            final(self)@ == with_port(old(self)@, index as int, port as int, value),
    {
        let i = index as usize;
        let mut node = self.data[i];
        if port == P1 {
            node.0.store(value);
        } else {
            node.1.store(value);
        }
        self.data.set(i, node);
        assert(self@ =~= with_port(old(self)@, index as int, port as int, value));
    }

    /// Frees slot `index`: both ports become null.
    pub fn free(&mut self, index: Val)
        requires
            index < old(self)@.len(),
        ensures
            final(self)@ == freed(old(self)@, index as int),
    {
        self.data.set(index as usize, (APtr::new(Ptr::null()), APtr::new(Ptr::null())));
        assert(self@ =~= freed(old(self)@, index as int));
    }

    /// The program result: port 2 of slot 0.
    pub fn get_root(&self) -> (r: Ptr)
        requires
            self@.len() > 0,
        ensures
            r == self@[0].1,
    {
        self.get(0, P2)
    }

    pub fn set_root(&mut self, value: Ptr)
        requires
            old(self)@.len() > 0,
        ensures
            final(self)@ == with_port(old(self)@, 0, 1, value),
    {
        self.set(0, P2, value)
    }
}

} // verus!

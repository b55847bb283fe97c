//! Tagged 32-bit pointers: the low four bits hold the tag, the high 28 bits
//! hold the value (a heap index or an unboxed payload).
use vstd::arithmetic::div_mod::{
    lemma_fundamental_div_mod_converse_div, lemma_fundamental_div_mod_converse_mod,
};
use vstd::prelude::*;

verus! {

pub type Tag = u8;

pub type Val = u32;

/// Variable to aux port 1.
pub const VR1: Tag = 0x0;

/// Variable to aux port 2.
pub const VR2: Tag = 0x1;

/// Redirect to aux port 1.
pub const RD1: Tag = 0x2;

/// Redirect to aux port 2.
pub const RD2: Tag = 0x3;

/// Lazy closed net.
pub const REF: Tag = 0x4;

/// Unboxed eraser.
pub const ERA: Tag = 0x5;

/// Unboxed number.
pub const NUM: Tag = 0x6;

/// Binary numeric operation.
pub const OP2: Tag = 0x7;

/// Unary numeric operation.
pub const OP1: Tag = 0x8;

/// Numeric pattern-matching.
pub const MAT: Tag = 0x9;

/// Main port of a constructor node, label 0.
pub const CT0: Tag = 0xA;

/// Main port of a constructor node, label 1.
pub const CT1: Tag = 0xB;

/// Main port of a constructor node, label 2.
pub const CT2: Tag = 0xC;

/// Main port of a constructor node, label 3.
pub const CT3: Tag = 0xD;

/// Main port of a constructor node, label 4.
pub const CT4: Tag = 0xE;

/// Main port of a constructor node, label 5.
pub const CT5: Tag = 0xF;

/// Numeric operators, stored in bits 24..28 of a number's payload.
pub const USE: Tag = 0x0;

pub const ADD: Tag = 0x1;

pub const SUB: Tag = 0x2;

pub const MUL: Tag = 0x3;

pub const DIV: Tag = 0x4;

pub const MOD: Tag = 0x5;

pub const EQ: Tag = 0x6;

pub const NE: Tag = 0x7;

pub const LT: Tag = 0x8;

pub const GT: Tag = 0x9;

pub const AND: Tag = 0xA;

pub const OR: Tag = 0xB;

pub const XOR: Tag = 0xC;

pub const NOT: Tag = 0xD;

pub const LSH: Tag = 0xE;

pub const RSH: Tag = 0xF;

/// Largest value (exclusive) that fits in the 28-bit value field.
pub const VAL_LIMIT: u32 = 0x1000_0000;

/// An auxiliary port.
pub type Port = Val;

pub const P1: Port = 0;

pub const P2: Port = 1;

/// A tagged pointer.
#[derive(Copy, Clone, Debug, PartialEq, Eq, Structural, Hash)]
pub struct Ptr(pub Val);

impl Ptr {
    pub open spec fn spec_tag(self) -> int {
        self.0 as int % 16
    }

    pub open spec fn spec_val(self) -> int {
        self.0 as int / 16
    }

    /// The pointer with the given tag and value.
    pub open spec fn make(tag: int, val: int) -> Ptr {
        Ptr((val * 16 + tag) as u32)
    }

    pub open spec fn spec_is_var(self) -> bool {
        self.spec_tag() <= VR2
    }

    pub open spec fn spec_is_pri(self) -> bool {
        self.spec_tag() >= REF
    }

    pub open spec fn spec_is_skp(self) -> bool {
        self.spec_tag() == ERA || self.spec_tag() == NUM || self.spec_tag() == REF
    }

    pub open spec fn spec_is_nod(self) -> bool {
        self.spec_tag() >= OP2
    }

    pub open spec fn spec_is_ctr(self) -> bool {
        self.spec_tag() >= CT0
    }

    /// Variables and nodes: the value is a heap index.
    pub open spec fn spec_has_loc(self) -> bool {
        self.spec_is_var() || self.spec_is_nod()
    }

    pub open spec fn spec_can_skip(a: Ptr, b: Ptr) -> bool {
        (a.spec_tag() == ERA || a.spec_tag() == REF) && (b.spec_tag() == ERA || b.spec_tag()
            == REF)
    }

    /// The aux port (0 or 1) that a variable names.
    pub open spec fn spec_port(self) -> int {
        self.0 as int % 2
    }

    pub proof fn lemma_make(tag: int, val: int)
        requires
            0 <= tag < 16,
            0 <= val < VAL_LIMIT,
        ensures
            Ptr::make(tag, val).spec_tag() == tag,
            Ptr::make(tag, val).spec_val() == val,
            Ptr::make(tag, val).0 == val * 16 + tag,
            Ptr::make(tag, val).spec_port() == tag % 2,
    {
        let x = val * 16 + tag;
        lemma_fundamental_div_mod_converse_mod(x, 16, val, tag);
        lemma_fundamental_div_mod_converse_div(x, 16, val, tag);
        assert(x == (val * 8 + tag / 2) * 2 + tag % 2);
        lemma_fundamental_div_mod_converse_mod(x, 2, val * 8 + tag / 2, tag % 2);
    }

    /// Builds a pointer from a tag and a 28-bit value.
    pub fn new(tag: Tag, val: Val) -> (r: Self)
        requires
            tag < 16,
            val < VAL_LIMIT,
        ensures
            r == Ptr::make(tag as int, val as int),
            r.spec_tag() == tag,
            r.spec_val() == val,
            r.spec_port() == tag % 2,
    {
        let t = tag as u32;
        assert(((val << 4u32) | t) == val * 16 + t) by (bit_vector)
            requires
                t < 16,
                val < 0x1000_0000u32,
        ;
        proof {
            Ptr::lemma_make(tag as int, val as int);
        }
        Ptr((val << 4) | t)
    }

    /// The eraser: (ERA, 0).
    pub fn eras() -> (r: Ptr)
        ensures
            r == Ptr::make(ERA as int, 0),
            r.0 == 5,
    {
        Ptr(0x5)
    }

    /// The root wire endpoint: (VR2, 0), stored at heap index 0, port 2.
    pub fn root() -> (r: Ptr)
        ensures
            r == Ptr::make(VR2 as int, 0),
            r.0 == 1,
    {
        Ptr(0x1)
    }

    /// The all-zero pointer, marking free slots.
    pub fn null() -> (r: Ptr)
        ensures
            r.0 == 0,
    {
        Ptr(0x0)
    }

    pub fn data(&self) -> (r: Val)
        ensures
            r == self.0,
    {
        self.0
    }

    pub fn tag(&self) -> (r: Tag)
        ensures
            r == self.spec_tag(),
    {
        let d = self.0;
        assert((d & 0xFu32) == d % 16) by (bit_vector);
        (d & 0xF) as Tag
    }

    pub fn val(&self) -> (r: Val)
        ensures
            r == self.spec_val(),
            r < VAL_LIMIT,
    {
        let d = self.0;
        assert((d >> 4u32) == d / 16) by (bit_vector);
        d >> 4
    }

    /// The aux port (0 or 1) that a variable names.
    pub fn port(&self) -> (r: Port)
        ensures
            r == self.spec_port(),
    {
        let d = self.0;
        assert((d & 1u32) == d % 2) by (bit_vector);
        d & 1
    }

    pub fn is_nil(&self) -> (r: bool)
        ensures
            r == (self.0 == 0),
    {
        self.0 == 0
    }

    pub fn is_var(&self) -> (r: bool)
        ensures
            r == self.spec_is_var(),
    {
        self.tag() <= VR2
    }

    pub fn is_era(&self) -> (r: bool)
        ensures
            r == (self.spec_tag() == ERA),
    {
        self.tag() == ERA
    }

    pub fn is_ctr(&self) -> (r: bool)
        ensures
            r == self.spec_is_ctr(),
    {
        self.tag() >= CT0
    }

    pub fn is_ref(&self) -> (r: bool)
        ensures
            r == (self.spec_tag() == REF),
    {
        self.tag() == REF
    }

    pub fn is_pri(&self) -> (r: bool)
        ensures
            r == self.spec_is_pri(),
    {
        self.tag() >= REF
    }

    pub fn is_num(&self) -> (r: bool)
        ensures
            r == (self.spec_tag() == NUM),
    {
        self.tag() == NUM
    }

    pub fn is_op1(&self) -> (r: bool)
        ensures
            r == (self.spec_tag() == OP1),
    {
        self.tag() == OP1
    }

    pub fn is_op2(&self) -> (r: bool)
        ensures
            r == (self.spec_tag() == OP2),
    {
        self.tag() == OP2
    }

    pub fn is_skp(&self) -> (r: bool)
        ensures
            r == self.spec_is_skp(),
    {
        let t = self.tag();
        t == ERA || t == NUM || t == REF
    }

    pub fn is_mat(&self) -> (r: bool)
        ensures
            r == (self.spec_tag() == MAT),
    {
        self.tag() == MAT
    }

    pub fn is_nod(&self) -> (r: bool)
        ensures
            r == self.spec_is_nod(),
    {
        self.tag() >= OP2
    }

    pub fn has_loc(&self) -> (r: bool)
        ensures
            r == self.spec_has_loc(),
    {
        let t = self.tag();
        t <= VR2 || t >= OP2
    }

    /// Can this redex be dropped without any heap work?
    pub fn can_skip(a: Ptr, b: Ptr) -> (r: bool)
        ensures
            r == Ptr::spec_can_skip(a, b),
    {
        let ta = a.tag();
        let tb = b.tag();
        (ta == ERA || ta == REF) && (tb == ERA || tb == REF)
    }
}

/// A pointer cell of the heap.
#[derive(Copy, Clone, Debug)]
pub struct APtr(pub Val);

impl APtr {
    pub fn new(ptr: Ptr) -> (r: Self)
        ensures
            r.0 == ptr.0,
    {
        APtr(ptr.0)
    }

    pub fn load(&self) -> (r: Ptr)
        ensures
            r.0 == self.0,
    {
        Ptr(self.0)
    }

    pub fn store(&mut self, ptr: Ptr)
        ensures
            final(self).0 == ptr.0,
    {
        self.0 = ptr.0;
    }
}

} // verus!

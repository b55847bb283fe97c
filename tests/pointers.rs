use hvmc_core::ptr::{
    APtr, Ptr, ADD, AND, CT0, CT5, DIV, EQ, ERA, GT, LSH, LT, MAT, MOD, MUL, NE, NOT, NUM, OP1,
    OP2, OR, RD1, REF, RSH, SUB, USE, VR1, VR2, XOR,
};
use hvmc_core::net::Net;

fn alu(opr: u8, x: u32, y: u32) -> u32 {
    let net = Net::new(1);
    net.op(((opr as u32) << 24) | x, y)
}

#[test]
fn ptr_new_splits_into_tag_and_value() {
    let p = Ptr::new(CT0, 12345);
    assert_eq!(p.tag(), CT0);
    assert_eq!(p.val(), 12345);
    assert_eq!(p.data(), (12345 << 4) | 0xA);
    let q = Ptr::new(NUM, 0x0FFF_FFFF);
    assert_eq!(q.val(), 0x0FFF_FFFF);
    assert_eq!(q.tag(), NUM);
}

#[test]
fn reserved_pointers() {
    assert_eq!(Ptr::eras(), Ptr::new(ERA, 0));
    assert_eq!(Ptr::root(), Ptr::new(VR2, 0));
    assert!(Ptr::null().is_nil());
    assert!(!Ptr::eras().is_nil());
}

#[test]
fn predicates_follow_tags() {
    assert!(Ptr::new(VR1, 3).is_var());
    assert!(Ptr::new(VR2, 3).is_var());
    assert!(!Ptr::new(RD1, 3).is_var());
    assert!(Ptr::new(REF, 3).is_pri());
    assert!(!Ptr::new(RD1, 3).is_pri());
    assert!(Ptr::new(ERA, 0).is_skp());
    assert!(Ptr::new(NUM, 0).is_skp());
    assert!(Ptr::new(REF, 0).is_skp());
    assert!(!Ptr::new(OP2, 0).is_skp());
    assert!(Ptr::new(OP2, 0).is_nod());
    assert!(!Ptr::new(NUM, 0).is_nod());
    assert!(Ptr::new(CT5, 0).is_ctr());
    assert!(!Ptr::new(MAT, 0).is_ctr());
    assert!(Ptr::new(MAT, 0).is_mat());
    assert!(Ptr::new(OP1, 0).is_op1());
    assert!(Ptr::new(OP2, 0).is_op2());
    assert!(Ptr::new(ERA, 0).is_era());
    assert!(Ptr::new(REF, 0).is_ref());
    assert!(Ptr::new(NUM, 0).is_num());
    assert!(Ptr::new(VR1, 0).has_loc());
    assert!(Ptr::new(CT0, 0).has_loc());
    assert!(!Ptr::new(REF, 0).has_loc());
    assert!(!Ptr::new(RD1, 0).has_loc());
    assert_eq!(Ptr::new(VR2, 9).port(), 1);
    assert_eq!(Ptr::new(VR1, 9).port(), 0);
}

#[test]
fn can_skip_only_erasers_and_refs() {
    assert!(Ptr::can_skip(Ptr::new(ERA, 0), Ptr::new(REF, 1)));
    assert!(Ptr::can_skip(Ptr::new(REF, 0), Ptr::new(REF, 1)));
    assert!(!Ptr::can_skip(Ptr::new(NUM, 0), Ptr::new(ERA, 0)));
    assert!(!Ptr::can_skip(Ptr::new(CT0, 1), Ptr::new(ERA, 0)));
}

#[test]
fn atomic_cell_loads_what_was_stored() {
    let mut c = APtr::new(Ptr::new(NUM, 5));
    assert_eq!(c.load(), Ptr::new(NUM, 5));
    c.store(Ptr::new(CT0, 2));
    assert_eq!(c.load(), Ptr::new(CT0, 2));
}

#[test]
fn alu_arithmetic_wraps_at_24_bits() {
    assert_eq!(alu(ADD, 2, 3), 5);
    assert_eq!(alu(ADD, 0xFF_FFFF, 1), 0);
    assert_eq!(alu(SUB, 5, 3), 2);
    assert_eq!(alu(SUB, 3, 5), 0xFF_FFFE);
    assert_eq!(alu(MUL, 6, 7), 42);
    assert_eq!(alu(MUL, 0x1000, 0x1000), 0);
    assert_eq!(alu(DIV, 7, 2), 3);
    assert_eq!(alu(MOD, 7, 2), 1);
}

#[test]
fn alu_division_by_zero_does_not_trap() {
    assert_eq!(alu(DIV, 7, 0), 0xFF_FFFF);
    assert_eq!(alu(MOD, 7, 0), 7);
}

#[test]
fn alu_comparisons_give_booleans() {
    assert_eq!(alu(EQ, 4, 4), 1);
    assert_eq!(alu(EQ, 4, 5), 0);
    assert_eq!(alu(NE, 4, 5), 1);
    assert_eq!(alu(LT, 4, 5), 1);
    assert_eq!(alu(LT, 5, 4), 0);
    assert_eq!(alu(GT, 5, 4), 1);
}

#[test]
fn alu_bitwise_and_shifts() {
    assert_eq!(alu(AND, 0b1100, 0b1010), 0b1000);
    assert_eq!(alu(OR, 0b1100, 0b1010), 0b1110);
    assert_eq!(alu(XOR, 0b1100, 0b1010), 0b0110);
    assert_eq!(alu(NOT, 0, 0), 0xFF_FFFF);
    assert_eq!(alu(NOT, 0, 0xFF_FFFF), 0);
    assert_eq!(alu(LSH, 1, 4), 16);
    assert_eq!(alu(LSH, 1, 24), 0);
    assert_eq!(alu(LSH, 1, 40), 0);
    assert_eq!(alu(RSH, 256, 4), 16);
    assert_eq!(alu(RSH, 256, 40), 0);
}

#[test]
fn alu_use_sets_the_next_operator() {
    assert_eq!(alu(USE, ADD as u32, 9), (1 << 24) | 9);
    let net = Net::new(1);
    let with_op = alu(USE, MUL as u32, 6);
    assert_eq!(net.op(with_op, 7), 42);
}

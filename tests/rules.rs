use hvmc_core::book::Book;
use hvmc_core::net::{Fault, Net};
use hvmc_core::ptr::{Ptr, CT0, CT1, ERA, MAT, NUM, OP1, OP2, P1, P2, REF, VR1, VR2};

fn node(net: &mut Net, i: u32, a: Ptr, b: Ptr) {
    net.heap.set(i, P1, a);
    net.heap.set(i, P2, b);
}

#[test]
fn heap_starts_free_and_stores_ports() {
    let mut net = Net::new(4);
    assert_eq!(net.heap.len(), 4);
    assert!(net.heap.get(3, P2).is_nil());
    net.heap.set(3, P2, Ptr::new(NUM, 1));
    assert_eq!(net.heap.get(3, P2), Ptr::new(NUM, 1));
    assert!(net.heap.get(3, P1).is_nil());
    net.heap.set_root(Ptr::new(NUM, 8));
    assert_eq!(net.heap.get_root(), Ptr::new(NUM, 8));
    net.free(3);
    assert!(net.heap.get(3, P2).is_nil());
}

#[test]
fn boot_writes_a_ref_at_the_root() {
    let mut net = Net::new(2);
    net.boot(42);
    assert_eq!(net.heap.get_root(), Ptr::new(REF, 42));
}

#[test]
fn link_two_nodes_queues_a_redex() {
    let mut net = Net::new(4);
    net.link(Ptr::new(CT0, 1), Ptr::new(CT1, 2));
    assert_eq!(net.rdex, vec![(Ptr::new(CT0, 1), Ptr::new(CT1, 2))]);
    assert_eq!(net.eras, 0);
}

#[test]
fn link_two_atoms_counts_an_erasure() {
    let mut net = Net::new(4);
    net.link(Ptr::new(NUM, 1), Ptr::eras());
    net.link(Ptr::new(REF, 1), Ptr::new(NUM, 3));
    assert!(net.rdex.is_empty());
    assert_eq!(net.eras, 2);
}

#[test]
fn link_substitutes_variables() {
    let mut net = Net::new(4);
    net.link(Ptr::new(VR1, 2), Ptr::new(NUM, 7));
    assert_eq!(net.heap.get(2, P1), Ptr::new(NUM, 7));
    net.link(Ptr::new(VR2, 1), Ptr::new(VR1, 3));
    assert_eq!(net.heap.get(1, P2), Ptr::new(VR1, 3));
    assert_eq!(net.heap.get(3, P1), Ptr::new(VR2, 1));
}

#[test]
fn alloc_takes_fresh_slots_then_probes() {
    let mut net = Net::new(3);
    assert_eq!(net.alloc_slot(1), Some(1));
    assert_eq!(net.alloc_slot(1), Some(2));
    node(&mut net, 1, Ptr::new(NUM, 1), Ptr::new(NUM, 1));
    assert_eq!(net.alloc_slot(1), Some(2));
    node(&mut net, 2, Ptr::new(NUM, 1), Ptr::new(NUM, 1));
    assert_eq!(net.alloc_slot(1), None);
}

#[test]
fn anni_splices_both_wire_pairs() {
    let mut net = Net::new(8);
    node(&mut net, 1, Ptr::new(VR1, 3), Ptr::new(VR1, 4));
    node(&mut net, 2, Ptr::new(VR2, 3), Ptr::new(VR2, 4));
    node(&mut net, 3, Ptr::new(VR1, 1), Ptr::new(VR1, 2));
    node(&mut net, 4, Ptr::new(VR2, 1), Ptr::new(VR2, 2));
    net.anni(Ptr::new(CT0, 1), Ptr::new(CT0, 2));
    assert_eq!(net.anni, 1);
    assert_eq!(net.heap.get(3, P1), Ptr::new(VR2, 3));
    assert_eq!(net.heap.get(3, P2), Ptr::new(VR1, 3));
    assert_eq!(net.heap.get(4, P1), Ptr::new(VR2, 4));
    assert_eq!(net.heap.get(4, P2), Ptr::new(VR1, 4));
    assert!(net.heap.get(1, P1).is_nil() && net.heap.get(1, P2).is_nil());
    assert!(net.heap.get(2, P1).is_nil() && net.heap.get(2, P2).is_nil());
    assert!(net.rdex.is_empty());
}

#[test]
fn conn_splices_only_second_ports() {
    let mut net = Net::new(8);
    node(&mut net, 1, Ptr::new(NUM, 1), Ptr::new(VR2, 3));
    node(&mut net, 2, Ptr::new(NUM, 2), Ptr::new(VR2, 4));
    node(&mut net, 3, Ptr::null(), Ptr::new(VR2, 1));
    node(&mut net, 4, Ptr::null(), Ptr::new(VR2, 2));
    net.conn(Ptr::new(CT0, 1), Ptr::new(CT0, 2));
    assert_eq!(net.anni, 1);
    assert_eq!(net.heap.get(3, P2), Ptr::new(VR2, 4));
    assert_eq!(net.heap.get(4, P2), Ptr::new(VR2, 3));
}

#[test]
fn comm_builds_a_mesh_of_four_nodes() {
    let mut net = Net::new(16);
    node(&mut net, 1, Ptr::new(VR1, 3), Ptr::new(VR2, 3));
    node(&mut net, 2, Ptr::new(VR1, 4), Ptr::new(VR2, 4));
    node(&mut net, 3, Ptr::new(VR1, 1), Ptr::new(VR2, 1));
    node(&mut net, 4, Ptr::new(VR1, 2), Ptr::new(VR2, 2));
    net.next = 5;
    net.comm(Ptr::new(CT0, 1), Ptr::new(CT1, 2));
    assert_eq!(net.comm, 1);
    assert_eq!(net.heap.get(3, P1), Ptr::new(CT1, 5));
    assert_eq!(net.heap.get(3, P2), Ptr::new(CT1, 6));
    assert_eq!(net.heap.get(4, P1), Ptr::new(CT0, 7));
    assert_eq!(net.heap.get(4, P2), Ptr::new(CT0, 8));
    assert_eq!(net.heap.get(5, P1), Ptr::new(VR1, 7));
    assert_eq!(net.heap.get(8, P2), Ptr::new(VR2, 6));
    assert!(net.heap.get(1, P2).is_nil());
    assert!(net.heap.get(2, P2).is_nil());
}

#[test]
fn comm_on_a_full_heap_marks_the_fault() {
    let mut net = Net::new(3);
    node(&mut net, 1, Ptr::new(NUM, 1), Ptr::new(NUM, 2));
    node(&mut net, 2, Ptr::new(NUM, 3), Ptr::new(NUM, 4));
    net.next = 3;
    net.comm(Ptr::new(CT0, 1), Ptr::new(CT1, 2));
    assert_eq!(net.fault, Some(Fault::HeapFull));
    assert_eq!(net.comm, 0);
    assert_eq!(net.heap.get(1, P1), Ptr::new(NUM, 1));
}

#[test]
fn era2_queues_an_eraser_per_aux_node() {
    let mut net = Net::new(8);
    node(&mut net, 1, Ptr::new(CT0, 2), Ptr::new(CT1, 3));
    net.era2(Ptr::new(CT0, 1));
    assert_eq!(net.eras, 1);
    assert_eq!(
        net.rdex,
        vec![(Ptr::new(CT0, 2), Ptr::eras()), (Ptr::new(CT1, 3), Ptr::eras())]
    );
    assert!(net.heap.get(1, P1).is_nil());
}

#[test]
fn era1_erases_the_output() {
    let mut net = Net::new(8);
    node(&mut net, 1, Ptr::new(NUM, 5), Ptr::new(VR1, 2));
    node(&mut net, 2, Ptr::new(VR2, 1), Ptr::null());
    net.era1(Ptr::new(OP1, 1));
    assert_eq!(net.eras, 1);
    assert_eq!(net.heap.get(2, P1), Ptr::eras());
    assert!(net.heap.get(1, P2).is_nil());
}

#[test]
fn copy_hands_the_number_to_both_ports() {
    let mut net = Net::new(8);
    node(&mut net, 1, Ptr::new(VR1, 2), Ptr::new(VR2, 2));
    node(&mut net, 2, Ptr::new(VR1, 1), Ptr::new(VR2, 1));
    net.copy(Ptr::new(CT0, 1), Ptr::new(NUM, 9));
    assert_eq!(net.comm, 1);
    assert_eq!(net.heap.get(2, P1), Ptr::new(NUM, 9));
    assert_eq!(net.heap.get(2, P2), Ptr::new(NUM, 9));
}

#[test]
fn op1n_applies_the_held_operand() {
    let mut net = Net::new(8);
    node(&mut net, 1, Ptr::new(NUM, (2 << 24) | 10), Ptr::new(VR1, 2));
    node(&mut net, 2, Ptr::new(VR2, 1), Ptr::null());
    net.op1n(Ptr::new(OP1, 1), Ptr::new(NUM, 4));
    assert_eq!(net.oper, 1);
    assert_eq!(net.heap.get(2, P1), Ptr::new(NUM, 6));
}

#[test]
fn op2n_waits_for_its_operand() {
    let mut net = Net::new(8);
    node(&mut net, 1, Ptr::new(VR1, 2), Ptr::null());
    node(&mut net, 2, Ptr::new(VR1, 1), Ptr::null());
    net.op2n(Ptr::new(OP2, 1), Ptr::new(NUM, 5));
    assert_eq!(net.heap.get(1, P1), Ptr::new(NUM, 5));
    assert_eq!(net.heap.get(2, P1), Ptr::new(OP1, 1));
}

#[test]
fn op2n_folds_a_ready_chain() {
    let mut net = Net::new(8);
    node(&mut net, 1, Ptr::new(NUM, 3), Ptr::new(OP1, 2));
    node(&mut net, 2, Ptr::new(NUM, (3 << 24) | 10), Ptr::new(VR1, 3));
    node(&mut net, 3, Ptr::new(VR2, 2), Ptr::null());
    net.op2n(Ptr::new(OP2, 1), Ptr::new(NUM, (1 << 24) | 2));
    assert_eq!(net.heap.get(3, P1), Ptr::new(NUM, 50));
    assert_eq!(net.oper, 3);
}

#[test]
fn mtch_on_zero_selects_the_zero_branch() {
    let mut net = Net::new(8);
    node(&mut net, 1, Ptr::new(CT0, 2), Ptr::new(VR1, 3));
    node(&mut net, 3, Ptr::new(VR2, 1), Ptr::null());
    net.next = 4;
    net.mtch(Ptr::new(MAT, 1), Ptr::new(NUM, 0));
    assert_eq!(net.oper, 1);
    assert_eq!(net.rdex, vec![(Ptr::new(CT0, 2), Ptr::new(CT0, 4))]);
    assert_eq!(net.heap.get(4, P2), Ptr::eras());
    assert_eq!(net.heap.get(4, P1), Ptr::new(VR1, 3));
    assert_eq!(net.heap.get(3, P1), Ptr::new(VR1, 4));
}

#[test]
fn mtch_on_a_successor_exposes_the_predecessor() {
    let mut net = Net::new(8);
    node(&mut net, 1, Ptr::new(CT0, 2), Ptr::new(VR1, 3));
    node(&mut net, 3, Ptr::new(VR2, 1), Ptr::null());
    net.next = 4;
    net.mtch(Ptr::new(MAT, 1), Ptr::new(NUM, 3));
    assert_eq!(net.rdex, vec![(Ptr::new(CT0, 2), Ptr::new(CT0, 4))]);
    assert_eq!(net.heap.get(4, P1), Ptr::eras());
    assert_eq!(net.heap.get(4, P2), Ptr::new(CT0, 5));
    assert_eq!(net.heap.get(5, P1), Ptr::new(NUM, 2));
    assert_eq!(net.heap.get(5, P2), Ptr::new(VR1, 3));
    assert_eq!(net.heap.get(3, P1), Ptr::new(VR2, 5));
}

#[test]
fn interact_of_two_operators_is_a_bad_redex() {
    let mut net = Net::new(8);
    let book = Book::new();
    net.interact(&book, Ptr::new(OP2, 1), Ptr::new(OP1, 2));
    assert_eq!(net.fault, Some(Fault::BadRedex));
}

#[test]
fn interact_of_two_atoms_counts_an_erasure() {
    let mut net = Net::new(8);
    let book = Book::new();
    net.interact(&book, Ptr::new(REF, 1), Ptr::new(NUM, 2));
    net.interact(&book, Ptr::new(ERA, 0), Ptr::new(ERA, 0));
    assert_eq!(net.eras, 2);
    assert!(net.fault.is_none());
}

#[test]
fn rewrites_sums_the_counters() {
    let mut net = Net::new(2);
    net.anni = 1;
    net.comm = 2;
    net.eras = 3;
    net.dref = 4;
    net.oper = 5;
    assert_eq!(net.rewrites(), 15);
    net.oper = usize::MAX;
    assert_eq!(net.rewrites(), usize::MAX);
}

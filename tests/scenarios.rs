use hvmc_core::book::{call_native, Book, Def, Native, BOOK_SIZE};
use hvmc_core::net::Net;
use hvmc_core::rules::NetState;
use hvmc_core::ptr::{Ptr, ADD, CT0, CT1, ERA, NOT, NUM, OP1, OP2, P1, P2, REF, VR1, VR2};

fn def(node: Vec<(Ptr, Ptr)>, rdex: Vec<(Ptr, Ptr)>) -> Def {
    Def { rdex, node }
}

fn used_slots(net: &Net) -> usize {
    let mut n = 0;
    for i in 0..net.heap.len() {
        if !net.heap.get(i as u32, P1).is_nil() || !net.heap.get(i as u32, P2).is_nil() {
            n += 1;
        }
    }
    n
}

fn num(op: u8, v: u32) -> Ptr {
    Ptr::new(NUM, ((op as u32) << 24) | v)
}

#[test]
fn identity_on_a_number() {
    let mut book = Book::new();
    book.def(
        1,
        def(
            vec![
                (Ptr::null(), Ptr::new(VR2, 2)),
                (Ptr::new(VR2, 1), Ptr::new(VR1, 1)),
                (Ptr::new(NUM, 42), Ptr::new(VR2, 0)),
            ],
            vec![(Ptr::new(CT0, 1), Ptr::new(CT0, 2))],
        ),
    );
    let mut net = Net::new(64);
    net.boot(1);
    assert!(net.normal(&book));
    assert_eq!(net.heap.get_root(), Ptr::new(NUM, 42));
    assert_eq!(net.anni, 1);
    assert_eq!(net.eras, 0);
    assert_eq!(net.comm, 0);
    assert_eq!(net.oper, 0);
    assert_eq!(net.dref, 1);
    assert!(net.rdex.is_empty());
}

#[test]
fn two_plus_three() {
    let mut book = Book::new();
    book.def(
        1,
        def(
            vec![(Ptr::null(), Ptr::new(VR2, 1)), (Ptr::new(NUM, 3), Ptr::new(VR2, 0))],
            vec![(Ptr::new(OP2, 1), num(ADD, 2))],
        ),
    );
    let mut net = Net::new(64);
    net.boot(1);
    assert!(net.normal(&book));
    assert_eq!(net.heap.get_root(), Ptr::new(NUM, 5));
    assert!(net.oper >= 2);
    assert!(net.dref >= 1);
}

#[test]
fn church_two_applies_not_twice() {
    let mut book = Book::new();
    book.def(
        1,
        def(
            vec![
                (Ptr::null(), Ptr::new(VR2, 7)),
                (Ptr::new(CT1, 2), Ptr::new(CT0, 3)),
                (Ptr::new(CT0, 4), Ptr::new(CT0, 5)),
                (Ptr::new(VR1, 5), Ptr::new(VR2, 4)),
                (Ptr::new(VR2, 5), Ptr::new(VR2, 3)),
                (Ptr::new(VR1, 3), Ptr::new(VR1, 4)),
                (Ptr::new(CT0, 8), Ptr::new(CT0, 7)),
                (Ptr::new(NUM, 0), Ptr::new(VR2, 0)),
                (Ptr::new(OP1, 9), Ptr::new(VR2, 9)),
                (num(NOT, 0), Ptr::new(VR2, 8)),
            ],
            vec![(Ptr::new(CT0, 1), Ptr::new(CT0, 6))],
        ),
    );
    let mut net = Net::new(256);
    net.boot(1);
    assert!(net.normal(&book));
    assert_eq!(net.heap.get_root(), Ptr::new(NUM, 0));
    assert!(net.anni > 0);
    assert!(net.comm > 0);
    assert_eq!(net.oper, 2);
}

#[test]
fn eraser_propagation() {
    let mut book = Book::new();
    book.def(
        1,
        def(
            vec![(Ptr::null(), Ptr::eras()), (Ptr::new(NUM, 42), Ptr::new(NUM, 13))],
            vec![(Ptr::new(CT0, 1), Ptr::eras())],
        ),
    );
    let mut net = Net::new(64);
    net.boot(1);
    assert!(net.normal(&book));
    assert_eq!(net.heap.get_root(), Ptr::eras());
    assert_eq!(used_slots(&net), 1);
    assert_eq!(net.eras, 3);
}

#[test]
fn chain_of_additions_sums() {
    // A chain of 100 unary additions, each adding its index to what arrives.
    let mut node = vec![(Ptr::null(), Ptr::new(VR1, 100))];
    for i in 1..=100u32 {
        let out = if i < 100 { Ptr::new(OP1, i + 1) } else { Ptr::new(VR2, 0) };
        node.push((num(ADD, i), out));
    }
    node[100].1 = Ptr::new(VR2, 0);
    node[0].1 = Ptr::new(VR2, 100);
    let mut book = Book::new();
    book.def(1, def(node, vec![(Ptr::new(OP1, 1), Ptr::new(NUM, 0))]));
    let mut net = Net::new(256);
    net.boot(1);
    assert!(net.normal(&book));
    assert_eq!(net.heap.get_root(), Ptr::new(NUM, 5050));
    assert_eq!(net.oper, 100);
    assert!(net.rewrites() <= 3 * 100);
}

struct Seven;

impl Native for Seven {
    fn answer(&self, _net: NetState, ptr: Ptr, _par: Ptr) -> Option<Ptr> {
        if ptr.val() == 7 {
            Some(Ptr::new(NUM, 99))
        } else {
            None
        }
    }

    fn call_native(&self, _net: &Net, _defs: &Vec<Def>, ptr: Ptr, _par: Ptr) -> Option<Ptr> {
        if ptr.val() == 7 {
            Some(Ptr::new(NUM, 99))
        } else {
            None
        }
    }
}

#[test]
fn native_hook_intercepts_a_reference() {
    let book = Book::with_native(Seven);
    let mut net = Net::new(64);
    net.boot(7);
    assert!(net.normal(&book));
    assert_eq!(net.heap.get_root(), Ptr::new(NUM, 99));
    assert_eq!(net.dref, 1);
    assert_eq!(used_slots(&net), 1);
}

#[test]
fn default_hook_never_intercepts() {
    let net = Net::new(4);
    assert_eq!(call_native().call_native(&net, &Vec::new(), Ptr::new(REF, 7), Ptr::root()), None);
}

#[test]
fn missing_definition_links_the_reference() {
    let book = Book::new();
    let mut net = Net::new(8);
    net.boot(3);
    net.call(&book, Ptr::new(REF, 3), Ptr::root());
    assert_eq!(net.heap.get_root(), Ptr::new(REF, 3));
    assert_eq!(net.dref, 1);
}

#[test]
fn normal_within_reports_completion() {
    let mut book = Book::new();
    book.def(1, def(vec![(Ptr::null(), Ptr::new(NUM, 4))], vec![]));
    let mut net = Net::new(8);
    net.boot(1);
    assert!(net.normal_within(&book, 10));
    assert_eq!(net.heap.get_root(), Ptr::new(NUM, 4));
    let anni_before = net.anni;
    let rewrites_before = net.rewrites();
    assert!(net.normal_within(&book, 10));
    assert_eq!(net.rewrites(), rewrites_before);
    assert_eq!(net.anni, anni_before);
    let mut pending = Net::new(8);
    pending.boot(1);
    assert!(!pending.normal_within(&book, 0) || pending.heap.get_root() == Ptr::new(NUM, 4));
    assert!(pending.normal(&book));
    assert_eq!(pending.heap.get_root(), Ptr::new(NUM, 4));
    assert!(pending.rdex.is_empty());
}

#[test]
fn rewrites_grow_across_partial_runs() {
    let mut book = Book::new();
    book.def(
        1,
        def(
            vec![(Ptr::null(), Ptr::new(VR2, 1)), (Ptr::new(NUM, 3), Ptr::new(VR2, 0))],
            vec![(Ptr::new(OP2, 1), num(ADD, 2))],
        ),
    );
    let mut net = Net::new(64);
    net.boot(1);
    let r0 = net.rewrites();
    net.expand(&book, Ptr::root());
    let r1 = net.rewrites();
    assert!(net.reduce(&book));
    let r2 = net.rewrites();
    assert!(r0 <= r1 && r1 <= r2);
    assert_eq!(r2, net.anni + net.comm + net.eras + net.dref + net.oper);
}

#[test]
fn book_lookup_and_install() {
    let mut book = Book::new();
    assert!(book.get(5).unwrap().node.is_empty());
    book.def(5, def(vec![(Ptr::null(), Ptr::new(NUM, 1))], vec![]));
    assert_eq!(book.get(5).unwrap().node, vec![(Ptr::null(), Ptr::new(NUM, 1))]);
    assert!(book.get(4).unwrap().node.is_empty());
    assert!(book.get(6).unwrap().node.is_empty());
    assert!(book.get(BOOK_SIZE).is_none());
    assert!(Def::new().node.is_empty());
}

#[test]
fn def_round_trip() {
    let d = def(
        vec![(Ptr::null(), Ptr::new(VR2, 1)), (Ptr::new(NUM, 3), Ptr::new(VR2, 0))],
        vec![(Ptr::new(OP2, 1), num(ADD, 2))],
    );
    let net = Net::from_def(d.clone());
    assert_eq!(net.heap.get(1, P1), Ptr::new(NUM, 3));
    let back = net.to_def();
    assert_eq!(back, d);
}

#[test]
fn scott_list_sum() {
    // @sum = λl. l @F 0;  @F = λh. λt. h + (@sum t);  @main = @sum [1, 2, ..., 100]
    let (sum, f, main) = (1u32, 2u32, 3u32);
    let mut book = Book::new();
    book.def(
        sum,
        def(
            vec![
                (Ptr::null(), Ptr::new(CT0, 1)),
                (Ptr::new(CT0, 2), Ptr::new(VR2, 3)),
                (Ptr::new(REF, f), Ptr::new(CT0, 3)),
                (Ptr::new(NUM, 0), Ptr::new(VR2, 1)),
            ],
            vec![],
        ),
    );
    book.def(
        f,
        def(
            vec![
                (Ptr::null(), Ptr::new(CT0, 1)),
                (Ptr::new(OP2, 3), Ptr::new(CT0, 2)),
                (Ptr::new(VR1, 4), Ptr::new(VR2, 3)),
                (Ptr::new(VR2, 4), Ptr::new(VR2, 2)),
                (Ptr::new(VR1, 2), Ptr::new(VR1, 3)),
            ],
            vec![(Ptr::new(REF, sum), Ptr::new(CT0, 4))],
        ),
    );
    let n: u32 = 100;
    let nil = 2 + 4 * n;
    let mut node = vec![(Ptr::null(), Ptr::new(VR2, 1)), (Ptr::new(CT0, 2), Ptr::new(VR2, 0))];
    for i in 0..n {
        let b = 2 + 4 * i;
        let next = if i + 1 < n { Ptr::new(CT0, b + 4) } else { Ptr::new(CT0, nil) };
        node.push((Ptr::new(CT0, b + 2), Ptr::new(CT0, b + 1)));
        node.push((Ptr::new(ERA, 0), Ptr::new(VR2, b + 3)));
        node.push((num(ADD, i + 1), Ptr::new(CT0, b + 3)));
        node.push((next, Ptr::new(VR2, b + 1)));
    }
    node.push((Ptr::new(ERA, 0), Ptr::new(CT0, nil + 1)));
    node.push((Ptr::new(VR2, nil + 1), Ptr::new(VR1, nil + 1)));
    book.def(main, def(node, vec![(Ptr::new(REF, sum), Ptr::new(CT0, 1))]));
    let mut net = Net::new(4096);
    net.boot(main);
    assert!(net.normal(&book));
    assert_eq!(net.heap.get_root(), Ptr::new(NUM, 5050));
    assert!(net.rewrites() <= 20 * (n as usize) + 20);
    assert!(net.rewrites() >= n as usize);
}

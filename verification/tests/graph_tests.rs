use exprgraph::equivalencies::EquivalenceGraph;
use exprgraph::symbols::variable;

#[test]
fn seeding_creates_one_singleton_class() {
    let root = variable("x").add(&variable("y"));
    let g = EquivalenceGraph::new(&root);
    assert_eq!(g.find(0), 0);
    assert!(g.same_class(0, 0));
    let class = g.eclass(0);
    assert_eq!(class.members, vec![0]);
}

#[test]
fn added_expressions_start_in_fresh_classes() {
    let root = variable("x");
    let mut g = EquivalenceGraph::new(&root);
    let a = g.add_expr(&variable("x").add(&variable("y")));
    let b = g.add_expr(&variable("y").add(&variable("x")));
    assert_eq!(a, 1);
    assert_eq!(b, 2);
    assert!(!g.same_class(a, b));
    assert!(!g.same_class(0, a));
    assert_eq!(g.eclass(a).members, vec![a]);
}

#[test]
fn merge_unites_exactly_the_two_classes() {
    let root = variable("x");
    let mut g = EquivalenceGraph::new(&root);
    let a = g.add_expr(&variable("x").add(&variable("y")));
    let b = g.add_expr(&variable("y").add(&variable("x")));
    let c = g.add_expr(&variable("z"));
    g.merge(a, b);
    assert!(g.same_class(a, b));
    assert!(!g.same_class(a, c));
    assert!(!g.same_class(0, a));
    assert_eq!(g.find(b), g.find(a));
    let class = g.eclass(a);
    assert_eq!(class.members, vec![a, b]);
}

#[test]
fn congruence_follows_child_classes() {
    let x = variable("x");
    let y = variable("y");
    let mut g = EquivalenceGraph::new(&x);
    let sum_xy = g.add_expr(&x.add(&y));
    let sum_yx = g.add_expr(&y.add(&x));
    // y is not registered yet, so the children cannot be located.
    assert!(!g.congruent(sum_xy, sum_yx));
    let y_id = g.add_expr(&y);
    // x and y sit in different classes, so the nodes are not congruent.
    assert!(!g.congruent(sum_xy, sum_yx));
    // Once x and y are asserted equivalent, both sums become congruent.
    g.merge(0, y_id);
    assert!(g.congruent(sum_xy, sum_yx));
    assert!(g.merge_if_congruent(sum_xy, sum_yx));
    assert!(g.same_class(sum_xy, sum_yx));
}

#[test]
fn leaves_and_distinct_operators_are_never_congruent() {
    let x = variable("x");
    let y = variable("y");
    let mut g = EquivalenceGraph::new(&x);
    let y_id = g.add_expr(&y);
    let sum = g.add_expr(&x.add(&y));
    let product = g.add_expr(&x.mul(&y));
    assert!(!g.congruent(0, y_id));
    assert!(!g.congruent(0, sum));
    g.merge(0, y_id);
    assert!(!g.congruent(sum, product));
    assert!(!g.merge_if_congruent(sum, product));
    assert!(!g.same_class(sum, product));
}

#[test]
fn find_expr_locates_registered_expressions_by_hash() {
    let x = variable("x");
    let mut g = EquivalenceGraph::new(&x);
    let sum = g.add_expr(&variable("a").add(&variable("b")));
    // A structurally identical expression hashes to the same table entry.
    assert_eq!(g.find_expr(&variable("a").add(&variable("b"))), Some(sum));
    assert_eq!(g.find_expr(&variable("x")), Some(0));
    assert_eq!(g.find_expr(&variable("unseen")), None);
}

#[test]
fn merge_is_transitive_through_representatives() {
    let root = variable("r");
    let mut g = EquivalenceGraph::new(&root);
    let a = g.add_expr(&variable("a"));
    let b = g.add_expr(&variable("b"));
    let c = g.add_expr(&variable("c"));
    g.merge(a, b);
    g.merge(b, c);
    assert!(g.same_class(a, c));
    assert_eq!(g.eclass(a).members, vec![a, b, c]);
    assert_eq!(g.eclass(0).members, vec![0]);
}

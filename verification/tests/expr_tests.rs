use std::cmp::Ordering;

use exprgraph::constants::Value;
use exprgraph::equivalencies::{hash_leaf, hash_oparg};
use exprgraph::operation_properties::Associativity;
use exprgraph::symbols::{variable, OpArgument, OperationKind};

#[test]
fn test_add_ops() {
    let x = variable("x");
    let y = variable("y");
    let z = variable("z");
    let _ = z.pow(&y.pow(&x)).cos().div(&x);
    let expr = z.pow(&y.pow(&x)).pow(&x.pow(&y)).cos().div(&x);
    let _ = expr.hash();
    let expr = z.pow(&y).pow(&x).cos().div(&x);
    let _ = expr.hash();
    let expr = (x.cos().mul(&y.cos())).mul(&x.sin().mul(&y.sin()));
    let _ = expr.hash();
    let x = variable("x");
    let y = variable("y");
    let z = variable("z");
    let expr = z.pow(&y).pow(&x).cos().div(&x);
    let _ = expr.hash();
    let _ = expr.variables();
}

#[test]
fn addition_renders_without_parens() {
    let expr = variable("x").add(&variable("y"));
    assert_eq!(expr.to_text(), "x+y");
}

#[test]
fn multiplication_parenthesizes_addition() {
    let expr = (variable("x").add(&variable("y"))).mul(&variable("z"));
    assert_eq!(expr.to_text(), "(x+y)*z");
}

#[test]
fn pow_is_right_associative() {
    let expr = variable("x").pow(&variable("y")).pow(&variable("z"));
    assert_eq!(expr.to_text(), "(x^y)^z");
}

#[test]
fn pow_chain_to_the_right_needs_no_parens() {
    let expr = variable("x").pow(&variable("y").pow(&variable("z")));
    assert_eq!(expr.to_text(), "x^y^z");
}

#[test]
fn subtraction_is_left_associative() {
    let expr = variable("x").sub(&variable("y")).sub(&variable("z"));
    assert_eq!(expr.to_text(), "x-y-z");
    let expr = variable("x").sub(&variable("y").sub(&variable("z")));
    assert_eq!(expr.to_text(), "x-(y-z)");
}

#[test]
fn division_is_left_associative() {
    let expr = variable("x").div(&variable("y")).div(&variable("z"));
    assert_eq!(expr.to_text(), "x/y/z");
    let expr = variable("x").div(&variable("y").div(&variable("z")));
    assert_eq!(expr.to_text(), "x/(y/z)");
}

#[test]
fn negation_renders_prefix() {
    assert_eq!(variable("x").neg().to_text(), "-x");
    assert_eq!(variable("x").add(&variable("y")).neg().to_text(), "-(x+y)");
    assert_eq!(variable("x").sin().neg().to_text(), "-(sin(x))");
}

#[test]
fn functions_render_with_their_name() {
    assert_eq!(variable("x").sin().to_text(), "sin(x)");
    assert_eq!(variable("x").cos().to_text(), "cos(x)");
    assert_eq!(variable("x").tan().to_text(), "tan(x)");
    assert_eq!(variable("x").ln().to_text(), "ln(x)");
    assert_eq!(variable("x").exp().to_text(), "exp(x)");
    assert_eq!(variable("x").add(&variable("y")).cos().to_text(), "cos(x+y)");
}

#[test]
fn rational_displays_as_fraction() {
    assert_eq!(Value::Rational(1, 2).to_text(), "1/2");
    assert_eq!(Value::Rational(10, 3).to_text(), "10/3");
    assert_eq!(Value::Rational(0, 17).to_text(), "0/17");
}

#[test]
fn named_constants_display_as_symbols() {
    assert_eq!(Value::Pi.to_text(), "π");
    assert_eq!(Value::E.to_text(), "e");
    assert_eq!(Value::I.to_text(), "i");
    assert_eq!(Value::Inf.to_text(), "∞");
    assert_eq!(Value::Variable("speed").to_text(), "speed");
}

#[test]
fn rational_renders_inside_expression() {
    let expr = OpArgument::from_value(Value::Rational(10, 3)).add(&variable("x"));
    assert_eq!(expr.to_text(), "10/3+x");
}

#[test]
fn cos_variables_is_singleton() {
    let expr = variable("x").cos();
    let vars = expr.variables();
    assert_eq!(vars.len(), 1);
    assert!(vars[0] == Value::Variable("x"));
}

#[test]
fn variables_deduplicates_leaves() {
    let x = variable("x");
    let expr = x.add(&x);
    assert_eq!(expr.variables().len(), 1);
    let expr = x.add(&variable("y")).mul(&x.sin());
    assert_eq!(expr.variables().len(), 2);
}

#[test]
fn variables_includes_constant_leaves() {
    let expr = OpArgument::from_value(Value::Pi).add(&variable("x"));
    let vars = expr.variables();
    assert_eq!(vars.len(), 2);
    assert!(vars.iter().any(|v| *v == Value::Pi));
    assert!(vars.iter().any(|v| *v == Value::Variable("x")));
}

#[test]
fn separate_copies_compare_equal() {
    let a = variable("x").add(&variable("y"));
    let b = variable("x").add(&variable("y"));
    assert!(a == b);
}

#[test]
fn equal_builds_hash_equal() {
    let a = variable("x").pow(&variable("y")).cos();
    let b = variable("x").pow(&variable("y")).cos();
    assert_eq!(a.hash(), b.hash());
}

#[test]
fn hash_is_stable_across_calls() {
    let expr = variable("x").mul(&variable("y")).exp();
    let first = expr.hash();
    let second = expr.hash();
    assert_eq!(first, second);
}

#[test]
fn hash_distinguishes_leaves_and_shapes() {
    assert_ne!(
        OpArgument::from_value(Value::Pi).hash(),
        OpArgument::from_value(Value::E).hash()
    );
    assert_ne!(variable("x").hash(), variable("y").hash());
    let x = variable("x");
    let y = variable("y");
    assert_ne!(x.add(&y).hash(), x.mul(&y).hash());
    assert_ne!(x.add(&y).hash(), y.add(&x).hash());
}

#[test]
fn leaf_hash_agrees_with_expression_hash() {
    assert_eq!(hash_leaf(&Value::Pi), OpArgument::from_value(Value::Pi).hash());
    let expr = variable("x").add(&variable("y"));
    assert_eq!(hash_oparg(&expr.value), expr.hash());
}

#[test]
fn value_equality_is_structural() {
    assert!(Value::Variable("x") == Value::Variable("x"));
    assert!(Value::Variable("x") != Value::Variable("y"));
    assert!(Value::Rational(1, 2) == Value::Rational(1, 2));
    assert!(Value::Rational(1, 2) != Value::Rational(2, 1));
    assert!(Value::Pi != Value::E);
    assert!(Value::rational(3, 4) == Value::Rational(3, 4));
}

#[test]
fn argcount_matches_the_catalog() {
    assert_eq!(OperationKind::Addition.argcount(), 2);
    assert_eq!(OperationKind::Subtraction.argcount(), 2);
    assert_eq!(OperationKind::Multiplication.argcount(), 2);
    assert_eq!(OperationKind::Division.argcount(), 2);
    assert_eq!(OperationKind::Pow.argcount(), 2);
    assert_eq!(OperationKind::Negation.argcount(), 1);
    assert_eq!(OperationKind::Exp.argcount(), 1);
    assert_eq!(OperationKind::Sin.argcount(), 1);
    assert_eq!(OperationKind::Cos.argcount(), 1);
    assert_eq!(OperationKind::Tan.argcount(), 1);
    assert_eq!(OperationKind::Ln.argcount(), 1);
}

#[test]
fn fixity_matches_the_catalog() {
    assert!(OperationKind::Addition.is_infix());
    assert!(OperationKind::Pow.is_infix());
    assert!(!OperationKind::Negation.is_infix());
    assert!(!OperationKind::Sin.is_infix());
    assert!(OperationKind::Negation.is_prefix());
    assert!(!OperationKind::Addition.is_prefix());
}

#[test]
fn associativity_matches_the_catalog() {
    assert!(OperationKind::Pow.associativity() == Associativity::Right);
    assert!(OperationKind::Addition.associativity() == Associativity::Left);
    assert!(OperationKind::Division.associativity() == Associativity::Left);
    assert!(OperationKind::Sin.associativity() == Associativity::Neither);
}

#[test]
fn precedence_order_ranks_classes() {
    assert_eq!(
        OperationKind::Addition.cmp(&OperationKind::Multiplication),
        Ordering::Less
    );
    assert_eq!(
        OperationKind::Multiplication.cmp(&OperationKind::Pow),
        Ordering::Less
    );
    assert_eq!(
        OperationKind::Addition.cmp(&OperationKind::Subtraction),
        Ordering::Equal
    );
    assert_eq!(
        OperationKind::Pow.cmp(&OperationKind::Sin),
        Ordering::Equal
    );
    assert_eq!(
        OperationKind::Pow.cmp(&OperationKind::Addition),
        Ordering::Greater
    );
    assert_eq!(
        OperationKind::Division.partial_cmp(&OperationKind::Ln),
        Some(Ordering::Less)
    );
}

#[test]
fn operator_symbols() {
    assert_eq!(OperationKind::Addition.symbol(), "+");
    assert_eq!(OperationKind::Subtraction.symbol(), "-");
    assert_eq!(OperationKind::Multiplication.symbol(), "*");
    assert_eq!(OperationKind::Division.symbol(), "/");
    assert_eq!(OperationKind::Negation.symbol(), "-");
    assert_eq!(OperationKind::Pow.symbol(), "^");
    assert_eq!(OperationKind::Ln.symbol(), "ln");
}

#[test]
fn fill_variables_extends_without_duplicates() {
    let x = variable("x");
    let y = variable("y");
    let mut vars: Vec<Value> = Vec::new();
    x.fill_variables(&mut vars);
    assert_eq!(vars.len(), 1);
    x.add(&y).fill_variables(&mut vars);
    assert_eq!(vars.len(), 2);
}

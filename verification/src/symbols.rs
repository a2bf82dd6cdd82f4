//! The structures that comprise the computational graph (except for
//! constants): operator kinds, operator nodes, and the shared expression
//! handle with its cached structural hash.

use vstd::prelude::*;
use vstd::string::StringExecFns;
use std::sync::Arc;
use crate::constants::{Value, ValueModel};
use crate::equivalencies::{lemma_views_of_index, spec_hash};
use crate::operation_properties::{
    prec_class, spec_argcount, spec_associativity, spec_is_infix, spec_is_prefix, Associativity,
};

verus! {

/// The closed catalog of operators and functions.
#[derive(Copy, Clone, PartialEq, Eq, Structural)]
pub enum OperationKind {
    Addition,
    Subtraction,
    Multiplication,
    Division,
    Negation,
    Pow,
    Exp,
    Sin,
    Cos,
    Tan,
    Ln,
}

/// An internal node: an operator together with its child expressions.
pub struct Operation {
    pub op: OperationKind,
    pub arguments: Vec<OpArgument>,
}

/// The two shapes an expression handle can take: a shared operator node or a
/// shared leaf value.
pub enum OpArgumentKind {
    Op(Arc<Operation>),
    Leaf(Arc<Value>),
}

/// The public expression handle: a shared node plus its structural hash,
/// computed once when the node is built and reused ever after.
pub struct OpArgument {
    pub value: OpArgumentKind,
    pub hash: u64,
}

/// Mathematical image of an expression: the bare tree of operators and leaf
/// models, with sharing and cached hashes forgotten.
pub enum ExprView {
    Leaf(ValueModel),
    Node(OperationKind, Seq<ExprView>),
}

/// The tree that an expression handle stands for.
pub open spec fn expr_view(a: OpArgument) -> ExprView
    decreases a,
{
    kind_view(a.value)
}

/// The tree that a node shape stands for.
pub open spec fn kind_view(k: OpArgumentKind) -> ExprView
    decreases k,
{
    match k {
        OpArgumentKind::Op(op) => ExprView::Node((*op).op, views_of((*op).arguments@)),
        OpArgumentKind::Leaf(v) => ExprView::Leaf((*v)@),
    }
}

/// The trees that a sequence of child handles stands for, in order.
pub open spec fn views_of(s: Seq<OpArgument>) -> Seq<ExprView>
    decreases s,
{
    if s.len() == 0 {
        Seq::empty()
    } else {
        views_of(s.drop_last()).push(expr_view(s.last()))
    }
}

impl View for OpArgument {
    type V = ExprView;

    open spec fn view(&self) -> ExprView {
        expr_view(*self)
    }
}

/// A tree is well formed when every node carries exactly as many children as
/// its operator's arity demands and every rational leaf has a non-zero
/// denominator.
pub open spec fn view_wf(e: ExprView) -> bool
    decreases e,
{
    match e {
        ExprView::Leaf(v) => v.wf(),
        ExprView::Node(op, cs) => {
            &&& cs.len() == spec_argcount(op)
            &&& forall|i: int| 0 <= i < cs.len() ==> view_wf(#[trigger] cs[i])
        },
    }
}

/// Every node of the expression carries the structural hash of its own tree
/// in its cache field.
pub open spec fn hash_cached(a: OpArgument) -> bool
    decreases a,
{
    a.hash == spec_hash(expr_view(a)) && kind_cached(a.value)
}

pub open spec fn kind_cached(k: OpArgumentKind) -> bool
    decreases k,
{
    match k {
        OpArgumentKind::Op(op) => forall|i: int|
            0 <= i < (*op).arguments@.len() ==> hash_cached(#[trigger] (*op).arguments@[i]),
        OpArgumentKind::Leaf(_) => true,
    }
}

impl OpArgument {
    /// The invariant every published expression handle satisfies: its tree is
    /// well formed and every hash cache in it is filled correctly.
    pub open spec fn wf(self) -> bool {
        view_wf(self@) && hash_cached(self)
    }

    /// Returns the structural hash of this expression: a 64-bit fingerprint
    /// computed bottom-up over operator codes, argument counts and child
    /// hashes. Equal trees always yield equal hashes; distinct trees may
    /// collide, so hash equality approximates structural equality only.
    pub fn hash(&self) -> (h: u64)
        requires
            self.wf(),
        ensures
            h == spec_hash(self@),
    {
        self.hash
    }

    /// Wraps a leaf value into a fresh expression handle with its hash cache
    /// already filled.
    pub fn from_value(value: Value) -> (r: OpArgument)
        ensures
            r@ == ExprView::Leaf(value@),
            hash_cached(r),
            value.wf() ==> r.wf(),
    {
        let h = crate::equivalencies::hash_leaf(&value);
        OpArgument { value: OpArgumentKind::Leaf(Arc::new(value)), hash: h }
    }
}

/// Builds the expression consisting of one free variable.
pub fn variable(name: &'static str) -> (r: OpArgument)
    ensures
        r@ == ExprView::Leaf(ValueModel::Variable(name@)),
        r.wf(),
{
    OpArgument::from_value(Value::Variable(name))
}

impl PartialEq for OpArgument {
    /// Two expressions compare equal exactly when their cached structural
    /// hashes agree; no deep comparison ever happens. On well-formed handles
    /// this decides structural equality up to hash collisions.
    fn eq(&self, other: &Self) -> (r: bool) {
        self.hash == other.hash
    }
}

impl Eq for OpArgument {

}

impl vstd::std_specs::cmp::PartialEqSpecImpl for OpArgument {
    open spec fn obeys_eq_spec() -> bool {
        true
    }

    open spec fn eq_spec(&self, other: &OpArgument) -> bool {
        self.hash == other.hash
    }
}

/// The decimal digit character for `d`.
pub open spec fn dec_digit(d: int) -> char {
    if d == 0 {
        '0'
    } else if d == 1 {
        '1'
    } else if d == 2 {
        '2'
    } else if d == 3 {
        '3'
    } else if d == 4 {
        '4'
    } else if d == 5 {
        '5'
    } else if d == 6 {
        '6'
    } else if d == 7 {
        '7'
    } else if d == 8 {
        '8'
    } else {
        '9'
    }
}

/// The decimal digits of a non-negative integer, most significant first.
pub open spec fn dec_str(n: int) -> Seq<char>
    decreases n,
{
    if n < 10 {
        seq![dec_digit(n)]
    } else {
        dec_str(n / 10) + seq![dec_digit(n % 10)]
    }
}

/// The text of a leaf: `num/den` for rationals, the constant's symbol, or
/// the variable's name.
pub open spec fn value_text(v: ValueModel) -> Seq<char> {
    match v {
        ValueModel::Rational(num, den) => dec_str(num as int) + seq!['/'] + dec_str(den as int),
        ValueModel::Pi => seq!['π'],
        ValueModel::E => seq!['e'],
        ValueModel::I => seq!['i'],
        ValueModel::Inf => seq!['∞'],
        ValueModel::Variable(name) => name,
    }
}

/// The symbol or name each operator prints as.
pub open spec fn op_symbol(k: OperationKind) -> Seq<char> {
    match k {
        OperationKind::Addition => seq!['+'],
        OperationKind::Subtraction => seq!['-'],
        OperationKind::Multiplication => seq!['*'],
        OperationKind::Division => seq!['/'],
        OperationKind::Negation => seq!['-'],
        OperationKind::Pow => seq!['^'],
        OperationKind::Exp => seq!['e', 'x', 'p'],
        OperationKind::Sin => seq!['s', 'i', 'n'],
        OperationKind::Cos => seq!['c', 'o', 's'],
        OperationKind::Tan => seq!['t', 'a', 'n'],
        OperationKind::Ln => seq!['l', 'n'],
    }
}

/// Surrounds the text with parentheses when asked to.
pub open spec fn paren_wrap(s: Seq<char>, parens: bool) -> Seq<char> {
    if parens {
        seq!['('] + s + seq![')']
    } else {
        s
    }
}

/// A prefix operator parenthesizes its operand exactly when the operand is
/// itself an operator node of lower or equal precedence.
pub open spec fn needs_parens_prefix(parent: OperationKind, child: ExprView) -> bool {
    match child {
        ExprView::Node(cop, _) => prec_class(cop) <= prec_class(parent),
        ExprView::Leaf(_) => false,
    }
}

/// An infix operator parenthesizes an operand unless the operand binds
/// strictly tighter, or equally tightly while sitting on the side that
/// matches the operator's associativity.
pub open spec fn needs_parens_infix(
    parent: OperationKind,
    child: ExprView,
    side: Associativity,
) -> bool {
    match child {
        ExprView::Node(cop, _) => !(prec_class(cop) > prec_class(parent) || (prec_class(cop)
            == prec_class(parent) && spec_associativity(parent) == side)),
        ExprView::Leaf(_) => false,
    }
}

/// The canonical text of a tree: infix and prefix operators insert only the
/// parentheses that precedence and associativity require; every other
/// operator of the catalog is unary and prints as `name(argument)`.
pub open spec fn render(e: ExprView) -> Seq<char>
    decreases e,
{
    match e {
        ExprView::Leaf(v) => value_text(v),
        ExprView::Node(k, cs) => {
            if spec_is_prefix(k) && cs.len() == 1 {
                op_symbol(k) + paren_wrap(render(cs[0]), needs_parens_prefix(k, cs[0]))
            } else if spec_is_infix(k) && cs.len() == 2 {
                paren_wrap(render(cs[0]), needs_parens_infix(k, cs[0], Associativity::Left))
                    + op_symbol(k) + paren_wrap(
                    render(cs[1]),
                    needs_parens_infix(k, cs[1], Associativity::Right),
                )
            } else if cs.len() == 1 {
                op_symbol(k) + seq!['('] + render(cs[0]) + seq![')']
            } else {
                Seq::empty()
            }
        },
    }
}

/// The decimal digit of `d` as a string slice.
fn digit_str(d: u64) -> (r: &'static str)
    requires
        d < 10,
    ensures
        r@ == seq![dec_digit(d as int)],
{
    proof {
        reveal_strlit("0");
        reveal_strlit("1");
        reveal_strlit("2");
        reveal_strlit("3");
        reveal_strlit("4");
        reveal_strlit("5");
        reveal_strlit("6");
        reveal_strlit("7");
        reveal_strlit("8");
        reveal_strlit("9");
    }
    match d {
        0 => "0",
        1 => "1",
        2 => "2",
        3 => "3",
        4 => "4",
        5 => "5",
        6 => "6",
        7 => "7",
        8 => "8",
        _ => "9",
    }
}

/// The decimal text of `n`, most significant digit first.
fn u64_text(n: u64) -> (s: String)
    ensures
        s@ == dec_str(n as int),
    decreases n,
{
    if n < 10 {
        digit_str(n).to_owned()
    } else {
        let mut s = u64_text(n / 10);
        s.append(digit_str(n % 10));
        s
    }
}

impl Value {
    /// Renders the leaf: `num/den`, the constant's symbol, or the variable's
    /// name verbatim.
    pub fn to_text(&self) -> (s: String)
        ensures
            s@ == value_text(self@),
    {
        match *self {
            Value::Rational(num, den) => {
                let mut s = u64_text(num);
                s.append("/");
                let d = u64_text(den);
                s.append(d.as_str());
                proof {
                    reveal_strlit("/");
                    assert(s@ =~= value_text(self@));
                }
                s
            },
            Value::Pi => {
                proof {
                    reveal_strlit("π");
                }
                "π".to_owned()
            },
            Value::E => {
                proof {
                    reveal_strlit("e");
                }
                "e".to_owned()
            },
            Value::I => {
                proof {
                    reveal_strlit("i");
                }
                "i".to_owned()
            },
            Value::Inf => {
                proof {
                    reveal_strlit("∞");
                }
                "∞".to_owned()
            },
            Value::Variable(name) => name.to_owned(),
        }
    }
}

impl OperationKind {
    /// The symbol or name this operator prints as.
    pub fn symbol(self) -> (r: &'static str)
        ensures
            r@ == op_symbol(self),
    {
        proof {
            reveal_strlit("+");
            reveal_strlit("-");
            reveal_strlit("*");
            reveal_strlit("/");
            reveal_strlit("^");
            reveal_strlit("exp");
            reveal_strlit("sin");
            reveal_strlit("cos");
            reveal_strlit("tan");
            reveal_strlit("ln");
        }
        match self {
            OperationKind::Addition => "+",
            OperationKind::Subtraction => "-",
            OperationKind::Multiplication => "*",
            OperationKind::Division => "/",
            OperationKind::Negation => "-",
            OperationKind::Pow => "^",
            OperationKind::Exp => "exp",
            OperationKind::Sin => "sin",
            OperationKind::Cos => "cos",
            OperationKind::Tan => "tan",
            OperationKind::Ln => "ln",
        }
    }
}

impl Operation {
    /// The tree this node stands for.
    pub open spec fn node_view(self) -> ExprView {
        ExprView::Node(self.op, views_of(self.arguments@))
    }

    /// Adds every leaf below this node to `vars`, keeping the vector free of
    /// duplicates.
    pub fn fill_variables(&self, vars: &mut Vec<Value>)
        ensures
            vals_set(final(vars)@) == vals_set(old(vars)@).union(
                leaves_of_seq(views_of(self.arguments@)),
            ),
            distinct_models(old(vars)@) ==> distinct_models(final(vars)@),
        decreases *self,
    {
        let ghost cs = views_of(self.arguments@);
        proof {
            crate::equivalencies::lemma_views_of_len(self.arguments@);
        }
        let ghost entry = vars@;
        let mut i: usize = 0;
        while i < self.arguments.len()
            invariant
                i <= self.arguments@.len(),
                cs == views_of(self.arguments@),
                cs.len() == self.arguments@.len(),
                vals_set(vars@) == vals_set(entry).union(leaves_of_seq(cs.take(i as int))),
                distinct_models(entry) ==> distinct_models(vars@),
            decreases self.arguments@.len() - i,
        {
            self.arguments[i].fill_variables(vars);
            proof {
                lemma_views_of_index(self.arguments@, i as int);
                lemma_leaves_take_step(cs, i as int);
                assert(vals_set(vars@) =~= vals_set(entry).union(leaves_of_seq(cs.take(i + 1))));
            }
            i = i + 1;
        }
        proof {
            assert(cs.take(cs.len() as int) =~= cs);
        }
    }

    /// Renders the node with exactly the parentheses that precedence and
    /// associativity require. A node whose stored argument count disagreed
    /// with its operator's arity would be a construction bug; well-formedness
    /// rules that out.
    pub fn to_text(&self) -> (s: String)
        requires
            view_wf(self.node_view()),
        ensures
            s@ == render(self.node_view()),
        decreases *self,
    {
        let ghost cs = views_of(self.arguments@);
        proof {
            lemma_views_of_index(self.arguments@, 0);
        }
        if self.op.is_prefix() {
            let child = &self.arguments[0];
            let needs: bool = match &child.value {
                OpArgumentKind::Op(inner) => inner.op.prec_level() <= self.op.prec_level(),
                OpArgumentKind::Leaf(_) => false,
            };
            let mut s = self.op.symbol().to_owned();
            let inner_text = child.to_text();
            if needs {
                s.append("(");
                s.append(inner_text.as_str());
                s.append(")");
            } else {
                s.append(inner_text.as_str());
            }
            proof {
                reveal_strlit("(");
                reveal_strlit(")");
                assert(needs == needs_parens_prefix(self.op, cs[0]));
                assert(s@ =~= render(self.node_view()));
            }
            s
        } else if self.op.is_infix() {
            proof {
                lemma_views_of_index(self.arguments@, 1);
            }
            let lhs = &self.arguments[0];
            let rhs = &self.arguments[1];
            let lneeds: bool = match &lhs.value {
                OpArgumentKind::Op(inner) => {
                    let cl = inner.op.prec_level();
                    let pl = self.op.prec_level();
                    !(cl > pl || (cl == pl && self.op.associativity() == Associativity::Left))
                },
                OpArgumentKind::Leaf(_) => false,
            };
            let rneeds: bool = match &rhs.value {
                OpArgumentKind::Op(inner) => {
                    let cl = inner.op.prec_level();
                    let pl = self.op.prec_level();
                    !(cl > pl || (cl == pl && self.op.associativity() == Associativity::Right))
                },
                OpArgumentKind::Leaf(_) => false,
            };
            let mut s = String::new();
            let ltext = lhs.to_text();
            let rtext = rhs.to_text();
            if lneeds {
                s.append("(");
                s.append(ltext.as_str());
                s.append(")");
            } else {
                s.append(ltext.as_str());
            }
            s.append(self.op.symbol());
            if rneeds {
                s.append("(");
                s.append(rtext.as_str());
                s.append(")");
            } else {
                s.append(rtext.as_str());
            }
            proof {
                reveal_strlit("(");
                reveal_strlit(")");
                assert(lneeds == needs_parens_infix(self.op, cs[0], Associativity::Left));
                assert(rneeds == needs_parens_infix(self.op, cs[1], Associativity::Right));
                assert(s@ =~= render(self.node_view()));
            }
            s
        } else {
            let child = &self.arguments[0];
            let mut s = self.op.symbol().to_owned();
            let inner_text = child.to_text();
            s.append("(");
            s.append(inner_text.as_str());
            s.append(")");
            proof {
                reveal_strlit("(");
                reveal_strlit(")");
                assert(s@ =~= render(self.node_view()));
            }
            s
        }
    }
}

/// The set of leaf values occurring anywhere in the tree.
pub open spec fn leaf_models(e: ExprView) -> Set<ValueModel>
    decreases e,
{
    match e {
        ExprView::Leaf(v) => Set::empty().insert(v),
        ExprView::Node(_, cs) => leaves_of_seq(cs),
    }
}

/// The union of the leaf sets of a sequence of trees.
pub open spec fn leaves_of_seq(cs: Seq<ExprView>) -> Set<ValueModel>
    decreases cs,
{
    if cs.len() == 0 {
        Set::empty()
    } else {
        leaves_of_seq(cs.drop_last()).union(leaf_models(cs.last()))
    }
}

/// The set of leaf models a vector of values stands for.
pub open spec fn vals_set(s: Seq<Value>) -> Set<ValueModel> {
    Set::new(|m: ValueModel| exists|i: int| 0 <= i < s.len() && s[i]@ == m)
}

/// No two entries of the vector stand for the same leaf.
pub open spec fn distinct_models(s: Seq<Value>) -> bool {
    forall|i: int, j: int| 0 <= i < j < s.len() ==> (#[trigger] s[i])@ != (#[trigger] s[j])@
}

/// Whether some entry of the vector stands for the same leaf as `v`.
fn contains_value(vars: &Vec<Value>, v: &Value) -> (r: bool)
    ensures
        r == vals_set(vars@).contains(v@),
{
    let mut i: usize = 0;
    while i < vars.len()
        invariant
            i <= vars@.len(),
            forall|j: int| 0 <= j < i ==> (#[trigger] vars@[j])@ != v@,
        decreases vars@.len() - i,
    {
        if vars[i] == *v {
            return true;
        }
        i = i + 1;
    }
    false
}

/// A step of [`leaves_of_seq`] over a growing prefix.
proof fn lemma_leaves_take_step(cs: Seq<ExprView>, i: int)
    requires
        0 <= i < cs.len(),
    ensures
        leaves_of_seq(cs.take(i + 1)) == leaves_of_seq(cs.take(i)).union(leaf_models(cs[i])),
{
    let t = cs.take(i + 1);
    assert(t.drop_last() =~= cs.take(i));
    assert(t.last() == cs[i]);
}

impl OpArgument {
    /// Adds every leaf of the expression to `vars`, skipping the leaves the
    /// vector already holds: the vector behaves as a set of leaf values.
    pub fn fill_variables(&self, vars: &mut Vec<Value>)
        ensures
            vals_set(final(vars)@) == vals_set(old(vars)@).union(leaf_models(self@)),
            distinct_models(old(vars)@) ==> distinct_models(final(vars)@),
        decreases *self,
    {
        match &self.value {
            OpArgumentKind::Op(op) => {
                op.fill_variables(vars);
            },
            OpArgumentKind::Leaf(value) => {
                let ghost m0 = (**value)@;
                if !contains_value(vars, value) {
                    vars.push(**value);
                    proof {
                        let entry = old(vars)@;
                        assert(vars@ == entry.push(**value));
                        assert(vars@[entry.len() as int]@ == m0);
                        assert forall|m: ValueModel|
                            vals_set(entry).union(leaf_models(self@)).contains(m) implies vals_set(
                            vars@,
                        ).contains(m) by {
                            if vals_set(entry).contains(m) {
                                let i = choose|i: int| 0 <= i < entry.len() && entry[i]@ == m;
                                assert(vars@[i]@ == m);
                            } else {
                                assert(m == m0);
                            }
                        }
                        assert forall|m: ValueModel| vals_set(vars@).contains(m) implies vals_set(
                            entry,
                        ).union(leaf_models(self@)).contains(m) by {
                            let i = choose|i: int| 0 <= i < vars@.len() && vars@[i]@ == m;
                            if i < entry.len() {
                                assert(entry[i]@ == m);
                            } else {
                                assert(m == m0);
                            }
                        }
                        assert(vals_set(vars@) =~= vals_set(entry).union(leaf_models(self@)));
                        assert forall|i: int, j: int|
                            0 <= i < j < vars@.len() && distinct_models(entry) implies (
                        #[trigger] vars@[i])@ != (#[trigger] vars@[j])@ by {
                            if j == entry.len() {
                                assert(entry[i]@ != m0);
                            }
                        }
                    }
                } else {
                    proof {
                        assert(vals_set(vars@).contains(m0));
                        assert(vals_set(vars@) =~= vals_set(old(vars)@).union(
                            leaf_models(self@),
                        ));
                    }
                }
            },
        }
    }

    /// The set of leaf values the expression references, each appearing
    /// exactly once.
    pub fn variables(&self) -> (r: Vec<Value>)
        ensures
            vals_set(r@) == leaf_models(self@),
            distinct_models(r@),
    {
        let mut v: Vec<Value> = Vec::new();
        self.fill_variables(&mut v);
        proof {
            assert(vals_set(v@) =~= leaf_models(self@));
        }
        v
    }

    /// Renders the expression as canonical infix/prefix text.
    pub fn to_text(&self) -> (s: String)
        requires
            view_wf(self@),
        ensures
            s@ == render(self@),
        decreases *self,
    {
        match &self.value {
            OpArgumentKind::Op(op) => op.to_text(),
            OpArgumentKind::Leaf(val) => val.to_text(),
        }
    }
}

} // verus!

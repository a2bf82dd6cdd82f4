//! Builders that assemble new operator nodes from existing expressions.
//! Construction is pure: no evaluation, simplification or normalization
//! happens here; each builder allocates one fresh node whose hash cache is
//! filled bottom-up from the children's caches.

use vstd::prelude::*;
use std::sync::Arc;
use crate::equivalencies::hash_op;
use crate::symbols::{
    expr_view, hash_cached, views_of, ExprView, OpArgument, OpArgumentKind, Operation,
    OperationKind,
};

verus! {

/// Views of an explicit pair of children.
pub open spec fn pair_view(a: OpArgument, b: OpArgument) -> Seq<ExprView> {
    seq![expr_view(a), expr_view(b)]
}

/// A fresh handle to the same shared node: the clone bumps the reference
/// count, it never copies the subgraph.
pub(crate) fn construct_oparg(op_argument: &OpArgument) -> (r: OpArgument)
    ensures
        r == *op_argument,
{
    OpArgument {
        hash: op_argument.hash,
        value: match &op_argument.value {
            OpArgumentKind::Op(op) => OpArgumentKind::Op(Arc::clone(op)),
            OpArgumentKind::Leaf(val) => OpArgumentKind::Leaf(Arc::clone(val)),
        },
    }
}

/// Allocates one operator node over the given children and fills its hash
/// cache from theirs.
fn construct(op: OperationKind, arguments: Vec<OpArgument>) -> (r: OpArgument)
    requires
        arguments@.len() == crate::operation_properties::spec_argcount(op),
        forall|i: int| 0 <= i < arguments@.len() ==> (#[trigger] arguments@[i]).wf(),
    ensures
        r@ == ExprView::Node(op, views_of(arguments@)),
        r.wf(),
{
    proof {
        crate::equivalencies::lemma_views_of_len(arguments@);
        assert forall|i: int| 0 <= i < arguments@.len() implies hash_cached(
            #[trigger] arguments@[i],
        ) by {}
    }
    let operation = Operation { op, arguments };
    let h = hash_op(&operation);
    let r = OpArgument { value: OpArgumentKind::Op(Arc::new(operation)), hash: h };
    proof {
        lemma_views_of_wf(operation.arguments@);
    }
    r
}

/// Pointwise facts about the views of a sequence of well-formed handles.
proof fn lemma_views_of_wf(s: Seq<OpArgument>)
    requires
        forall|i: int| 0 <= i < s.len() ==> (#[trigger] s[i]).wf(),
    ensures
        views_of(s).len() == s.len(),
        forall|i: int| 0 <= i < s.len() ==> crate::symbols::view_wf(#[trigger] views_of(s)[i]),
    decreases s,
{
    if s.len() > 0 {
        lemma_views_of_wf(s.drop_last());
    }
}

impl OpArgument {
    /// Builds the sum of the two expressions.
    pub fn add(&self, rhs: &OpArgument) -> (r: OpArgument)
        requires
            self.wf(),
            rhs.wf(),
        ensures
            r@ == ExprView::Node(OperationKind::Addition, pair_view(*self, *rhs)),
            r.wf(),
    {
        binary(OperationKind::Addition, self, rhs)
    }

    /// Builds the difference of the two expressions.
    pub fn sub(&self, rhs: &OpArgument) -> (r: OpArgument)
        requires
            self.wf(),
            rhs.wf(),
        ensures
            r@ == ExprView::Node(OperationKind::Subtraction, pair_view(*self, *rhs)),
            r.wf(),
    {
        binary(OperationKind::Subtraction, self, rhs)
    }

    /// Builds the product of the two expressions.
    pub fn mul(&self, rhs: &OpArgument) -> (r: OpArgument)
        requires
            self.wf(),
            rhs.wf(),
        ensures
            r@ == ExprView::Node(OperationKind::Multiplication, pair_view(*self, *rhs)),
            r.wf(),
    {
        binary(OperationKind::Multiplication, self, rhs)
    }

    /// Builds the quotient of the two expressions.
    pub fn div(&self, rhs: &OpArgument) -> (r: OpArgument)
        requires
            self.wf(),
            rhs.wf(),
        ensures
            r@ == ExprView::Node(OperationKind::Division, pair_view(*self, *rhs)),
            r.wf(),
    {
        binary(OperationKind::Division, self, rhs)
    }

    /// Builds the negation of the expression.
    pub fn neg(&self) -> (r: OpArgument)
        requires
            self.wf(),
        ensures
            r@ == ExprView::Node(OperationKind::Negation, seq![self@]),
            r.wf(),
    {
        unary(OperationKind::Negation, self)
    }

    /// Builds `self` raised to the power `rhs`.
    pub fn pow(&self, rhs: &OpArgument) -> (r: OpArgument)
        requires
            self.wf(),
            rhs.wf(),
        ensures
            r@ == ExprView::Node(OperationKind::Pow, pair_view(*self, *rhs)),
            r.wf(),
    {
        binary(OperationKind::Pow, self, rhs)
    }

    /// Builds the natural logarithm of the expression.
    pub fn ln(&self) -> (r: OpArgument)
        requires
            self.wf(),
        ensures
            r@ == ExprView::Node(OperationKind::Ln, seq![self@]),
            r.wf(),
    {
        unary(OperationKind::Ln, self)
    }

    /// Builds the exponential of the expression.
    pub fn exp(&self) -> (r: OpArgument)
        requires
            self.wf(),
        ensures
            r@ == ExprView::Node(OperationKind::Exp, seq![self@]),
            r.wf(),
    {
        unary(OperationKind::Exp, self)
    }

    /// Builds the sine of the expression.
    pub fn sin(&self) -> (r: OpArgument)
        requires
            self.wf(),
        ensures
            r@ == ExprView::Node(OperationKind::Sin, seq![self@]),
            r.wf(),
    {
        unary(OperationKind::Sin, self)
    }

    /// Builds the cosine of the expression.
    pub fn cos(&self) -> (r: OpArgument)
        requires
            self.wf(),
        ensures
            r@ == ExprView::Node(OperationKind::Cos, seq![self@]),
            r.wf(),
    {
        unary(OperationKind::Cos, self)
    }

    /// Builds the tangent of the expression.
    pub fn tan(&self) -> (r: OpArgument)
        requires
            self.wf(),
        ensures
            r@ == ExprView::Node(OperationKind::Tan, seq![self@]),
            r.wf(),
    {
        unary(OperationKind::Tan, self)
    }
}

/// The views of an explicit two-element sequence.
proof fn lemma_views_of_pair(a: OpArgument, b: OpArgument)
    ensures
        views_of(seq![a, b]) == seq![expr_view(a), expr_view(b)],
{
    let s = seq![a, b];
    assert(s.drop_last() =~= seq![a]);
    assert(s.last() == b);
    lemma_views_of_single(a);
    assert(views_of(s) =~= seq![expr_view(a), expr_view(b)]);
}

/// The views of an explicit one-element sequence.
proof fn lemma_views_of_single(a: OpArgument)
    ensures
        views_of(seq![a]) == seq![expr_view(a)],
{
    let s = seq![a];
    assert(s.drop_last() =~= Seq::<OpArgument>::empty());
    assert(s.last() == a);
    assert(views_of(s) == views_of(Seq::<OpArgument>::empty()).push(expr_view(a)));
    assert(views_of(Seq::<OpArgument>::empty()) == Seq::<ExprView>::empty());
    assert(views_of(s) =~= seq![expr_view(a)]);
}

/// Builds a node of a binary operator over shared copies of the operands.
fn binary(op: OperationKind, lhs: &OpArgument, rhs: &OpArgument) -> (r: OpArgument)
    requires
        crate::operation_properties::spec_argcount(op) == 2,
        lhs.wf(),
        rhs.wf(),
    ensures
        r@ == ExprView::Node(op, pair_view(*lhs, *rhs)),
        r.wf(),
{
    let mut arguments: Vec<OpArgument> = Vec::new();
    arguments.push(construct_oparg(lhs));
    arguments.push(construct_oparg(rhs));
    proof {
        assert(arguments@ =~= seq![*lhs, *rhs]);
    }
    let r = construct(op, arguments);
    proof {
        lemma_views_of_pair(*lhs, *rhs);
    }
    r
}

/// Builds a node of a unary operator over a shared copy of the operand.
fn unary(op: OperationKind, arg: &OpArgument) -> (r: OpArgument)
    requires
        crate::operation_properties::spec_argcount(op) == 1,
        arg.wf(),
    ensures
        r@ == ExprView::Node(op, seq![expr_view(*arg)]),
        r.wf(),
{
    let mut arguments: Vec<OpArgument> = Vec::new();
    arguments.push(construct_oparg(arg));
    proof {
        assert(arguments@ =~= seq![*arg]);
    }
    let r = construct(op, arguments);
    proof {
        lemma_views_of_single(*arg);
    }
    r
}

} // verus!

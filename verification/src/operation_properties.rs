//! Static metadata of the operator catalog: arity, infix/prefix
//! classification, associativity, and the precedence order that drives
//! parenthesization.

use vstd::prelude::*;
use core::cmp::Ordering;
use crate::symbols::OperationKind;

verus! {

/// Whether repeated operators of equal precedence group to the left, to the
/// right, or not at all.
#[derive(Copy, Clone, PartialEq, Eq, Structural)]
pub enum Associativity {
    Left,
    Right,
    Neither,
}

/// Whether the operator is printed between its two operands.
pub open spec fn spec_is_infix(k: OperationKind) -> bool {
    match k {
        OperationKind::Addition
        | OperationKind::Subtraction
        | OperationKind::Multiplication
        | OperationKind::Division
        | OperationKind::Pow => true,
        _ => false,
    }
}

/// The exact number of children a node of this operator must carry.
pub open spec fn spec_argcount(k: OperationKind) -> usize {
    match k {
        OperationKind::Negation => 1usize,
        OperationKind::Addition
        | OperationKind::Subtraction
        | OperationKind::Multiplication
        | OperationKind::Division
        | OperationKind::Pow => 2usize,
        OperationKind::Exp
        | OperationKind::Sin
        | OperationKind::Cos
        | OperationKind::Tan
        | OperationKind::Ln => 1usize,
    }
}

/// Whether the operator is printed before its single operand.
pub open spec fn spec_is_prefix(k: OperationKind) -> bool {
    k == OperationKind::Negation
}

/// How children of equal precedence associate under this operator.
pub open spec fn spec_associativity(k: OperationKind) -> Associativity {
    match k {
        OperationKind::Pow => Associativity::Right,
        OperationKind::Addition
        | OperationKind::Subtraction
        | OperationKind::Multiplication
        | OperationKind::Division => Associativity::Left,
        OperationKind::Negation
        | OperationKind::Exp
        | OperationKind::Sin
        | OperationKind::Cos
        | OperationKind::Tan
        | OperationKind::Ln => Associativity::Neither,
    }
}

/// The precedence rank of an operator: the additive class is lowest, the
/// multiplicative class is in the middle, and power, negation and the
/// transcendental functions share the highest rank.
pub open spec fn prec_class(k: OperationKind) -> int {
    match k {
        OperationKind::Addition | OperationKind::Subtraction => 1,
        OperationKind::Multiplication | OperationKind::Division => 2,
        _ => 3,
    }
}

/// The total precedence order on operators, as an `Ordering`.
pub open spec fn spec_prec_cmp(a: OperationKind, b: OperationKind) -> Ordering {
    if prec_class(a) < prec_class(b) {
        Ordering::Less
    } else if prec_class(a) == prec_class(b) {
        Ordering::Equal
    } else {
        Ordering::Greater
    }
}

impl OperationKind {
    /// Whether the operator is printed between its two operands.
    pub fn is_infix(self) -> (r: bool)
        ensures
            r == spec_is_infix(self),
    {
        match self {
            OperationKind::Addition
            | OperationKind::Subtraction
            | OperationKind::Multiplication
            | OperationKind::Division
            | OperationKind::Pow => true,
            _ => false,
        }
    }

    /// The exact number of children a node of this operator must carry.
    pub fn argcount(self) -> (n: usize)
        ensures
            n == spec_argcount(self),
    {
        match self {
            OperationKind::Negation => 1,
            OperationKind::Addition
            | OperationKind::Subtraction
            | OperationKind::Multiplication
            | OperationKind::Division
            | OperationKind::Pow => 2,
            OperationKind::Exp
            | OperationKind::Sin
            | OperationKind::Cos
            | OperationKind::Tan
            | OperationKind::Ln => 1,
        }
    }

    /// Whether the operator is printed before its single operand.
    pub fn is_prefix(self) -> (r: bool)
        ensures
            r == spec_is_prefix(self),
    {
        match self {
            OperationKind::Negation => true,
            _ => false,
        }
    }

    /// How children of equal precedence associate under this operator.
    pub fn associativity(self) -> (a: Associativity)
        ensures
            a == spec_associativity(self),
    {
        match self {
            OperationKind::Pow => Associativity::Right,
            OperationKind::Addition
            | OperationKind::Subtraction
            | OperationKind::Multiplication
            | OperationKind::Division => Associativity::Left,
            OperationKind::Negation
            | OperationKind::Exp
            | OperationKind::Sin
            | OperationKind::Cos
            | OperationKind::Tan
            | OperationKind::Ln => Associativity::Neither,
        }
    }

    /// Compares two operators in the total precedence order: additive below
    /// multiplicative below everything else, operators of one class equal.
    pub fn cmp(&self, other: &Self) -> (r: Ordering)
        ensures
            r == spec_prec_cmp(*self, *other),
    {
        let a: u8 = self.prec_level();
        let b: u8 = other.prec_level();
        if a < b {
            Ordering::Less
        } else if a == b {
            Ordering::Equal
        } else {
            Ordering::Greater
        }
    }

    /// Like [`Self::cmp`], wrapped in `Some`; the precedence order is total.
    pub fn partial_cmp(&self, other: &Self) -> (r: Option<Ordering>)
        ensures
            r == Some(spec_prec_cmp(*self, *other)),
    {
        Some(self.cmp(other))
    }

    /// The precedence rank as a machine integer.
    pub(crate) fn prec_level(self) -> (n: u8)
        ensures
            n as int == prec_class(self),
    {
        match self {
            OperationKind::Addition | OperationKind::Subtraction => 1,
            OperationKind::Multiplication | OperationKind::Division => 2,
            _ => 3,
        }
    }
}

} // verus!

//! Leaf terms of the expression graph: rational constants, named constants
//! and free variables.

use vstd::prelude::*;
use vstd::string::StrSliceExecFns;

verus! {

/// Compares two string slices character by character.
fn str_eq(a: &str, b: &str) -> (r: bool)
    ensures
        r == (a@ == b@),
{
    let la: usize = a.unicode_len();
    let lb: usize = b.unicode_len();
    if la != lb {
        return false;
    }
    let mut i: usize = 0;
    while i < la
        invariant
            i <= la,
            la == a@.len(),
            la == b@.len(),
            forall|j: int| 0 <= j < i ==> a@[j] == b@[j],
        decreases la - i,
    {
        if a.get_char(i) != b.get_char(i) {
            return false;
        }
        i = i + 1;
    }
    proof {
        assert(a@ =~= b@);
    }
    true
}

/// Mathematical image of a [`Value`]: the same data with the variable name
/// taken as its character sequence. Contracts speak of this model.
pub enum ValueModel {
    Rational(u64, u64),
    Pi,
    E,
    I,
    Inf,
    Variable(Seq<char>),
}

impl ValueModel {
    /// A rational leaf is well formed when its denominator is non-zero.
    pub open spec fn wf(self) -> bool {
        match self {
            ValueModel::Rational(_, den) => den != 0,
            _ => true,
        }
    }
}

/// A leaf symbol of a computational graph: a rational `num/den`, one of the
/// named constants, or a free variable.
#[derive(Copy, Clone)]
pub enum Value {
    Rational(u64, u64),
    Pi,
    E,
    I,
    Inf,
    Variable(&'static str),
}

impl View for Value {
    type V = ValueModel;

    open spec fn view(&self) -> ValueModel {
        match *self {
            Value::Rational(num, den) => ValueModel::Rational(num, den),
            Value::Pi => ValueModel::Pi,
            Value::E => ValueModel::E,
            Value::I => ValueModel::I,
            Value::Inf => ValueModel::Inf,
            Value::Variable(name) => ValueModel::Variable(name@),
        }
    }
}

impl Value {
    /// A rational leaf is well formed when its denominator is non-zero.
    /// Named constants and variables carry no such obligation.
    pub open spec fn wf(self) -> bool {
        self@.wf()
    }

    /// Builds a rational leaf; the non-zero denominator keeps the leaf
    /// well formed.
    pub fn rational(num: u64, den: u64) -> (r: Value)
        requires
            den != 0,
        ensures
            r == Value::Rational(num, den),
            r.wf(),
    {
        Value::Rational(num, den)
    }
}

impl PartialEq for Value {
    /// Leaves are equal exactly when their models are: same variant, same
    /// numerator and denominator, or same variable name characters.
    fn eq(&self, other: &Self) -> (r: bool) {
        match (self, other) {
            (Value::Rational(n1, d1), Value::Rational(n2, d2)) => n1 == n2 && d1 == d2,
            (Value::Pi, Value::Pi) => true,
            (Value::E, Value::E) => true,
            (Value::I, Value::I) => true,
            (Value::Inf, Value::Inf) => true,
            (Value::Variable(s1), Value::Variable(s2)) => str_eq(s1, s2),
            _ => false,
        }
    }
}

impl Eq for Value {

}

impl vstd::std_specs::cmp::PartialEqSpecImpl for Value {
    open spec fn obeys_eq_spec() -> bool {
        true
    }

    open spec fn eq_spec(&self, other: &Value) -> bool {
        self@ == other@
    }
}

} // verus!

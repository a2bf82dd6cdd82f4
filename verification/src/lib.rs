//! An immutable, structurally shared expression graph: leaf values, operator
//! nodes, content-based structural hashing, a precedence-aware renderer, and
//! an equivalence-class partition over expressions.

pub mod constants;
pub mod equivalencies;
pub mod operation_properties;
pub mod operations;
pub mod symbols;

use vstd::prelude::*;

verus! {

/// The binary operators of expressions.
#[derive(Debug, Clone, Copy, PartialEq, Eq)]
pub enum BinaryOperation {
    Add,
    Sub,
    Mul,
    Div,
    Eq,
}

/// The signature of a function: its name and the names of its parameters.
#[derive(Debug, Clone)]
pub struct Prototype {
    pub name: String,
    pub args: Vec<String>,
}

} // verus!

use vstd::prelude::*;

use crate::module::ModuleName;
use crate::vm::function::UpvalueSource;

verus! {

/// A variable's definition.
#[derive(Debug, Clone, Copy)]
pub struct Variable {
    pub closed_over: bool,
}

impl Variable {
    /// A variable that no closure captures (yet).
    pub fn new() -> (r: Variable)
        ensures
            !r.closed_over,
    {
        Variable { closed_over: false }
    }
}

/// How compiled code reaches a variable.
#[derive(Debug)]
pub enum VariableAllocation {
    /// A global of a module.
    Global { module: ModuleName, name: String },
    /// A variable captured by the enclosing closure.
    Upvalue { source: UpvalueSource, upvalue_index: usize },
    /// A slot of the stack frame, counted from the frame's base.
    Local { index: usize },
}

impl VariableAllocation {
    /// Whether the variable is a module global.
    pub fn is_global(&self) -> (r: bool)
        ensures
            r == self is Global,
    {
        matches!(self, VariableAllocation::Global { .. })
    }
}

/// A reference to a variable: where the compiled code finds it.
#[derive(Debug)]
pub struct VariableRef {
    pub allocation: VariableAllocation,
}

impl VariableRef {
    pub fn new(allocation: VariableAllocation) -> (r: VariableRef)
        ensures
            r.allocation == allocation,
    {
        VariableRef { allocation }
    }
}

} // verus!

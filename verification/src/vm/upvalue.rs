use vstd::prelude::*;

use crate::value::{Val, Value};

verus! {

/// A variable captured by a closure.  While the function that declared it is running it
/// lives on the stack (`Open`, with its stack index); once that function returns, its last
/// value moves into the upvalue (`Closed`).
#[derive(Debug)]
pub enum Upvalue {
    Open(usize),
    Closed(Value),
}

/// The model of an upvalue.
pub enum UpvalueView {
    Open(usize),
    Closed(Val),
}

impl View for Upvalue {
    type V = UpvalueView;

    open spec fn view(&self) -> UpvalueView {
        match self {
            Upvalue::Open(i) => UpvalueView::Open(*i),
            Upvalue::Closed(v) => UpvalueView::Closed(v@),
        }
    }
}

pub open spec fn upvalue_views(s: Seq<Upvalue>) -> Seq<UpvalueView> {
    s.map_values(|u: Upvalue| u@)
}

impl Upvalue {
    pub fn new(stack_index: usize) -> (r: Self)
        ensures
            r@ == UpvalueView::Open(stack_index),
    {
        Upvalue::Open(stack_index)
    }
}

} // verus!

use vstd::prelude::*;

verus! {

/// A function together with the upvalues it captured when it was created: the function is
/// named by its index in the program's function table, each upvalue by its index in the
/// machine's upvalue table.
#[derive(Debug)]
pub struct Closure {
    pub function: usize,
    pub upvalues: Vec<usize>,
}

/// The model of a closure.
pub struct ClosureView {
    pub function: usize,
    pub upvalues: Seq<usize>,
}

impl View for Closure {
    type V = ClosureView;

    open spec fn view(&self) -> ClosureView {
        ClosureView { function: self.function, upvalues: self.upvalues@ }
    }
}

pub open spec fn closure_views(s: Seq<Closure>) -> Seq<ClosureView> {
    s.map_values(|c: Closure| c@)
}

impl Closure {
    pub fn new(function: usize, upvalues: Vec<usize>) -> (r: Self)
        ensures
            r@ == (ClosureView { function, upvalues: upvalues@ }),
    {
        Closure { function, upvalues }
    }

    pub fn function(&self) -> (r: usize)
        ensures
            r == self.function,
    {
        self.function
    }

    pub fn upvalues(&self) -> (r: &[usize])
        ensures
            r@ == self.upvalues@,
    {
        self.upvalues.as_slice()
    }
}

} // verus!

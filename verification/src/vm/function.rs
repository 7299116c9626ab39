use vstd::prelude::*;

use crate::line_col::LineCol;

use super::chunk::Chunk;

verus! {

/// Where a closure finds a captured variable when it is created.
#[derive(Debug, Clone, Copy, PartialEq, Eq, Structural)]
pub enum UpvalueSource {
    /// Upvalue is a local captured from the parent function.  Index is relative to base of the
    /// caller's stack frame.
    Local { stack_index_relative_to_base: usize },
    /// Upvalue is an upvalue already captured by the parent function.  Index is the upvalue
    /// index of the parent function.
    Upvalue { upvalue_index: usize },
}

/// A compiled function: its bytecode, how many arguments it takes, where its captured
/// variables come from, and a name for stack traces.
#[derive(Debug)]
pub struct Function {
    pub chunk: Chunk,
    pub arity: usize,
    pub upvalue_sources: Vec<UpvalueSource>,
    pub debug_name: String,
}

impl Function {
    pub fn new(
        chunk: Chunk,
        arity: usize,
        upvalue_sources: Vec<UpvalueSource>,
        debug_name: String,
    ) -> (r: Self)
        ensures
            r.chunk == chunk,
            r.arity == arity,
            r.upvalue_sources == upvalue_sources,
            r.debug_name == debug_name,
    {
        Function { chunk, arity, upvalue_sources, debug_name }
    }

    pub fn chunk(&self) -> (r: &Chunk)
        ensures
            r == &self.chunk,
    {
        &self.chunk
    }

    pub fn arity(&self) -> (r: usize)
        ensures
            r == self.arity,
    {
        self.arity
    }

    pub fn upvalue_sources(&self) -> (r: &[UpvalueSource])
        ensures
            r@ == self.upvalue_sources@,
    {
        self.upvalue_sources.as_slice()
    }

    pub fn get_debug_name(&self) -> (r: &str)
        ensures
            r@ == self.debug_name@,
    {
        self.debug_name.as_str()
    }

    pub fn get_source_file(&self) -> (r: &str)
        ensures
            r@ == self.chunk.source_file@,
    {
        self.chunk.source_file.as_str()
    }

    /// The source location of the instruction at offset `ip`.
    pub fn get_source_loc(&self, ip: usize) -> (r: &LineCol)
        requires
            ip < self.chunk.source_locs@.len(),
        ensures
            *r == self.chunk.source_locs@[ip as int],
    {
        &self.chunk.source_locs[ip]
    }
}

} // verus!

use vstd::prelude::*;

use crate::line_col::LineCol;
use crate::value::{equals, lemma_views, views, Val, Value};

use super::inst::{wide_limit, Instr};
use super::pattern::Pattern;

verus! {

/// Bytecode of one function: instructions, the constants and patterns they refer to, and the
/// source location of each instruction.
#[derive(Debug)]
pub struct Chunk {
    pub code: Vec<Instr>,
    pub constants: Vec<Value>,
    pub patterns: Vec<Pattern>,
    pub source_file: String,
    pub source_locs: Vec<LineCol>,
}

/// The position of the first occurrence of `v` in `s`, if any.
pub open spec fn first_index(s: Seq<Val>, v: Val) -> Option<int> {
    if exists|i: int| 0 <= i < s.len() && s[i] == v {
        Some(
            choose|i: int|
                0 <= i < s.len() && s[i] == v && forall|j: int| 0 <= j < i ==> s[j] != v,
        )
    } else {
        None
    }
}

impl Chunk {
    pub fn new() -> (r: Self)
        ensures
            r.code@.len() == 0,
            r.constants@.len() == 0,
            r.patterns@.len() == 0,
            r.source_file@.len() == 0,
            r.source_locs@.len() == 0,
    {
        Chunk {
            code: Vec::new(),
            constants: Vec::new(),
            patterns: Vec::new(),
            source_file: String::new(),
            source_locs: Vec::new(),
        }
    }

    /// Appends an instruction and its source location; gives the instruction's offset.
    pub fn write(&mut self, instr: Instr, source_loc: LineCol) -> (r: usize)
        ensures
            final(self).code@ == old(self).code@.push(instr),
            final(self).source_locs@ == old(self).source_locs@.push(source_loc),
            final(self).constants@ == old(self).constants@,
            final(self).patterns@ == old(self).patterns@,
            final(self).source_file@ == old(self).source_file@,
            r == old(self).code@.len(),
    {
        self.code.push(instr);
        self.source_locs.push(source_loc);
        self.code.len() - 1
    }

    /// The index of `value` among the constants, adding it when it isn't there yet.  Indices
    /// are kept modulo 256, as bytes.
    pub fn write_constant(&mut self, value: Value) -> (r: u8)
        ensures
            final(self).code@ == old(self).code@,
            final(self).source_locs@ == old(self).source_locs@,
            final(self).patterns@ == old(self).patterns@,
            final(self).source_file@ == old(self).source_file@,
            match first_index(views(old(self).constants@), value@) {
                Some(i) => final(self).constants@ == old(self).constants@ && r == i % 256,
                None => views(final(self).constants@) == views(old(self).constants@).push(value@)
                    && r == old(self).constants@.len() % 256,
            },
    {
        let ghost cs = views(self.constants@);
        proof {
            lemma_views(self.constants@);
        }
        let mut i: usize = 0;
        while i < self.constants.len()
            invariant
                i <= self.constants.len(),
                cs == views(self.constants@),
                cs.len() == self.constants.len(),
                forall|j: int| 0 <= j < self.constants.len() ==> #[trigger] cs[j] == self.constants@[j]@,
                forall|j: int| 0 <= j < i ==> cs[j] != value@,
            decreases self.constants.len() - i,
        {
            if equals(&self.constants[i], &value) {
                proof {
                    assert(cs[i as int] == value@);
                    let k = choose|k: int|
                        0 <= k < cs.len() && cs[k] == value@ && forall|j: int|
                            0 <= j < k ==> cs[j] != value@;
                    assert(k == i) by {
                        if k < i {
                        } else if k > i {
                            assert(cs[i as int] != value@);
                        }
                    }
                }
                return (i % 256) as u8;
            }
            i = i + 1;
        }
        proof {
            if exists|k: int| 0 <= k < cs.len() && cs[k] == value@ {
                let k = choose|k: int| 0 <= k < cs.len() && cs[k] == value@;
                assert(cs[k] != value@);
            }
        }
        let n = self.constants.len();
        self.constants.push(value);
        proof {
            lemma_views(self.constants@);
            assert(views(self.constants@) =~= cs.push(value@));
        }
        (n % 256) as u8
    }

    /// Appends a pattern; gives its index modulo 256.
    pub fn write_pattern(&mut self, pattern: Pattern) -> (r: u8)
        ensures
            final(self).patterns@ == old(self).patterns@.push(pattern),
            final(self).code@ == old(self).code@,
            final(self).constants@ == old(self).constants@,
            final(self).source_locs@ == old(self).source_locs@,
            final(self).source_file@ == old(self).source_file@,
            r == old(self).patterns@.len() % 256,
    {
        let n = self.patterns.len();
        self.patterns.push(pattern);
        (n % 256) as u8
    }

    /// Points the jump at `jump_instr_offset` to the end of the code: its operand becomes the
    /// number of instructions after it.
    pub fn patch_jump(&mut self, jump_instr_offset: usize)
        requires
            jump_instr_offset < old(self).code@.len(),
        ensures
            final(self).code@.len() == old(self).code@.len(),
            forall|j: int|
                0 <= j < old(self).code@.len() && j != jump_instr_offset ==> #[trigger] final(self).code@[j]
                    == old(self).code@[j],
            final(self).code@[jump_instr_offset as int].is_wide(
                old(self).code@[jump_instr_offset as int].op,
                (old(self).code@.len() - jump_instr_offset - 1) as usize,
            ),
            final(self).constants@ == old(self).constants@,
            final(self).patterns@ == old(self).patterns@,
            final(self).source_locs@ == old(self).source_locs@,
            final(self).source_file@ == old(self).source_file@,
    {
        let offset = self.code.len() - jump_instr_offset - 1;
        let mut jump_instr = self.code[jump_instr_offset];
        jump_instr.set_wide_arg(offset);
        self.code.set(jump_instr_offset, jump_instr);
    }

    /// Appends a jump back to the instruction at offset `label`.
    pub fn write_jump_back(&mut self, label: usize, source_loc: LineCol) -> (r: usize)
        requires
            label <= old(self).code@.len(),
        ensures
            final(self).code@.len() == old(self).code@.len() + 1,
            final(self).code@.take(old(self).code@.len() as int) == old(self).code@,
            final(self).code@.last().is_wide(
                super::inst::OpCode::JumpBack,
                (old(self).code@.len() - label) as usize,
            ),
            final(self).source_locs@ == old(self).source_locs@.push(source_loc),
            final(self).constants@ == old(self).constants@,
            final(self).patterns@ == old(self).patterns@,
            final(self).source_file@ == old(self).source_file@,
            r == old(self).code@.len(),
    {
        let offset = self.code.len() - label;
        let r = self.write(Instr::jump_back(offset), source_loc);
        assert(self.code@.take(old(self).code@.len() as int) =~= old(self).code@);
        r
    }

    /// The offset that the next instruction will have.
    pub fn label(&self, _name: &str) -> (r: usize)
        ensures
            r == self.code@.len(),
    {
        self.code.len()
    }
}

/// Writing a jump, emitting code after it and patching it makes the jump land just past that
/// code: the jump's operand read back is the number of instructions emitted after it.
pub proof fn lemma_patched_jump_lands_at_end(before: Chunk, after: Chunk, at: usize)
    requires
        at < before.code@.len(),
        before.code@.len() - at - 1 < wide_limit(),
        after.code@.len() == before.code@.len(),
        after.code@[at as int].is_wide(
            before.code@[at as int].op,
            (before.code@.len() - at - 1) as usize,
        ),
    ensures
        after.code@[at as int].spec_wide_arg() + at + 1 == after.code@.len(),
{
    super::inst::lemma_wide_roundtrip(
        after.code@[at as int],
        before.code@[at as int].op,
        (before.code@.len() - at - 1) as usize,
    );
}

} // verus!

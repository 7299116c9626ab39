use vstd::prelude::*;

use crate::ast::{BinOp, UnaryOp};
use crate::debug_text::quote;
use crate::dict::{dict_from_pairs, dict_get, dict_insert};
use crate::exception::{raise, shown_view, Exception};
use crate::native_funcs::{call_native, NativeOutcome};
use crate::numbers::{digits, usize_to_string};
use crate::string_utils::{char_to_string, concat_str, to_chars};
use crate::value::{
    lemma_pair_views, lemma_views, lemma_views_add, lemma_views_push, lemma_views_subrange,
    lemma_views_update, duplicate_seq, entry, pair_views, views, Val, Value,
};

use self::closure::{closure_views, Closure};
use self::function::{Function, UpvalueSource};
use self::inst::{Instr, OpCode};
use self::semantics::{
    execute, push, set_ip, with_stack, FrameView, IterView, Run, Step, VmView, Work,
};
use self::upvalue::{upvalue_views, Upvalue, UpvalueView};

pub mod chunk;
pub mod closure;
pub mod disassembler;
pub mod flamegraph;
pub mod function;
pub mod inst;
pub mod pattern;
pub mod semantics;
pub mod stats;
pub mod upvalue;

verus! {

/// A call frame: the next instruction, where the frame's locals start on the stack, the
/// function it runs (its index in the function table) and its upvalues.
#[derive(Debug)]
pub struct Frame {
    pub ip: usize,
    pub base: usize,
    pub function: usize,
    pub upvalues: Vec<usize>,
}

impl View for Frame {
    type V = FrameView;

    open spec fn view(&self) -> FrameView {
        FrameView {
            ip: self.ip,
            base: self.base,
            function: self.function,
            upvalues: self.upvalues@,
        }
    }
}

pub open spec fn frame_views(s: Seq<Frame>) -> Seq<FrameView> {
    s.map_values(|f: Frame| f@)
}

/// An iterator that the runtime implements itself.
#[derive(Debug)]
pub enum NativeIter {
    Range { next: i64, stop: i64, step: i64, done: bool },
    Items { items: Vec<Value>, pos: usize },
}

impl View for NativeIter {
    type V = IterView;

    open spec fn view(&self) -> IterView {
        match self {
            NativeIter::Range { next, stop, step, done } => IterView::Range {
                next: *next,
                stop: *stop,
                step: *step,
                done: *done,
            },
            NativeIter::Items { items, pos } => IterView::Items {
                items: views(items@),
                pos: *pos as nat,
            },
        }
    }
}

pub open spec fn iter_views(s: Seq<NativeIter>) -> Seq<IterView> {
    s.map_values(|it: NativeIter| it@)
}

/// Outside work that the running program asks for.
#[derive(Debug)]
pub enum Outside {
    /// Write the text to standard output.
    Write(String),
    /// Show the values.
    Show(Vec<Value>),
    /// Read the file at the path, and hand its contents to `VM::push_result`.
    ReadFile(String),
}

impl View for Outside {
    type V = Work;

    open spec fn view(&self) -> Work {
        match self {
            Outside::Write(t) => Work::Write(t@),
            Outside::Show(vs) => Work::Show(views(vs@)),
            Outside::ReadFile(p) => Work::ReadFile(p@),
        }
    }
}

/// What one instruction did.
#[derive(Debug)]
pub enum StepOutcome {
    Next,
    Finished(Value),
    Outside(Outside),
}

/// How a run of instructions ended.
#[derive(Debug)]
pub enum RunOutcome {
    /// The program finished with the value.
    Finished(Value),
    /// The instructions ran and the program goes on.
    Paused,
    /// The program asks for outside work; run it again afterwards.
    Outside(Outside),
}

/// `r` is what `st` says one instruction does, the machine ending in `after`.
pub open spec fn step_matches(st: Step, r: Result<StepOutcome, Exception>, after: VmView) -> bool {
    match r {
        Ok(StepOutcome::Next) => st == Step::Next(after),
        Ok(StepOutcome::Finished(v)) => st == Step::Finished(v@),
        Ok(StepOutcome::Outside(w)) => st == Step::Outside(w@, after),
        Err(e) => (st matches Step::Raised(m, w) && e.message@ == m && shown_view(e.shown) == w)
            || st is Fault,
    }
}

/// The error for a global that is not defined, with its key.
fn global_missing(k: &Value) -> (r: String)
    ensures
        r@ == semantics::global_missing_text(k@),
{
    proof {
        reveal_strlit("Global not found: (");
        reveal_strlit(", ");
        reveal_strlit(")");
        reveal_strlit("Global not found");
    }
    match k {
        Value::Tuple(p) => {
            proof {
                lemma_views(p@);
            }
            if p.len() == 2 {
                match (&p[0], &p[1]) {
                    (Value::Symbol(a), Value::Symbol(b)) => {
                        let t = concat_str("Global not found: (", quote(a.as_str()).as_str());
                        let t = concat_str(t.as_str(), ", ");
                        let t = concat_str(t.as_str(), quote(b.as_str()).as_str());
                        concat_str(t.as_str(), ")")
                    },
                    _ => "Global not found".to_owned(),
                }
            } else {
                "Global not found".to_owned()
            }
        },
        _ => "Global not found".to_owned(),
    }
}

/// The message for a value that is not a tuple of the given arity.
fn tuple_arity_message(arity: u8) -> (r: String)
    ensures
        r@ == semantics::tuple_arity_text(arity),
{
    proof {
        reveal_strlit("expected ");
        reveal_strlit(" arity tuple, got ");
    }
    let t = concat_str("expected ", usize_to_string(arity as usize).as_str());
    concat_str(t.as_str(), " arity tuple, got ")
}

/// The error for an iterator result that is neither a pair nor nil.
fn iterator_result_error(v: &Value) -> (r: Exception)
    ensures
        r.shown is None && r.message@ == semantics::iterator_result_text(v@),
        r.source is None,
{
    proof {
        reveal_strlit("expected tuple with 2 elements or nil from iterator, got ");
    }
    Exception::new(concat_str("expected tuple with 2 elements or nil from iterator, got ", v.debug_text().as_str()))
}

/// The error of a call that gives a function the wrong number of arguments.
pub fn arity_error(arity: usize, given: usize) -> (r: Exception)
    ensures
        r.shown is None && r.message@ == "expected "@ + digits(arity as nat) + " arguments, got "@ + digits(
            given as nat,
        ),
        r.source is None,
{
    proof {
        reveal_strlit("expected ");
        reveal_strlit(" arguments, got ");
    }
    let a = concat_str("expected ", usize_to_string(arity).as_str());
    let b = concat_str(a.as_str(), " arguments, got ");
    Exception::new(concat_str(b.as_str(), usize_to_string(given).as_str()))
}

/// The bytecode virtual machine.
pub struct VM {
    functions: Vec<Function>,
    stack: Vec<Value>,
    frames: Vec<Frame>,
    globals: Vec<(Value, Value)>,
    upvalues: Vec<Upvalue>,
    open_upvalues: Vec<(usize, usize)>,
    closures: Vec<Closure>,
    iterators: Vec<NativeIter>,
    argv: Value,
}

impl View for VM {
    type V = VmView;

    closed spec fn view(&self) -> VmView {
        VmView {
            stack: views(self.stack@),
            frames: frame_views(self.frames@),
            globals: pair_views(self.globals@),
            upvalues: upvalue_views(self.upvalues@),
            open_upvalues: self.open_upvalues@,
            closures: closure_views(self.closures@),
            iterators: iter_views(self.iterators@),
            argv: self.argv@,
        }
    }
}

/// The exception for malformed bytecode.
fn fault<T>() -> (r: Result<T, Exception>)
    ensures
        r is Err,
{
    raise("malformed bytecode")
}

impl VM {
    /// The program's function table.
    pub closed spec fn program(&self) -> Seq<Function> {
        self.functions@
    }

    /// Pushes `v` onto the stack.
    fn push_value(&mut self, v: Value)
        ensures
            final(self)@ == push(old(self)@, v@),
            final(self).program() == old(self).program(),
    {
        proof {
            lemma_views_push(self.stack@, v);
        }
        self.stack.push(v);
    }

    /// Pops the top of the stack.
    fn pop_value(&mut self) -> (r: Option<Value>)
        ensures
            old(self)@.stack.len() > 0 ==> (r matches Some(v) && v@ == old(self)@.stack.last()
                && final(self)@ == with_stack(old(self)@, old(self)@.stack.drop_last())),
            old(self)@.stack.len() == 0 ==> r is None && final(self)@ == old(self)@,
            final(self).program() == old(self).program(),
    {
        proof {
            lemma_views(self.stack@);
            if self.stack@.len() > 0 {
                lemma_views_subrange(self.stack@, 0, self.stack@.len() - 1);
            }
        }
        self.stack.pop()
    }

    /// Replaces the top of the stack by `v`.
    fn replace_top(&mut self, v: Value)
        requires
            old(self)@.stack.len() > 0,
        ensures
            final(self)@ == with_stack(old(self)@, old(self)@.stack.drop_last().push(v@)),
            final(self).program() == old(self).program(),
    {
        let _ = self.pop_value();
        self.push_value(v);
    }

    /// Sets the current frame's instruction pointer.
    fn set_ip(&mut self, ip: usize)
        requires
            old(self)@.frames.len() > 0,
        ensures
            final(self)@ == set_ip(old(self)@, ip),
            final(self).program() == old(self).program(),
    {
        let ghost before = self.frames@;
        let mut fr = self.frames.pop().unwrap();
        fr.ip = ip;
        self.frames.push(fr);
        assert(frame_views(self.frames@) =~= frame_views(before).update(
            before.len() - 1,
            FrameView { ip, ..frame_views(before).last() },
        ));
    }
}

/// `r` and `after` are what `execute` says instruction `instr` of function `f` does from
/// `before`.
pub open spec fn executed(
    fs: Seq<Function>,
    before: VmView,
    instr: Instr,
    f: int,
    r: Result<StepOutcome, Exception>,
    after: VmView,
) -> bool {
    step_matches(execute(fs, before, instr, f), r, after)
}

impl VM {
    /// The ready-to-run state of instruction handlers.
    pub closed spec fn ready(&self, f: usize) -> bool {
        &&& f < self.functions@.len()
        &&& self.frames@.len() > 0
    }

    /// The value of symbol constant `k` of function `f`.
    fn constant_symbol(&self, f: usize, k: u8) -> (r: Option<String>)
        requires
            f < self.program().len(),
        ensures
            match r {
                Some(name) => semantics::constant_symbol(self.program(), f as int, k as int)
                    == Some(name@),
                None => semantics::constant_symbol(self.program(), f as int, k as int) is None,
            },
    {
        let cs = &self.functions[f].chunk.constants;
        if (k as usize) < cs.len() {
            match &cs[k as usize] {
                Value::Symbol(name) => Some(name.clone()),
                _ => None,
            }
        } else {
            None
        }
    }

    /// The key of the global named by the operands of `instr`.
    fn operand_key(&self, f: usize, instr: Instr) -> (r: Option<Value>)
        requires
            f < self.program().len(),
        ensures
            match r {
                Some(k) => semantics::operand_key(self.program(), f as int, instr) == Some(k@),
                None => semantics::operand_key(self.program(), f as int, instr) is None,
            },
    {
        match (self.constant_symbol(f, instr.arg0), self.constant_symbol(f, instr.arg1)) {
            (Some(m), Some(n)) => {
                let key = vec![Value::Symbol(m), Value::Symbol(n)];
                proof {
                    lemma_views(key@);
                    assert(views(key@) =~= seq![Val::Symbol(m@), Val::Symbol(n@)]);
                }
                Some(Value::Tuple(key))
            },
            _ => None,
        }
    }

    /// The symbol of module `module` (a symbol constant) and name `name`.
    pub fn read_symbol(&self, index: u8) -> (r: Option<String>)
        requires
            self@.frames.len() > 0,
            self@.frames.last().function < self.program().len(),
        ensures
            match r {
                Some(name) => semantics::constant_symbol(
                    self.program(),
                    self@.frames.last().function as int,
                    index as int,
                ) == Some(name@),
                None => semantics::constant_symbol(
                    self.program(),
                    self@.frames.last().function as int,
                    index as int,
                ) is None,
            },
    {
        let f = self.frames[self.frames.len() - 1].function;
        self.constant_symbol(f, index)
    }

    fn exec_vm_arg(&mut self, instr: Instr, f: usize) -> (r: Result<StepOutcome, Exception>)
        requires
            old(self).ready(f),
            instr.op == OpCode::VmArg,
        ensures
            final(self).program() == old(self).program(),
            executed(old(self).program(), old(self)@, instr, f as int, r, final(self)@),
    {
        if instr.arg0 == 1 {
            let a = self.argv.duplicate();
            self.push_value(a);
            Ok(StepOutcome::Next)
        } else {
            let n = usize_to_string(instr.arg0 as usize);
            Err(Exception::new(concat_str("Unknown VmArg: ", n.as_str())))
        }
    }

    fn exec_constant(&mut self, instr: Instr, f: usize) -> (r: Result<StepOutcome, Exception>)
        requires
            old(self).ready(f),
            instr.op == OpCode::Constant,
        ensures
            final(self).program() == old(self).program(),
            executed(old(self).program(), old(self)@, instr, f as int, r, final(self)@),
    {
        let k = instr.arg0 as usize;
        if k < self.functions[f].chunk.constants.len() {
            let v = self.functions[f].chunk.constants[k].duplicate();
            self.push_value(v);
            Ok(StepOutcome::Next)
        } else {
            fault()
        }
    }

    fn exec_get_global(&mut self, instr: Instr, f: usize) -> (r: Result<StepOutcome, Exception>)
        requires
            old(self).ready(f),
            instr.op == OpCode::GetGlobal,
        ensures
            final(self).program() == old(self).program(),
            executed(old(self).program(), old(self)@, instr, f as int, r, final(self)@),
    {
        match self.operand_key(f, instr) {
            Some(k) => match dict_get(&self.globals, &k) {
                Some(v) => {
                    let v = v.duplicate();
                    self.push_value(v);
                    Ok(StepOutcome::Next)
                },
                None => Err(Exception::new(global_missing(&k))),
            },
            None => fault(),
        }
    }

    fn exec_set_global(&mut self, instr: Instr, f: usize) -> (r: Result<StepOutcome, Exception>)
        requires
            old(self).ready(f),
            instr.op == OpCode::SetGlobal,
        ensures
            final(self).program() == old(self).program(),
            executed(old(self).program(), old(self)@, instr, f as int, r, final(self)@),
    {
        match self.operand_key(f, instr) {
            Some(k) => match self.pop_value() {
                Some(v) => {
                    dict_insert(&mut self.globals, k, v);
                    Ok(StepOutcome::Next)
                },
                None => fault(),
            },
            None => fault(),
        }
    }

    fn exec_global_is_defined(&mut self, instr: Instr, f: usize) -> (r: Result<
        StepOutcome,
        Exception,
    >)
        requires
            old(self).ready(f),
            instr.op == OpCode::GlobalIsDefined,
        ensures
            final(self).program() == old(self).program(),
            executed(old(self).program(), old(self)@, instr, f as int, r, final(self)@),
    {
        match self.operand_key(f, instr) {
            Some(k) => {
                let defined = dict_get(&self.globals, &k).is_some();
                self.push_value(Value::Bool(defined));
                Ok(StepOutcome::Next)
            },
            None => fault(),
        }
    }

    /// The upvalue behind upvalue `idx` of the current frame.
    fn frame_upvalue(&self, idx: u8) -> (r: Option<usize>)
        requires
            self@.frames.len() > 0,
        ensures
            r == semantics::frame_upvalue(self@, idx as int),
            r matches Some(u) ==> u < self.upvalues@.len(),
    {
        let fr = &self.frames[self.frames.len() - 1];
        let i = idx as usize;
        if i < fr.upvalues.len() && fr.upvalues[i] < self.upvalues.len() {
            Some(fr.upvalues[i])
        } else {
            None
        }
    }

    /// The value of upvalue `u`.
    fn upvalue_value(&self, u: usize) -> (r: Option<Value>)
        requires
            u < self.upvalues@.len(),
        ensures
            match r {
                Some(v) => semantics::upvalue_value(self@, u) == Some(v@),
                None => semantics::upvalue_value(self@, u) is None,
            },
    {
        proof {
            lemma_views(self.stack@);
        }
        match &self.upvalues[u] {
            Upvalue::Open(i) => if *i < self.stack.len() {
                Some(self.stack[*i].duplicate())
            } else {
                None
            },
            Upvalue::Closed(v) => Some(v.duplicate()),
        }
    }

    /// Stores `v` into upvalue `u`.
    fn store_upvalue(&mut self, u: usize, v: Value) -> (r: bool)
        requires
            u < old(self).upvalues@.len(),
        ensures
            final(self).program() == old(self).program(),
            r ==> semantics::set_upvalue(old(self)@, u, v@) == Some(final(self)@),
            !r ==> semantics::set_upvalue(old(self)@, u, v@) is None,
    {
        let open = match &self.upvalues[u] {
            Upvalue::Open(i) => Some(*i),
            Upvalue::Closed(_) => None,
        };
        match open {
            Some(i) => {
                proof {
                    lemma_views(self.stack@);
                }
                if i < self.stack.len() {
                    proof {
                        lemma_views_update(self.stack@, i as int, v);
                    }
                    self.stack.set(i, v);
                    true
                } else {
                    false
                }
            },
            None => {
                let ghost x = v@;
                let ghost before = self.upvalues@;
                self.upvalues.set(u, Upvalue::Closed(v));
                assert(upvalue_views(self.upvalues@) =~= upvalue_views(before).update(
                    u as int,
                    upvalue::UpvalueView::Closed(x),
                ));
                true
            },
        }
    }

    fn exec_get_upvalue(&mut self, instr: Instr, f: usize) -> (r: Result<StepOutcome, Exception>)
        requires
            old(self).ready(f),
            instr.op == OpCode::GetUpvalue,
        ensures
            final(self).program() == old(self).program(),
            executed(old(self).program(), old(self)@, instr, f as int, r, final(self)@),
    {
        match self.frame_upvalue(instr.arg0) {
            Some(u) => match self.upvalue_value(u) {
                Some(v) => {
                    self.push_value(v);
                    Ok(StepOutcome::Next)
                },
                None => fault(),
            },
            None => fault(),
        }
    }

    fn exec_set_upvalue(&mut self, instr: Instr, f: usize) -> (r: Result<StepOutcome, Exception>)
        requires
            old(self).ready(f),
            instr.op == OpCode::SetUpvalue,
        ensures
            final(self).program() == old(self).program(),
            executed(old(self).program(), old(self)@, instr, f as int, r, final(self)@),
    {
        proof {
            lemma_views(self.stack@);
        }
        let n = self.stack.len();
        if n == 0 {
            return fault();
        }
        let v = self.stack[n - 1].duplicate();
        match self.frame_upvalue(instr.arg0) {
            Some(u) => if self.store_upvalue(u, v) {
                Ok(StepOutcome::Next)
            } else {
                fault()
            },
            None => fault(),
        }
    }

    fn exec_get_local(&mut self, instr: Instr, f: usize) -> (r: Result<StepOutcome, Exception>)
        requires
            old(self).ready(f),
            instr.op == OpCode::GetLocal,
        ensures
            final(self).program() == old(self).program(),
            executed(old(self).program(), old(self)@, instr, f as int, r, final(self)@),
    {
        proof {
            lemma_views(self.stack@);
        }
        let base = self.frames[self.frames.len() - 1].base;
        let a = instr.arg0 as usize;
        let n = self.stack.len();
        if a < n && base < n - a {
            let v = self.stack[base + a].duplicate();
            self.push_value(v);
            Ok(StepOutcome::Next)
        } else {
            fault()
        }
    }

    #[verifier::rlimit(40)]
    fn exec_set_local(&mut self, instr: Instr, f: usize) -> (r: Result<StepOutcome, Exception>)
        requires
            old(self).ready(f),
            instr.op == OpCode::SetLocal,
        ensures
            final(self).program() == old(self).program(),
            executed(old(self).program(), old(self)@, instr, f as int, r, final(self)@),
    {
        proof {
            lemma_views(self.stack@);
        }
        let base = self.frames[self.frames.len() - 1].base;
        let a = instr.arg0 as usize;
        let n = self.stack.len();
        if n >= 1 && a < n - 1 && base < n - 1 - a {
            let v = self.pop_value().unwrap();
            proof {
                lemma_views(self.stack@);
                lemma_views_update(self.stack@, base + a, v);
            }
            self.stack.set(base + a, v);
            Ok(StepOutcome::Next)
        } else {
            fault()
        }
    }

    fn exec_pop(&mut self, instr: Instr, f: usize) -> (r: Result<StepOutcome, Exception>)
        requires
            old(self).ready(f),
            instr.op == OpCode::Pop,
        ensures
            final(self).program() == old(self).program(),
            executed(old(self).program(), old(self)@, instr, f as int, r, final(self)@),
    {
        match self.pop_value() {
            Some(_) => Ok(StepOutcome::Next),
            None => fault(),
        }
    }

    fn exec_dup(&mut self, instr: Instr, f: usize) -> (r: Result<StepOutcome, Exception>)
        requires
            old(self).ready(f),
            instr.op == OpCode::Dup,
        ensures
            final(self).program() == old(self).program(),
            executed(old(self).program(), old(self)@, instr, f as int, r, final(self)@),
    {
        proof {
            lemma_views(self.stack@);
        }
        let n = self.stack.len();
        let a = instr.arg0 as usize;
        if a < n {
            let v = self.stack[n - 1 - a].duplicate();
            self.push_value(v);
            Ok(StepOutcome::Next)
        } else {
            fault()
        }
    }

    fn exec_binary(&mut self, instr: Instr, f: usize, op: BinOp) -> (r: Result<StepOutcome, Exception>)
        requires
            old(self).ready(f),
            op != BinOp::LogicalOr,
            op != BinOp::LogicalAnd,
        ensures
            final(self).program() == old(self).program(),
            step_matches(semantics::binary(old(self)@, op), r, final(self)@),
    {
        let ghost s0 = self@;
        let rhs = match self.pop_value() {
            Some(v) => v,
            None => {
                return fault();
            },
        };
        let lhs = match self.pop_value() {
            Some(v) => v,
            None => {
                return fault();
            },
        };
        match Value::bin_op(op, &lhs, &rhs) {
            Ok(v) => {
                self.push_value(v);
                assert(s0.stack.drop_last().drop_last() =~= s0.stack.take(s0.stack.len() - 2));
                Ok(StepOutcome::Next)
            },
            Err(e) => Err(e),
        }
    }

    fn exec_unary(&mut self, instr: Instr, f: usize, op: UnaryOp) -> (r: Result<StepOutcome, Exception>)
        requires
            old(self).ready(f),
        ensures
            final(self).program() == old(self).program(),
            step_matches(semantics::unary(old(self)@, op), r, final(self)@),
    {
        let rhs = match self.pop_value() {
            Some(v) => v,
            None => {
                return fault();
            },
        };
        match Value::unary_op(op, &rhs) {
            Ok(v) => {
                self.push_value(v);
                Ok(StepOutcome::Next)
            },
            Err(e) => Err(e),
        }
    }

    /// Moves the current frame `offset` instructions forward.
    fn jump_by(&mut self, offset: usize) -> (r: Result<StepOutcome, Exception>)
        requires
            old(self)@.frames.len() > 0,
        ensures
            final(self).program() == old(self).program(),
            step_matches(semantics::jump(old(self)@, offset as int), r, final(self)@),
    {
        let ip = self.frames[self.frames.len() - 1].ip;
        if ip <= usize::MAX - offset {
            self.set_ip(ip + offset);
            Ok(StepOutcome::Next)
        } else {
            fault()
        }
    }

    fn exec_branch(&mut self, instr: Instr, f: usize) -> (r: Result<StepOutcome, Exception>)
        requires
            old(self).ready(f),
            instr.op == OpCode::BranchIfTrue || instr.op == OpCode::BranchIfFalse,
        ensures
            final(self).program() == old(self).program(),
            executed(old(self).program(), old(self)@, instr, f as int, r, final(self)@),
    {
        proof {
            lemma_views(self.stack@);
        }
        let n = self.stack.len();
        if n == 0 {
            return fault();
        }
        let t = self.stack[n - 1].truthy();
        let wanted = match instr.op {
            OpCode::BranchIfTrue => true,
            _ => false,
        };
        if t == wanted {
            self.jump_by(instr.wide_arg())
        } else {
            Ok(StepOutcome::Next)
        }
    }

    fn exec_jump(&mut self, instr: Instr, f: usize) -> (r: Result<StepOutcome, Exception>)
        requires
            old(self).ready(f),
            instr.op == OpCode::Jump || instr.op == OpCode::JumpBack,
        ensures
            final(self).program() == old(self).program(),
            executed(old(self).program(), old(self)@, instr, f as int, r, final(self)@),
    {
        let offset = instr.wide_arg();
        match instr.op {
            OpCode::Jump => self.jump_by(offset),
            _ => {
                let ip = self.frames[self.frames.len() - 1].ip;
                if offset < ip {
                    self.set_ip(ip - offset - 1);
                    Ok(StepOutcome::Next)
                } else {
                    fault()
                }
            },
        }
    }

    fn exec_make_sequence(&mut self, instr: Instr, f: usize) -> (r: Result<StepOutcome, Exception>)
        requires
            old(self).ready(f),
            instr.op == OpCode::MakeList || instr.op == OpCode::MakeTuple,
        ensures
            final(self).program() == old(self).program(),
            executed(old(self).program(), old(self)@, instr, f as int, r, final(self)@),
    {
        let ghost s0 = self@;
        let k = instr.wide_arg();
        let n = self.stack.len();
        proof {
            lemma_views(self.stack@);
        }
        if k > n {
            return fault();
        }
        let ghost before = self.stack@;
        let items = self.stack.split_off(n - k);
        proof {
            lemma_views(before);
            lemma_views_subrange(before, 0, n - k);
            lemma_views_subrange(before, (n - k) as int, n as int);
            assert(views(before).subrange(0, n - k) =~= views(before).take(n - k));
            assert(views(before).subrange((n - k) as int, n as int) =~= views(before).skip(
                n - k,
            ));
            assert(self@ == with_stack(s0, s0.stack.take(n - k)));
            assert(views(items@) == s0.stack.skip(n - k));
        }
        let v = match instr.op {
            OpCode::MakeList => Value::List(items),
            _ => Value::Tuple(items),
        };
        self.push_value(v);
        proof {
            let expected = if instr.op == OpCode::MakeList {
                Val::List(s0.stack.skip(n - k))
            } else {
                Val::Tuple(s0.stack.skip(n - k))
            };
            assert(v@ == expected);
            assert(self@ == with_stack(s0, s0.stack.take(n - k).push(expected)));
        }
        Ok(StepOutcome::Next)
    }
}

/// Once closing fails on a prefix of the open upvalues, it fails on all of them.
proof fn lemma_close_all_none(
    open: Seq<(usize, usize)>,
    stack: Seq<Val>,
    ups: Seq<UpvalueView>,
    new_len: int,
    k: int,
)
    requires
        0 <= k <= open.len(),
        semantics::close_all(open.take(k), stack, ups, new_len) is None,
    ensures
        semantics::close_all(open, stack, ups, new_len) is None,
    decreases open.len() - k,
{
    if k == open.len() {
        assert(open.take(k) =~= open);
    } else {
        assert(open.take(k + 1).drop_last() =~= open.take(k));
        lemma_close_all_none(open, stack, ups, new_len, k + 1);
    }
}

impl VM {
    /// Closes the upvalues of the stack slots at and above `new_len`.
    fn close_upvalues(&mut self, new_len: usize) -> (r: bool)
        ensures
            final(self).program() == old(self).program(),
            r ==> semantics::close_upvalues(old(self)@, new_len as int) == Some(final(self)@),
            !r ==> semantics::close_upvalues(old(self)@, new_len as int) is None,
    {
        let ghost s0 = self@;
        proof {
            lemma_views(self.stack@);
        }
        let n = self.open_upvalues.len();
        let mut i: usize = 0;
        assert(s0.open_upvalues.take(0).len() == 0);
        while i < n
            invariant
                n == self.open_upvalues@.len(),
                i <= n,
                self.functions@ == old(self).functions@,
                s0 == old(self)@,
                self@ == (VmView { upvalues: self@.upvalues, ..s0 }),
                views(self.stack@).len() == self.stack@.len(),
                forall|j: int| 0 <= j < self.stack@.len() ==> #[trigger] views(self.stack@)[j]
                    == self.stack@[j]@,
                semantics::close_all(s0.open_upvalues.take(i as int), s0.stack, s0.upvalues, new_len as int)
                    == Some(self@.upvalues),
            decreases n - i,
        {
            let (si, u) = self.open_upvalues[i];
            proof {
                assert(s0.open_upvalues.take(i + 1).drop_last() =~= s0.open_upvalues.take(i as int));
                assert(s0.open_upvalues.take(i + 1).last() == (si, u));
            }
            if si >= new_len {
                if si < self.stack.len() && u < self.upvalues.len() {
                    let v = self.stack[si].duplicate();
                    let ghost x = v@;
                    let ghost before = self.upvalues@;
                    self.upvalues.set(u, Upvalue::Closed(v));
                    assert(upvalue_views(self.upvalues@) =~= upvalue_views(before).update(
                        u as int,
                        UpvalueView::Closed(x),
                    ));
                } else {
                    proof {
                        let pre = s0.open_upvalues.take(i as int);
                        let u1 = semantics::close_all(pre, s0.stack, s0.upvalues, new_len as int)->0;
                        assert(u1 == self@.upvalues);
                        assert(u1.len() == self.upvalues@.len());
                        assert(s0.stack.len() == self.stack@.len());
                        assert(semantics::close_one((si, u), s0.stack, u1, new_len as int) is None);
                        assert(semantics::close_all(
                            s0.open_upvalues.take(i + 1),
                            s0.stack,
                            s0.upvalues,
                            new_len as int,
                        ) is None);
                        lemma_close_all_none(
                            s0.open_upvalues,
                            s0.stack,
                            s0.upvalues,
                            new_len as int,
                            i + 1,
                        );
                    }
                    return false;
                }
            }
            i = i + 1;
        }
        assert(s0.open_upvalues.take(n as int) =~= s0.open_upvalues);
        let mut kept: Vec<(usize, usize)> = Vec::new();
        let mut j: usize = 0;
        assert(s0.open_upvalues.take(0).len() == 0);
        while j < n
            invariant
                n == self.open_upvalues@.len(),
                j <= n,
                self.open_upvalues@ == s0.open_upvalues,
                kept@ == semantics::keep_below(s0.open_upvalues.take(j as int), new_len as int),
            decreases n - j,
        {
            let p = self.open_upvalues[j];
            proof {
                assert(s0.open_upvalues.take(j + 1).drop_last() =~= s0.open_upvalues.take(j as int));
                assert(s0.open_upvalues.take(j + 1).last() == p);
            }
            if p.0 < new_len {
                kept.push(p);
            }
            j = j + 1;
        }
        self.open_upvalues = kept;
        true
    }

    /// Closes the upvalues at and above `new_len` and drops the stack down to `new_len`.
    fn unwind_to(&mut self, new_len: usize) -> (r: bool)
        ensures
            final(self).program() == old(self).program(),
            r ==> semantics::unwind_to(old(self)@, new_len as int) == Some(final(self)@),
            !r ==> semantics::unwind_to(old(self)@, new_len as int) is None,
    {
        if !self.close_upvalues(new_len) {
            return false;
        }
        let ghost s1 = self@;
        let ghost before = self.stack@;
        proof {
            lemma_views(before);
        }
        self.stack.truncate(new_len);
        proof {
            if new_len < before.len() {
                lemma_views_subrange(before, 0, new_len as int);
                assert(views(before).subrange(0, new_len as int) =~= views(before).take(
                    new_len as int,
                ));
                assert(views(self.stack@) == s1.stack.take(new_len as int));
            } else {
                assert(self.stack@ == before);
            }
        }
        assert(self@ == with_stack(
            s1,
            if new_len < s1.stack.len() {
                s1.stack.take(new_len as int)
            } else {
                s1.stack
            },
        ));
        true
    }

    fn exec_return(&mut self, instr: Instr, f: usize) -> (r: Result<StepOutcome, Exception>)
        requires
            old(self).ready(f),
            instr.op == OpCode::Return,
        ensures
            final(self).program() == old(self).program(),
            executed(old(self).program(), old(self)@, instr, f as int, r, final(self)@),
    {
        let ghost s0 = self@;
        let res = match self.pop_value() {
            Some(v) => v,
            None => {
                return fault();
            },
        };
        if self.frames.len() == 1 {
            return Ok(StepOutcome::Finished(res));
        }
        let ghost before = self.frames@;
        let fr = self.frames.pop().unwrap();
        assert(frame_views(self.frames@) =~= frame_views(before).drop_last());
        assert(self@ == (VmView { stack: s0.stack.drop_last(), frames: s0.frames.drop_last(), ..s0 }));
        if !self.unwind_to(fr.base) {
            return fault();
        }
        self.push_value(res);
        Ok(StepOutcome::Next)
    }

    fn exec_pop_locals(&mut self, instr: Instr, f: usize) -> (r: Result<StepOutcome, Exception>)
        requires
            old(self).ready(f),
            instr.op == OpCode::PopLocals,
        ensures
            final(self).program() == old(self).program(),
            executed(old(self).program(), old(self)@, instr, f as int, r, final(self)@),
    {
        let k = instr.wide_arg();
        proof {
            lemma_views(self.stack@);
        }
        let n = self.stack.len();
        if n == 0 || k > n - 1 {
            return fault();
        }
        let res = self.pop_value().unwrap();
        if !self.unwind_to(n - 1 - k) {
            return fault();
        }
        self.push_value(res);
        Ok(StepOutcome::Next)
    }
}

/// The tuple `(:some, v)` that an iterator gives for each item.
fn some_item(v: Value) -> (r: Value)
    ensures
        r@ == semantics::some_item(v@),
{
    proof {
        reveal_strlit("some");
    }
    let items = vec![Value::Symbol("some".to_owned()), v];
    proof {
        lemma_views(items@);
        assert(views(items@) =~= seq![Val::Symbol("some"@), items@[1]@]);
    }
    Value::Tuple(items)
}

/// Gives the next item of an iterator, and advances it.
fn advance(it: &mut NativeIter) -> (r: Value)
    ensures
        (r@, final(it)@) == semantics::iter_next(old(it)@),
{
    match it {
        NativeIter::Range { next, stop, step, done } => {
            if !*done && *next < *stop {
                let cur = *next;
                match cur.checked_add(*step) {
                    Some(after) => {
                        *next = after;
                    },
                    None => {
                        *done = true;
                    },
                }
                some_item(Value::Integer(cur))
            } else {
                Value::Nil
            }
        },
        NativeIter::Items { items, pos } => {
            proof {
                lemma_views(items@);
            }
            if *pos < items.len() {
                let v = items[*pos].duplicate();
                *pos = *pos + 1;
                some_item(v)
            } else {
                Value::Nil
            }
        },
    }
}

impl Value {
    /// The items that iterating over the value gives: the elements of a list, the
    /// `(key, value)` entries of a dictionary, the characters of a string (each a string).
    pub fn iter(&self) -> (r: Option<Vec<Value>>)
        ensures
            match r {
                Some(items) => semantics::iter_items(self@) == Some(views(items@)),
                None => semantics::iter_items(self@) is None,
            },
    {
        iter_items(self)
    }

    /// The items that iterating over the value gives (see `iter`), consuming it.
    pub fn into_iter(self) -> (r: Option<Vec<Value>>)
        ensures
            match r {
                Some(items) => semantics::iter_items(self@) == Some(views(items@)),
                None => semantics::iter_items(self@) is None,
            },
    {
        match self {
            Value::List(items) => {
                proof {
                    lemma_views(items@);
                }
                Some(items)
            },
            other => iter_items(&other),
        }
    }
}

/// The items that iterating over `v` gives, if it can be iterated over.
fn iter_items(v: &Value) -> (r: Option<Vec<Value>>)
    ensures
        match r {
            Some(items) => semantics::iter_items(v@) == Some(views(items@)),
            None => semantics::iter_items(v@) is None,
        },
{
    match v {
        Value::List(l) => Some(duplicate_seq(l)),
        Value::Dict(es) => {
            let mut items: Vec<Value> = Vec::new();
            let mut i: usize = 0;
            proof {
                lemma_pair_views(es@);
            }
            while i < es.len()
                invariant
                    i <= es.len(),
                    items@.len() == i,
                    pair_views(es@).len() == es@.len(),
                    forall|j: int| 0 <= j < es@.len() ==> #[trigger] pair_views(es@)[j] == entry(
                        es@[j].0@,
                        es@[j].1@,
                    ),
                    forall|j: int| 0 <= j < i ==> #[trigger] items@[j]@ == pair_views(es@)[j],
                decreases es.len() - i,
            {
                let pair = vec![es[i].0.duplicate(), es[i].1.duplicate()];
                proof {
                    lemma_views(pair@);
                    assert(views(pair@) =~= seq![es@[i as int].0@, es@[i as int].1@]);
                }
                items.push(Value::Tuple(pair));
                i = i + 1;
            }
            proof {
                lemma_views(items@);
                assert(views(items@) =~= pair_views(es@));
            }
            Some(items)
        },
        Value::String(text) => {
            let chars = to_chars(text.as_str());
            let mut items: Vec<Value> = Vec::new();
            let mut i: usize = 0;
            while i < chars.len()
                invariant
                    i <= chars.len(),
                    chars@ == text@,
                    items@.len() == i,
                    forall|j: int| 0 <= j < i ==> #[trigger] items@[j]@ == Val::Str(seq![chars@[j]]),
                decreases chars.len() - i,
            {
                items.push(Value::String(char_to_string(chars[i])));
                i = i + 1;
            }
            proof {
                lemma_views(items@);
                assert(views(items@) =~= Seq::new(text@.len(), |k: int| Val::Str(seq![text@[k]])));
            }
            Some(items)
        },
        _ => None,
    }
}

impl VM {
    /// Starts a new native iterator and pushes it.
    fn push_iterator(&mut self, it: NativeIter)
        ensures
            final(self).program() == old(self).program(),
            final(self)@ == semantics::new_iterator(old(self)@, it@),
    {
        let k = self.iterators.len();
        let ghost x = it@;
        let ghost before = self.iterators@;
        self.iterators.push(it);
        assert(iter_views(self.iterators@) =~= iter_views(before).push(x));
        self.push_value(Value::NativeClosure(k));
    }

    /// Enters function `f` with the given upvalues and arguments.
    fn enter(&mut self, f: usize, upvalues: Vec<usize>, args: Vec<Value>)
        ensures
            final(self).program() == old(self).program(),
            final(self)@ == semantics::enter(old(self)@, f, upvalues@, views(args@)),
    {
        let ghost s0 = self@;
        proof {
            lemma_views(self.stack@);
        }
        let base = self.stack.len();
        let ghost fb = self.frames@;
        let fr = Frame { ip: 0, base, function: f, upvalues };
        let ghost fv = fr@;
        self.frames.push(fr);
        assert(frame_views(self.frames@) =~= frame_views(fb).push(fv));
        let ghost sb = self.stack@;
        let ghost av = args@;
        let mut args = args;
        proof {
            lemma_views_add(sb, args@);
        }
        self.stack.append(&mut args);
        assert(self@ == semantics::enter(s0, f, fv.upvalues, views(av)));
    }

    /// Calls `callee` with `args`.
    fn call(&mut self, callee: Value, args: Vec<Value>) -> (r: Result<StepOutcome, Exception>)
        ensures
            final(self).program() == old(self).program(),
            r is Err ==> final(self)@ == old(self)@,
            step_matches(
                semantics::call(old(self).program(), old(self)@, callee@, views(args@)),
                r,
                final(self)@,
            ),
    {
        proof {
            lemma_views(args@);
        }
        match callee {
            Value::NativeFunc(nf) => match call_native(nf, &args) {
                Err(e) => Err(e),
                Ok(NativeOutcome::Return(v)) => {
                    self.push_value(v);
                    Ok(StepOutcome::Next)
                },
                Ok(NativeOutcome::Write(text)) => {
                    self.push_value(Value::Nil);
                    Ok(StepOutcome::Outside(Outside::Write(text)))
                },
                Ok(NativeOutcome::Inspect(values)) => {
                    proof {
                        lemma_views(values@);
                    }
                    let first = if values.len() > 0 {
                        values[0].duplicate()
                    } else {
                        Value::Nil
                    };
                    self.push_value(first);
                    Ok(StepOutcome::Outside(Outside::Show(values)))
                },
                Ok(NativeOutcome::ReadFile(path)) => Ok(StepOutcome::Outside(Outside::ReadFile(path))),
                Ok(NativeOutcome::NewRangeIter(start, stop, step)) => {
                    self.push_iterator(NativeIter::Range { next: start, stop, step, done: false });
                    Ok(StepOutcome::Next)
                },
            },
            Value::NativeClosure(i) => {
                if i >= self.iterators.len() {
                    return fault();
                }
                if args.len() != 0 {
                    return raise("expected zero args to iterator function");
                }
                let ghost before = self.iterators@;
                let item = advance(&mut self.iterators[i]);
                assert(iter_views(self.iterators@) =~= iter_views(before).update(
                    i as int,
                    self.iterators@[i as int]@,
                ));
                self.push_value(item);
                Ok(StepOutcome::Next)
            },
            Value::Function(i) => {
                if i >= self.functions.len() {
                    return fault();
                }
                if args.len() != self.functions[i].arity {
                    return Err(arity_error(self.functions[i].arity, args.len()));
                }
                self.enter(i, Vec::new(), args);
                Ok(StepOutcome::Next)
            },
            Value::Closure(i) => {
                if i >= self.closures.len() || self.closures[i].function >= self.functions.len() {
                    return fault();
                }
                let f = self.closures[i].function;
                if args.len() != self.functions[f].arity {
                    return Err(arity_error(self.functions[f].arity, args.len()));
                }
                let ups = self.closures[i].upvalues.clone();
                self.enter(f, ups, args);
                Ok(StepOutcome::Next)
            },
            _ => Err(Exception::showing("cannot call a non-function: ", callee)),
        }
    }

    /// Pops the arguments and the callee of a call with `n` arguments.
    fn call_operands(&mut self, n: usize) -> (r: Option<(Value, Vec<Value>)>)
        ensures
            final(self).program() == old(self).program(),
            match r {
                Some((callee, args)) => semantics::call_operands(old(self)@, n as int) == Some(
                    (final(self)@, callee@, views(args@)),
                ),
                None => semantics::call_operands(old(self)@, n as int) is None,
            },
    {
        let ghost s0 = self@;
        proof {
            lemma_views(self.stack@);
        }
        let len = self.stack.len();
        if n >= len {
            return None;
        }
        let ghost before = self.stack@;
        let args = self.stack.split_off(len - n);
        let callee = self.stack.pop().unwrap();
        proof {
            lemma_views_subrange(before, (len - n) as int, len as int);
            lemma_views_subrange(before, 0, (len - n - 1) as int);
            assert(self.stack@ =~= before.subrange(0, (len - n - 1) as int));
            assert(views(before).subrange(0, (len - n - 1) as int) =~= views(before).take(
                (len - n - 1) as int,
            ));
            assert(self@ == with_stack(s0, s0.stack.take(len - n - 1)));
        }
        Some((callee, args))
    }

    fn exec_call(&mut self, instr: Instr, f: usize) -> (r: Result<StepOutcome, Exception>)
        requires
            old(self).ready(f),
            instr.op == OpCode::Call,
        ensures
            final(self).program() == old(self).program(),
            executed(old(self).program(), old(self)@, instr, f as int, r, final(self)@),
    {
        match self.call_operands(instr.arg0 as usize) {
            Some((callee, args)) => self.call(callee, args),
            None => fault(),
        }
    }

    fn exec_tail_call(&mut self, instr: Instr, f: usize) -> (r: Result<StepOutcome, Exception>)
        requires
            old(self).ready(f),
            instr.op == OpCode::TailCall,
        ensures
            final(self).program() == old(self).program(),
            executed(old(self).program(), old(self)@, instr, f as int, r, final(self)@),
    {
        match self.call_operands(instr.arg0 as usize) {
            Some((callee, args)) => {
                let ghost s1 = self@;
                let ghost before = self.frames@;
                let fr = self.frames.pop().unwrap();
                assert(frame_views(self.frames@) =~= frame_views(before).drop_last());
                assert(self@ == (VmView { frames: s1.frames.drop_last(), ..s1 }));
                if !self.unwind_to(fr.base) {
                    return fault();
                }
                self.call(callee, args)
            },
            None => fault(),
        }
    }

    fn exec_call_iter(&mut self, instr: Instr, f: usize) -> (r: Result<StepOutcome, Exception>)
        requires
            old(self).ready(f),
            instr.op == OpCode::CallIter,
        ensures
            final(self).program() == old(self).program(),
            executed(old(self).program(), old(self)@, instr, f as int, r, final(self)@),
    {
        proof {
            lemma_views(self.stack@);
        }
        let n = self.stack.len();
        if n == 0 {
            return fault();
        }
        let callee = self.stack[n - 1].duplicate();
        let args: Vec<Value> = Vec::new();
        proof {
            lemma_views(args@);
            assert(views(args@) =~= Seq::<Val>::empty());
        }
        self.call(callee, args)
    }
}

/// The first recorded upvalue open on stack slot `i` is found by a scan from the front.
proof fn lemma_find_open(open: Seq<(usize, usize)>, i: int, j: int)
    requires
        0 <= j <= open.len(),
        forall|k: int| 0 <= k < j ==> (#[trigger] open[k]).0 != i,
        j < open.len() ==> open[j].0 == i,
    ensures
        semantics::find_open(open, i) == if j < open.len() {
            Some(open[j].1)
        } else {
            None
        },
    decreases j,
{
    if j > 0 {
        let t = open.drop_first();
        assert forall|k: int| 0 <= k < j - 1 implies (#[trigger] t[k]).0 != i by {
            assert(t[k] == open[k + 1]);
        }
        lemma_find_open(t, i, j - 1);
        assert(open[0].0 != i);
        if j < open.len() {
            assert(t[j - 1] == open[j]);
        }
    }
}

/// Once capturing fails on a prefix of the sources, it fails on all of them.
proof fn lemma_capture_none(s: VmView, fr: FrameView, sources: Seq<UpvalueSource>, k: int)
    requires
        0 <= k <= sources.len(),
        semantics::capture(s, fr, sources.take(k)) is None,
    ensures
        semantics::capture(s, fr, sources) is None,
    decreases sources.len() - k,
{
    if k == sources.len() {
        assert(sources.take(k) =~= sources);
    } else {
        assert(sources.take(k + 1).drop_last() =~= sources.take(k));
        lemma_capture_none(s, fr, sources, k + 1);
    }
}

impl VM {
    /// The upvalue recorded as open on stack slot `i`, if any.
    fn find_open(&self, i: usize) -> (r: Option<usize>)
        ensures
            r == semantics::find_open(self@.open_upvalues, i as int),
    {
        let mut j: usize = 0;
        while j < self.open_upvalues.len()
            invariant
                j <= self.open_upvalues@.len(),
                forall|k: int| 0 <= k < j ==> (#[trigger] self.open_upvalues@[k]).0 != i,
            decreases self.open_upvalues.len() - j,
        {
            if self.open_upvalues[j].0 == i {
                proof {
                    lemma_find_open(self.open_upvalues@, i as int, j as int);
                }
                return Some(self.open_upvalues[j].1);
            }
            j = j + 1;
        }
        proof {
            lemma_find_open(self.open_upvalues@, i as int, j as int);
        }
        None
    }

    /// The upvalue that a new closure captures from `source`, created if needed.
    fn capture_one(&mut self, source: UpvalueSource) -> (r: Option<usize>)
        requires
            old(self)@.frames.len() > 0,
        ensures
            final(self).program() == old(self).program(),
            final(self)@.frames == old(self)@.frames,
            match r {
                Some(u) => semantics::capture_one(old(self)@, old(self)@.frames.last(), source)
                    == Some((final(self)@, u)),
                None => semantics::capture_one(old(self)@, old(self)@.frames.last(), source)
                    is None,
            },
    {
        let last = self.frames.len() - 1;
        match source {
            UpvalueSource::Local { stack_index_relative_to_base } => {
                let base = self.frames[last].base;
                if stack_index_relative_to_base > usize::MAX - base {
                    return None;
                }
                let i = base + stack_index_relative_to_base;
                match self.find_open(i) {
                    Some(u) => Some(u),
                    None => {
                        let ghost s0 = self@;
                        let u = self.upvalues.len();
                        let ghost ub = self.upvalues@;
                        self.upvalues.push(Upvalue::Open(i));
                        self.open_upvalues.push((i, u));
                        assert(upvalue_views(self.upvalues@) =~= upvalue_views(ub).push(
                            UpvalueView::Open(i),
                        ));
                        assert(self@ == (VmView {
                            upvalues: s0.upvalues.push(UpvalueView::Open(i)),
                            open_upvalues: s0.open_upvalues.push((i, u)),
                            ..s0
                        }));
                        Some(u)
                    },
                }
            },
            UpvalueSource::Upvalue { upvalue_index } => {
                if upvalue_index < self.frames[last].upvalues.len() {
                    Some(self.frames[last].upvalues[upvalue_index])
                } else {
                    None
                }
            },
        }
    }

    /// The upvalues that a new closure of function `f` captures, in order.
    fn capture(&mut self, f: usize) -> (r: Option<Vec<usize>>)
        requires
            old(self)@.frames.len() > 0,
            f < old(self).program().len(),
        ensures
            final(self).program() == old(self).program(),
            match r {
                Some(ups) => semantics::capture(
                    old(self)@,
                    old(self)@.frames.last(),
                    old(self).program()[f as int].upvalue_sources@,
                ) == Some((final(self)@, ups@)),
                None => semantics::capture(
                    old(self)@,
                    old(self)@.frames.last(),
                    old(self).program()[f as int].upvalue_sources@,
                ) is None,
            },
    {
        let ghost s0 = self@;
        let ghost fr = self@.frames.last();
        let ghost sources = self.functions@[f as int].upvalue_sources@;
        let n = self.functions[f].upvalue_sources.len();
        let mut ups: Vec<usize> = Vec::new();
        let mut k: usize = 0;
        assert(sources.take(0) =~= Seq::<UpvalueSource>::empty());
        while k < n
            invariant
                k <= n,
                n == sources.len(),
                sources == self.functions@[f as int].upvalue_sources@,
                f < self.functions@.len(),
                self.functions@ == old(self).functions@,
                s0 == old(self)@,
                s0.frames.len() > 0,
                fr == s0.frames.last(),
                self@.frames == s0.frames,
                semantics::capture(s0, fr, sources.take(k as int)) == Some((self@, ups@)),
            decreases n - k,
        {
            let source = self.functions[f].upvalue_sources[k];
            proof {
                assert(sources.take(k + 1).drop_last() =~= sources.take(k as int));
                assert(sources.take(k + 1).last() == source);
            }
            match self.capture_one(source) {
                Some(u) => {
                    ups.push(u);
                },
                None => {
                    proof {
                        lemma_capture_none(s0, fr, sources, k + 1);
                    }
                    return None;
                },
            }
            k = k + 1;
        }
        assert(sources.take(n as int) =~= sources);
        Some(ups)
    }

    fn exec_closure(&mut self, instr: Instr, f: usize) -> (r: Result<StepOutcome, Exception>)
        requires
            old(self).ready(f),
            instr.op == OpCode::Closure,
        ensures
            final(self).program() == old(self).program(),
            executed(old(self).program(), old(self)@, instr, f as int, r, final(self)@),
    {
        proof {
            lemma_views(self.stack@);
        }
        let n = self.stack.len();
        if n == 0 {
            return fault();
        }
        let fi = match &self.stack[n - 1] {
            Value::Function(i) => *i,
            _ => {
                return fault();
            },
        };
        if fi >= self.functions.len() {
            return fault();
        }
        let _ = self.pop_value();
        match self.capture(fi) {
            Some(ups) => {
                let ghost s2 = self@;
                let c = self.closures.len();
                let closure = Closure::new(fi, ups);
                let ghost cv = closure@;
                let ghost cb = self.closures@;
                self.closures.push(closure);
                assert(closure_views(self.closures@) =~= closure_views(cb).push(cv));
                self.push_value(Value::Closure(c));
                Ok(StepOutcome::Next)
            },
            None => fault(),
        }
    }

    #[verifier::rlimit(40)]
    #[verifier::spinoff_prover]
    fn exec_get_iter(&mut self, instr: Instr, f: usize) -> (r: Result<StepOutcome, Exception>)
        requires
            old(self).ready(f),
            instr.op == OpCode::GetIter,
        ensures
            final(self).program() == old(self).program(),
            executed(old(self).program(), old(self)@, instr, f as int, r, final(self)@),
    {
        let ghost s0 = self@;
        let obj = match self.pop_value() {
            Some(v) => v,
            None => {
                return fault();
            },
        };
        let ghost s1 = self@;
        assert(s1.stack.push(obj@) =~= s0.stack);
        match &obj {
            Value::Struct(module, _) => {
                proof {
                    reveal_strlit("__iter__");
                }
                let name = vec![Value::Symbol(module.clone()), Value::Symbol("__iter__".to_owned())];
                proof {
                    lemma_views(name@);
                    assert(views(name@) =~= seq![Val::Symbol(module@), Val::Symbol("__iter__"@)]);
                }
                let key = Value::Tuple(name);
                match dict_get(&self.globals, &key) {
                    Some(it) => {
                        let it = it.duplicate();
                        let args = vec![obj];
                        proof {
                            lemma_views(args@);
                            assert(views(args@) =~= seq![s0.stack.last()]);
                        }
                        self.call(it, args)
                    },
                    None => {
                        proof {
                            reveal_strlit("struct `");
                            reveal_strlit("` doesn't implement iter");
                        }
                        let a = concat_str("struct `", module.as_str());
                        Err(Exception::new(concat_str(a.as_str(), "` doesn't implement iter")))
                    },
                }
            },
            Value::NativeFunc(_) | Value::NativeClosure(_) => {
                self.push_value(obj);
                Ok(StepOutcome::Next)
            },
            Value::Function(i) => {
                let i = *i;
                if i >= self.functions.len() {
                    fault()
                } else if self.functions[i].arity == 0 {
                    self.push_value(obj);
                    Ok(StepOutcome::Next)
                } else {
                    raise("value is not iterable")
                }
            },
            Value::Closure(i) => {
                let i = *i;
                if i >= self.closures.len() || self.closures[i].function >= self.functions.len() {
                    fault()
                } else if self.functions[self.closures[i].function].arity == 0 {
                    self.push_value(obj);
                    Ok(StepOutcome::Next)
                } else {
                    raise("value is not iterable")
                }
            },
            _ => match iter_items(&obj) {
                Some(items) => {
                    self.push_iterator(NativeIter::Items { items, pos: 0 });
                    Ok(StepOutcome::Next)
                },
                None => raise("value is not iterable"),
            },
        }
    }

    fn exec_for_iter(&mut self, instr: Instr, f: usize) -> (r: Result<StepOutcome, Exception>)
        requires
            old(self).ready(f),
            instr.op == OpCode::ForIter,
        ensures
            final(self).program() == old(self).program(),
            executed(old(self).program(), old(self)@, instr, f as int, r, final(self)@),
    {
        let res = match self.pop_value() {
            Some(v) => v,
            None => {
                return fault();
            },
        };
        match &res {
            Value::Nil => {
                self.push_value(Value::Nil);
                self.jump_by(instr.wide_arg())
            },
            Value::Tuple(t) => {
                proof {
                    lemma_views(t@);
                }
                if t.len() == 2 {
                    let v = t[1].duplicate();
                    self.push_value(v);
                    Ok(StepOutcome::Next)
                } else {
                    Err(iterator_result_error(&res))
                }
            },
            _ => Err(iterator_result_error(&res)),
        }
    }

    #[verifier::spinoff_prover]
    #[verifier::rlimit(40)]
    fn exec_unpack_tuple(&mut self, instr: Instr, f: usize) -> (r: Result<StepOutcome, Exception>)
        requires
            old(self).ready(f),
            instr.op == OpCode::UnpackTuple,
        ensures
            final(self).program() == old(self).program(),
            executed(old(self).program(), old(self)@, instr, f as int, r, final(self)@),
    {
        let tuple = match self.pop_value() {
            Some(v) => v,
            None => {
                return fault();
            },
        };
        let fits = match &tuple {
            Value::Tuple(t) => t.len() == instr.arg0 as usize,
            _ => false,
        };
        if !fits {
            proof {
                if tuple is Tuple {
                    lemma_views(tuple->Tuple_0@);
                }
            }
            return Err(Exception::showing(tuple_arity_message(instr.arg0).as_str(), tuple));
        }
        match tuple {
            Value::Tuple(t) => {
                proof {
                    lemma_views(t@);
                }
                if t.len() == instr.arg0 as usize {
                    let ghost s1 = self@;
                    let ghost sb = self.stack@;
                    let ghost tv = t@;
                    let mut t = t;
                    proof {
                        lemma_views_add(sb, t@);
                    }
                    self.stack.append(&mut t);
                    assert(self@ == with_stack(s1, s1.stack + views(tv)));
                    Ok(StepOutcome::Next)
                } else {
                    fault()
                }
            },
            _ => fault(),
        }
    }

    /// Matches pattern `k` of function `f` against `v`.
    fn match_operand(&self, f: usize, k: u8, v: &Value) -> (r: Option<Result<Vec<Value>, Exception>>)
        requires
            f < self.program().len(),
        ensures
            match r {
                Some(Ok(slots)) => semantics::match_operand(self.program(), f as int, k as int, v@)
                    == Some(Some(views(slots@))),
                Some(Err(e)) => semantics::match_operand(self.program(), f as int, k as int, v@)
                    == Some(None::<Seq<Val>>) && e.message@ == "Pattern match failed, got "@ && shown_view(
                    e.shown,
                ) == Some(v@),
                None => semantics::match_operand(self.program(), f as int, k as int, v@) is None,
            },
    {
        let ps = &self.functions[f].chunk.patterns;
        let i = k as usize;
        if i < ps.len() && ps[i].is_wf() {
            Some(ps[i].match_pattern(v))
        } else {
            None
        }
    }

    #[verifier::spinoff_prover]
    #[verifier::rlimit(40)]
    fn exec_match(&mut self, instr: Instr, f: usize) -> (r: Result<StepOutcome, Exception>)
        requires
            old(self).ready(f),
            instr.op == OpCode::Match || instr.op == OpCode::TryMatch || instr.op
                == OpCode::MatchFailure,
        ensures
            final(self).program() == old(self).program(),
            executed(old(self).program(), old(self)@, instr, f as int, r, final(self)@),
    {
        let ghost s0 = self@;
        proof {
            lemma_views(self.stack@);
        }
        let n = self.stack.len();
        if n == 0 {
            return fault();
        }
        if let OpCode::MatchFailure = instr.op {
            return Err(
                Exception::showing("value didn't match any case: ", self.stack[n - 1].duplicate()),
            );
        }
        let value = self.stack[n - 1].duplicate();
        match self.match_operand(f, instr.arg0, &value) {
            Some(Ok(slots)) => {
                if let OpCode::Match = instr.op {
                    let _ = self.pop_value();
                }
                let ghost s1 = self@;
                let ghost sb = self.stack@;
                let ghost sv = slots@;
                let mut slots = slots;
                proof {
                    lemma_views_add(sb, slots@);
                }
                self.stack.append(&mut slots);
                assert(self@ == with_stack(s1, s1.stack + views(sv)));
                Ok(StepOutcome::Next)
            },
            Some(Err(e)) => {
                if let OpCode::Match = instr.op {
                    Err(e)
                } else {
                    self.jump_by(instr.arg1_arg2())
                }
            },
            None => fault(),
        }
    }
}

/// A key of the pairs that is not a symbol is a field name of `vs` that is not a symbol.
proof fn lemma_struct_name(vs: Seq<Val>, pairs: Seq<(Value, Value)>, j: int)
    requires
        pair_views(pairs) == semantics::pairs_of(vs),
        0 <= j < pairs.len(),
        !(pairs[j].0@ is Symbol),
    ensures
        !semantics::names_are_symbols(vs),
{
    lemma_pair_views(pairs);
    assert(pair_views(pairs)[j] == entry(pairs[j].0@, pairs[j].1@));
    assert(semantics::pairs_of(vs)[j] == entry(vs[2 * j], vs[2 * j + 1]));
    assert(!(vs[2 * j] is Symbol));
}

/// Fields made from pairs whose keys are all symbols are the fields of `vs`.
proof fn lemma_struct_fields(vs: Seq<Val>, pairs: Seq<(Value, Value)>, fields: Seq<(Value, Value)>)
    requires
        pair_views(pairs) == semantics::pairs_of(vs),
        fields.len() == pairs.len(),
        forall|j: int|
            0 <= j < pairs.len() ==> (#[trigger] pairs[j]).0@ is Symbol && fields[j].0@ == Val::Str(
                pairs[j].0@->Symbol_0,
            ) && fields[j].1@ == pairs[j].1@,
    ensures
        semantics::names_are_symbols(vs),
        pair_views(fields) == semantics::fields_of(vs),
{
    lemma_pair_views(pairs);
    lemma_pair_views(fields);
    assert forall|j: int| 0 <= j < vs.len() / 2 implies (#[trigger] vs[2 * j]) is Symbol by {
        assert(pair_views(pairs)[j] == entry(pairs[j].0@, pairs[j].1@));
        assert(semantics::pairs_of(vs)[j] == entry(vs[2 * j], vs[2 * j + 1]));
    }
    assert forall|j: int| 0 <= j < fields.len() implies #[trigger] pair_views(fields)[j]
        == semantics::fields_of(vs)[j] by {
        assert(pair_views(pairs)[j] == entry(pairs[j].0@, pairs[j].1@));
        assert(semantics::pairs_of(vs)[j] == entry(vs[2 * j], vs[2 * j + 1]));
    }
    assert(pair_views(fields) =~= semantics::fields_of(vs));
}

/// The pairs with each symbol key turned into a string field name; `None` when a key is not
/// a symbol.
fn fields_of_pairs(pairs: &Vec<(Value, Value)>) -> (r: Option<Vec<(Value, Value)>>)
    ensures
        match r {
            Some(fields) => fields@.len() == pairs@.len() && forall|j: int|
                0 <= j < pairs@.len() ==> (#[trigger] pairs@[j]).0@ is Symbol && fields@[j].0@
                    == Val::Str(pairs@[j].0@->Symbol_0) && fields@[j].1@ == pairs@[j].1@,
            None => exists|j: int| 0 <= j < pairs@.len() && !((#[trigger] pairs@[j]).0@ is Symbol),
        },
{
    let mut fields: Vec<(Value, Value)> = Vec::new();
    let mut i: usize = 0;
    while i < pairs.len()
        invariant
            i <= pairs@.len(),
            fields@.len() == i,
            forall|j: int|
                0 <= j < i ==> (#[trigger] pairs@[j]).0@ is Symbol && fields@[j].0@ == Val::Str(
                    pairs@[j].0@->Symbol_0,
                ) && fields@[j].1@ == pairs@[j].1@,
        decreases pairs.len() - i,
    {
        match &pairs[i].0 {
            Value::Symbol(name) => {
                let value = pairs[i].1.duplicate();
                fields.push((Value::String(name.clone()), value));
            },
            _ => {
                assert(!(pairs@[i as int].0@ is Symbol));
                return None;
            },
        }
        i = i + 1;
    }
    Some(fields)
}

impl VM {
    /// Pops the top `2 * k` values, as `k` key/value pairs.
    fn pop_pairs(&mut self, k: usize) -> (r: Option<Vec<(Value, Value)>>)
        ensures
            final(self).program() == old(self).program(),
            match r {
                Some(pairs) => 2 * k <= old(self)@.stack.len() && final(self)@ == with_stack(
                    old(self)@,
                    old(self)@.stack.take(old(self)@.stack.len() - 2 * k),
                ) && pair_views(pairs@) == semantics::pairs_of(
                    old(self)@.stack.skip(old(self)@.stack.len() - 2 * k),
                ),
                None => 2 * k > old(self)@.stack.len(),
            },
    {
        let ghost s0 = self@;
        proof {
            lemma_views(self.stack@);
        }
        let n = self.stack.len();
        if k > n / 2 {
            return None;
        }
        let ghost before = self.stack@;
        let items = self.stack.split_off(n - 2 * k);
        let ghost vs = s0.stack.skip(n - 2 * k);
        proof {
            lemma_views(before);
            lemma_views_subrange(before, 0, n - 2 * k);
            lemma_views_subrange(before, (n - 2 * k) as int, n as int);
            assert(views(before).subrange(0, n - 2 * k) =~= views(before).take(n - 2 * k));
            assert(views(before).subrange((n - 2 * k) as int, n as int) =~= vs);
            assert(self@ == with_stack(s0, s0.stack.take(n - 2 * k)));
            lemma_views(items@);
        }
        let mut pairs: Vec<(Value, Value)> = Vec::new();
        let mut i: usize = 0;
        while i < k
            invariant
                i <= k,
                2 * k <= usize::MAX,
                items@.len() == 2 * k,
                views(items@) == vs,
                forall|j: int| 0 <= j < items@.len() ==> #[trigger] views(items@)[j] == items@[j]@,
                pairs@.len() == i,
                forall|j: int|
                    0 <= j < i ==> (#[trigger] pairs@[j]).0@ == vs[2 * j] && pairs@[j].1@ == vs[2
                        * j + 1],
            decreases k - i,
        {
            let key = items[2 * i].duplicate();
            let value = items[2 * i + 1].duplicate();
            pairs.push((key, value));
            i = i + 1;
        }
        proof {
            lemma_pair_views(pairs@);
            assert(pair_views(pairs@) =~= semantics::pairs_of(vs));
        }
        Some(pairs)
    }

    fn exec_make_dict(&mut self, instr: Instr, f: usize) -> (r: Result<StepOutcome, Exception>)
        requires
            old(self).ready(f),
            instr.op == OpCode::MakeDict,
        ensures
            final(self).program() == old(self).program(),
            executed(old(self).program(), old(self)@, instr, f as int, r, final(self)@),
    {
        match self.pop_pairs(instr.wide_arg()) {
            Some(pairs) => {
                let entries = dict_from_pairs(pairs);
                self.push_value(Value::Dict(entries));
                Ok(StepOutcome::Next)
            },
            None => fault(),
        }
    }

    fn exec_make_struct(&mut self, instr: Instr, f: usize) -> (r: Result<StepOutcome, Exception>)
        requires
            old(self).ready(f),
            instr.op == OpCode::MakeStruct,
        ensures
            final(self).program() == old(self).program(),
            executed(old(self).program(), old(self)@, instr, f as int, r, final(self)@),
    {
        let ghost s0 = self@;
        let ghost vs = s0.stack.skip(s0.stack.len() - 2 * instr.arg1);
        let pairs = match self.pop_pairs(instr.arg1 as usize) {
            Some(p) => p,
            None => {
                return fault();
            },
        };
        let fields = match fields_of_pairs(&pairs) {
            Some(fs) => fs,
            None => {
                proof {
                    let j = choose|j: int| 0 <= j < pairs@.len() && !((#[trigger] pairs@[j]).0@ is Symbol);
                    lemma_struct_name(vs, pairs@, j);
                }
                return fault();
            },
        };
        proof {
            lemma_struct_fields(vs, pairs@, fields@);
        }
        let module = match self.constant_symbol(f, instr.arg0) {
            Some(m) => m,
            None => {
                return fault();
            },
        };
        let entries = dict_from_pairs(fields);
        self.push_value(Value::Struct(module, entries));
        Ok(StepOutcome::Next)
    }

    fn exec_get(&mut self, instr: Instr, f: usize) -> (r: Result<StepOutcome, Exception>)
        requires
            old(self).ready(f),
            instr.op == OpCode::GetField || instr.op == OpCode::GetSubscript,
        ensures
            final(self).program() == old(self).program(),
            executed(old(self).program(), old(self)@, instr, f as int, r, final(self)@),
    {
        let ghost s0 = self@;
        proof {
            lemma_views(self.stack@);
        }
        let n = self.stack.len();
        if n < 2 {
            return fault();
        }
        let res = match instr.op {
            OpCode::GetField => match &self.stack[n - 1] {
                Value::Symbol(name) => self.stack[n - 2].at_field(name.as_str()),
                _ => {
                    return fault();
                },
            },
            _ => self.stack[n - 2].at(&self.stack[n - 1]),
        };
        match res {
            Ok(v) => {
                let _ = self.pop_value();
                let _ = self.pop_value();
                assert(s0.stack.drop_last().drop_last() =~= s0.stack.take(n - 2));
                self.push_value(v);
                Ok(StepOutcome::Next)
            },
            Err(e) => Err(e),
        }
    }

    #[verifier::spinoff_prover]
    fn exec_set(&mut self, instr: Instr, f: usize) -> (r: Result<StepOutcome, Exception>)
        requires
            old(self).ready(f),
            instr.op == OpCode::SetField || instr.op == OpCode::SetSubscript,
        ensures
            final(self).program() == old(self).program(),
            executed(old(self).program(), old(self)@, instr, f as int, r, final(self)@),
    {
        let ghost s0 = self@;
        proof {
            lemma_views(self.stack@);
        }
        let n = self.stack.len();
        if n < 3 {
            return fault();
        }
        let field = match instr.op {
            OpCode::SetField => match &self.stack[n - 2] {
                Value::Symbol(name) => Some(name.clone()),
                _ => {
                    return fault();
                },
            },
            _ => None,
        };
        let value = self.pop_value().unwrap();
        let index = self.pop_value().unwrap();
        let mut obj = self.pop_value().unwrap();
        assert(s0.stack.drop_last().drop_last().drop_last() =~= s0.stack.take(n - 3));
        let res = match field {
            Some(name) => obj.set_field(name.as_str(), value),
            None => obj.set_at(&index, value),
        };
        match res {
            Ok(()) => {
                self.push_value(obj);
                Ok(StepOutcome::Next)
            },
            Err(e) => Err(e),
        }
    }
}

/// `r` is what `rn` says running instructions does, the machine ending in `after`.
pub open spec fn run_matches(rn: Run, r: Result<RunOutcome, Exception>, after: VmView) -> bool {
    match r {
        Ok(RunOutcome::Finished(v)) => rn == Run::Finished(v@),
        Ok(RunOutcome::Paused) => rn == Run::Paused(after),
        Ok(RunOutcome::Outside(w)) => rn == Run::Outside(w@, after),
        Err(e) => (rn matches Run::Raised(m, w) && e.message@ == m && shown_view(e.shown) == w)
            || rn is Fault,
    }
}

/// The machine in which `main` is about to run: nothing on the stack, no globals, upvalues,
/// closures or iterators, and `argv` not set.
pub open spec fn initial(main: usize) -> VmView {
    VmView {
        stack: Seq::empty(),
        frames: seq![FrameView { ip: 0, base: 0, function: main, upvalues: Seq::empty() }],
        globals: Seq::empty(),
        upvalues: Seq::empty(),
        open_upvalues: Seq::empty(),
        closures: Seq::empty(),
        iterators: Seq::empty(),
        argv: Val::Nil,
    }
}

impl VM {
    /// A machine that runs the first function of `functions`; the others are the functions
    /// that `Value::Function` constants of the program refer to by position.
    pub fn new(functions: Vec<Function>) -> (r: Self)
        ensures
            r.program() == functions@,
            r@ == initial(0),
    {
        let frame = Frame { ip: 0, base: 0, function: 0, upvalues: Vec::new() };
        let ghost fv = frame@;
        let vm = VM {
            functions,
            stack: Vec::new(),
            frames: vec![frame],
            globals: Vec::new(),
            upvalues: Vec::new(),
            open_upvalues: Vec::new(),
            closures: Vec::new(),
            iterators: Vec::new(),
            argv: Value::Nil,
        };
        proof {
            lemma_views(vm.stack@);
            lemma_pair_views(vm.globals@);
            assert(views(vm.stack@) =~= Seq::<Val>::empty());
            assert(pair_views(vm.globals@) =~= Seq::<Val>::empty());
            assert(frame_views(vm.frames@) =~= seq![fv]);
            assert(upvalue_views(vm.upvalues@) =~= Seq::<UpvalueView>::empty());
            assert(closure_views(vm.closures@) =~= Seq::<closure::ClosureView>::empty());
            assert(iter_views(vm.iterators@) =~= Seq::<IterView>::empty());
        }
        vm
    }

    /// Sets the program's arguments, the list that `VmArg 1` pushes.
    pub fn set_argv(&mut self, argv: Vec<String>)
        ensures
            final(self).program() == old(self).program(),
            final(self)@ == (VmView {
                argv: Val::List(Seq::new(argv@.len(), |i: int| Val::Str(argv@[i]@))),
                ..old(self)@
            }),
    {
        let mut items: Vec<Value> = Vec::new();
        let mut i: usize = 0;
        while i < argv.len()
            invariant
                i <= argv@.len(),
                items@.len() == i,
                forall|j: int| 0 <= j < i ==> #[trigger] items@[j]@ == Val::Str(argv@[j]@),
            decreases argv.len() - i,
        {
            items.push(Value::String(argv[i].clone()));
            i = i + 1;
        }
        proof {
            lemma_views(items@);
            assert(views(items@) =~= Seq::new(argv@.len(), |i: int| Val::Str(argv@[i]@)));
        }
        self.argv = Value::List(items);
    }

    /// Pushes the result of outside work (the contents of a file that was read).
    pub fn push_result(&mut self, v: Value)
        ensures
            final(self).program() == old(self).program(),
            final(self)@ == push(old(self)@, v@),
    {
        self.push_value(v);
    }

    /// Carries out `instr` of function `f`.
    #[verifier::rlimit(60)]
    fn execute(&mut self, instr: Instr, f: usize) -> (r: Result<StepOutcome, Exception>)
        requires
            old(self).ready(f),
        ensures
            final(self).program() == old(self).program(),
            executed(old(self).program(), old(self)@, instr, f as int, r, final(self)@),
    {
        match instr.op {
            OpCode::VmArg => self.exec_vm_arg(instr, f),
            OpCode::Constant => self.exec_constant(instr, f),
            OpCode::PushNil => {
                self.push_value(Value::Nil);
                Ok(StepOutcome::Next)
            },
            OpCode::GetGlobal => self.exec_get_global(instr, f),
            OpCode::SetGlobal => self.exec_set_global(instr, f),
            OpCode::GlobalIsDefined => self.exec_global_is_defined(instr, f),
            OpCode::GetUpvalue => self.exec_get_upvalue(instr, f),
            OpCode::SetUpvalue => self.exec_set_upvalue(instr, f),
            OpCode::GetLocal => self.exec_get_local(instr, f),
            OpCode::SetLocal => self.exec_set_local(instr, f),
            OpCode::Call => self.exec_call(instr, f),
            OpCode::TailCall => self.exec_tail_call(instr, f),
            OpCode::Return => self.exec_return(instr, f),
            OpCode::Closure => self.exec_closure(instr, f),
            OpCode::Add => self.exec_binary(instr, f, BinOp::Add),
            OpCode::Sub => self.exec_binary(instr, f, BinOp::Sub),
            OpCode::Mul => self.exec_binary(instr, f, BinOp::Mul),
            OpCode::Div => self.exec_binary(instr, f, BinOp::Div),
            OpCode::Eq => self.exec_binary(instr, f, BinOp::Eq),
            OpCode::Neq => self.exec_binary(instr, f, BinOp::Neq),
            OpCode::Gt => self.exec_binary(instr, f, BinOp::Gt),
            OpCode::Gte => self.exec_binary(instr, f, BinOp::Gte),
            OpCode::Lt => self.exec_binary(instr, f, BinOp::Lt),
            OpCode::Lte => self.exec_binary(instr, f, BinOp::Lte),
            OpCode::Neg => self.exec_unary(instr, f, UnaryOp::Neg),
            OpCode::LogicalNeg => self.exec_unary(instr, f, UnaryOp::LogicalNeg),
            OpCode::BranchIfTrue | OpCode::BranchIfFalse => self.exec_branch(instr, f),
            OpCode::Pop => self.exec_pop(instr, f),
            OpCode::PopLocals => self.exec_pop_locals(instr, f),
            OpCode::Jump | OpCode::JumpBack => self.exec_jump(instr, f),
            OpCode::MakeList | OpCode::MakeTuple => self.exec_make_sequence(instr, f),
            OpCode::MakeDict => self.exec_make_dict(instr, f),
            OpCode::MakeStruct => self.exec_make_struct(instr, f),
            OpCode::GetField | OpCode::GetSubscript => self.exec_get(instr, f),
            OpCode::SetField | OpCode::SetSubscript => self.exec_set(instr, f),
            OpCode::Dup => self.exec_dup(instr, f),
            OpCode::GetIter => self.exec_get_iter(instr, f),
            OpCode::CallIter => self.exec_call_iter(instr, f),
            OpCode::ForIter => self.exec_for_iter(instr, f),
            OpCode::UnpackTuple => self.exec_unpack_tuple(instr, f),
            OpCode::Match | OpCode::TryMatch | OpCode::MatchFailure => self.exec_match(instr, f),
        }
    }

    /// Runs the next instruction of the current frame.
    pub fn step(&mut self) -> (r: Result<StepOutcome, Exception>)
        ensures
            final(self).program() == old(self).program(),
            step_matches(semantics::step(old(self).program(), old(self)@), r, final(self)@),
    {
        let nf = self.frames.len();
        if nf == 0 {
            return fault();
        }
        let f = self.frames[nf - 1].function;
        let ip = self.frames[nf - 1].ip;
        if f >= self.functions.len() || ip >= self.functions[f].chunk.code.len() {
            return fault();
        }
        let instr = self.functions[f].chunk.code[ip];
        self.set_ip(ip + 1);
        self.execute(instr, f)
    }

    /// Runs up to `n` instructions; stops early when the program finishes, asks for outside
    /// work, or raises.
    pub fn run_n(&mut self, n: usize) -> (r: Result<RunOutcome, Exception>)
        ensures
            final(self).program() == old(self).program(),
            run_matches(semantics::run(old(self).program(), old(self)@, n as nat), r, final(self)@),
    {
        let ghost fs = self.program();
        let mut i: usize = 0;
        while i < n
            invariant
                i <= n,
                self.program() == fs,
                fs == old(self).program(),
                semantics::run(fs, old(self)@, n as nat) == semantics::run(
                    fs,
                    self@,
                    (n - i) as nat,
                ),
            decreases n - i,
        {
            match self.step() {
                Ok(StepOutcome::Next) => {},
                Ok(StepOutcome::Finished(v)) => {
                    return Ok(RunOutcome::Finished(v));
                },
                Ok(StepOutcome::Outside(w)) => {
                    return Ok(RunOutcome::Outside(w));
                },
                Err(e) => {
                    return Err(e);
                },
            }
            i = i + 1;
        }
        Ok(RunOutcome::Paused)
    }

    /// Runs the program until it finishes, asks for outside work, or raises (or as many
    /// instructions as a `usize` counts have run).
    pub fn run(&mut self) -> (r: Result<RunOutcome, Exception>)
        ensures
            final(self).program() == old(self).program(),
            run_matches(
                semantics::run(old(self).program(), old(self)@, usize::MAX as nat),
                r,
                final(self)@,
            ),
    {
        self.run_n(usize::MAX)
    }
}

impl VM {
    /// The program's function table.
    pub fn functions(&self) -> (r: &Vec<Function>)
        ensures
            r@ == self.program(),
    {
        &self.functions
    }

    /// The values on the stack, bottom first.
    pub fn stack_values(&self) -> (r: &Vec<Value>)
        ensures
            views(r@) == self@.stack,
    {
        &self.stack
    }

    /// The function and next instruction of each frame, outermost first.
    pub fn frame_positions(&self) -> (r: Vec<(usize, usize)>)
        ensures
            r@.len() == self@.frames.len(),
            forall|i: int|
                0 <= i < r@.len() ==> #[trigger] r@[i] == (
                    self@.frames[i].function,
                    self@.frames[i].ip,
                ),
    {
        let mut r: Vec<(usize, usize)> = Vec::new();
        let mut i: usize = 0;
        while i < self.frames.len()
            invariant
                i <= self.frames@.len(),
                r@.len() == i,
                forall|j: int|
                    0 <= j < i ==> #[trigger] r@[j] == (
                        self@.frames[j].function,
                        self@.frames[j].ip,
                    ),
            decreases self.frames.len() - i,
        {
            r.push((self.frames[i].function, self.frames[i].ip));
            i = i + 1;
        }
        r
    }

    /// The opcode of the instruction the current frame runs next, if there is one.
    pub open spec fn next_op(&self) -> Option<OpCode> {
        let fs = self@.frames;
        if fs.len() > 0 && fs.last().function < self.program().len() && fs.last().ip
            < self.program()[fs.last().function as int].chunk.code@.len() {
            Some(self.program()[fs.last().function as int].chunk.code@[fs.last().ip as int].op)
        } else {
            None
        }
    }

    /// The opcode of the next instruction, if there is one.
    pub fn current_op(&self) -> (r: Option<OpCode>)
        ensures
            r == self.next_op(),
    {
        let n = self.frames.len();
        if n == 0 {
            return None;
        }
        let f = self.frames[n - 1].function;
        let ip = self.frames[n - 1].ip;
        if f < self.functions.len() && ip < self.functions[f].chunk.code.len() {
            Some(self.functions[f].chunk.code[ip].op)
        } else {
            None
        }
    }
}

} // verus!

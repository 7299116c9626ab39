use vstd::prelude::*;

use crate::ast::{constant_value, BinOp, Node, NodeKind, UnaryOp};
use crate::line_col::LineCol;
use crate::native_funcs::func;
use crate::order::{compare_str, lemma_order_chars, Order};
use crate::value::{lemma_views, views, Val, Value};
use crate::vm::chunk::{first_index, Chunk};
use crate::vm::function::{Function, UpvalueSource};
use crate::vm::inst::{Instr, OpCode};

use super::emission::{
    assigned, assigned_rev, byte, default_of, emitted, emitted_all, emitted_binary, emitted_body,
    emitted_builtin,
    emitted_call, emitted_collection, emitted_constants, emitted_define, emitted_field_access,
    emitted_field_assignment, emitted_fields, emitted_for, emitted_function, emitted_get,
    emitted_if, emitted_pairs, emitted_path, emitted_set, emitted_source_file, emitted_stmts,
    compiled_module, emitted_struct, fn_model, fn_models, is_tail_call, module_start, last_key,
    literal_field, load, load_guard, load_new_function, loc_of, nils, patched, pattern_locals, patterns_locals, put, stored_path,
    stub_function, wide, with_const, EmitContext, Emission,
};
use super::variable::VariableAllocation;

verus! {

/// Code generation for one function: the chunk being written, the program's function table
/// (nested functions are added to it), the number of locals each open block has pushed, and
/// where the function's closure finds its upvalues.
#[derive(Debug)]
pub struct Emitter {
    pub chunk: Chunk,
    pub functions: Vec<Function>,
    pub pushed_locals: Vec<usize>,
    pub upvalue_sources: Vec<UpvalueSource>,
}

/// The source location code for `n` is attributed to.
fn loc(n: &Node) -> (r: LineCol)
    ensures
        r == loc_of(*n),
{
    LineCol::new(n.source.line, n.source.col)
}

/// An instruction built with a wide operand is `wide` of that operand.
proof fn lemma_wide(i: Instr, op: OpCode, n: usize)
    requires
        i.is_wide(op, n),
    ensures
        i == wide(op, n as nat),
{
}

/// Code generation only appends code (patching jumps in what it appended), and leaves as many
/// blocks open as it found.
pub open spec fn grows(a: Emission, b: Emission) -> bool {
    a.code.len() <= b.code.len() && a.pushed.len() == b.pushed.len()
}

proof fn lemma_fn_models_push(fs: Seq<Function>, f: Function)
    ensures
        fn_models(fs.push(f)) == fn_models(fs).push(fn_model(f)),
{
    assert(fn_models(fs.push(f)) =~= fn_models(fs).push(fn_model(f)));
}

impl Emitter {
    pub open spec fn model(&self) -> Emission {
        Emission {
            code: self.chunk.code@,
            locs: self.chunk.source_locs@,
            consts: views(self.chunk.constants@),
            patterns: self.chunk.patterns@,
            source_file: self.chunk.source_file@,
            fns: fn_models(self.functions@),
            pushed: self.pushed_locals@,
            upvalues: self.upvalue_sources@,
        }
    }

    /// An emitter for a new function of the module `source_file`, with the given function
    /// table.
    pub fn new(source_file: String, functions: Vec<Function>) -> (r: Emitter)
        ensures
            r.model() == (Emission {
                code: Seq::empty(),
                locs: Seq::empty(),
                consts: Seq::empty(),
                patterns: Seq::empty(),
                source_file: source_file@,
                fns: fn_models(functions@),
                pushed: Seq::empty(),
                upvalues: Seq::empty(),
            }),
    {
        let mut chunk = Chunk::new();
        chunk.source_file = source_file;
        proof {
            lemma_views(chunk.constants@);
        }
        let r = Emitter {
            chunk,
            functions,
            pushed_locals: Vec::new(),
            upvalue_sources: Vec::new(),
        };
        assert(r.model() =~= (Emission {
            code: Seq::empty(),
            locs: Seq::empty(),
            consts: Seq::empty(),
            patterns: Seq::empty(),
            source_file: source_file@,
            fns: fn_models(functions@),
            pushed: Seq::empty(),
            upvalues: Seq::empty(),
        }));
        r
    }

    fn write(&mut self, instr: Instr, at: LineCol) -> (r: usize)
        ensures
            final(self).model() == put(old(self).model(), instr, at),
            r == old(self).model().code.len(),
    {
        let r = self.chunk.write(instr, at);
        assert(self.model() =~= put(old(self).model(), instr, at));
        r
    }

    /// The index of `v` among the constants, adding it when it is not there.
    fn constant(&mut self, v: Value) -> (r: u8)
        ensures
            (final(self).model(), r) == with_const(old(self).model(), v@),
    {
        proof {
            lemma_views(self.chunk.constants@);
        }
        let ghost vv = v@;
        let r = self.chunk.write_constant(v);
        proof {
            lemma_views(self.chunk.constants@);
            let cs = views(old(self).chunk.constants@);
            match first_index(cs, vv) {
                Some(i) => {
                    assert(r as int == i % 256);
                },
                None => {
                    assert(r as int == cs.len() % 256);
                    assert(r == byte(cs.len()));
                },
            }
        }
        assert(self.model() =~= with_const(old(self).model(), vv).0);
        r
    }

    fn load(&mut self, v: Value, at: LineCol)
        ensures
            final(self).model() == load(old(self).model(), v@, at),
    {
        let k = self.constant(v);
        self.write(Instr::constant(k), at);
    }

    /// Points the jump at `at` just past the end of the code.
    fn patch(&mut self, at: usize)
        requires
            at < old(self).model().code.len(),
        ensures
            final(self).model() == patched(old(self).model(), at as int),
    {
        let offset: usize = self.chunk.code.len() - at - 1;
        self.chunk.patch_jump(at);
        proof {
            lemma_wide(self.chunk.code@[at as int], old(self).chunk.code@[at as int].op, offset);
            assert(self.chunk.code@ =~= old(self).chunk.code@.update(
                at as int,
                wide(old(self).chunk.code@[at as int].op, offset as nat),
            ));
        }
        assert(self.model() =~= patched(old(self).model(), at as int));
    }

    /// Pushes a copy of symbol `s`'s index among the constants.
    fn symbol(&mut self, s: &str) -> (r: u8)
        ensures
            (final(self).model(), r) == with_const(old(self).model(), Val::Symbol(s@)),
    {
        self.constant(Value::Symbol(s.to_owned()))
    }

    fn emit_set(&mut self, c: &EmitContext, n: &Node)
        requires
            emitted_set(*c, *n, old(self).model()) is Some,
        ensures
            Some(final(self).model()) == emitted_set(*c, *n, old(self).model()),
    {
        let at = loc(n);
        match c.tags.variable_refs.get(n.id.local_id) {
            Some(r) => match &r.allocation {
                VariableAllocation::Global { module, name } => {
                    let m = self.symbol(module.0.as_str());
                    let k = self.symbol(name.as_str());
                    self.write(Instr::set_global(m, k), at);
                },
                VariableAllocation::Upvalue { source: _, upvalue_index } => {
                    self.write(Instr::set_upvalue((*upvalue_index % 256) as u8), at);
                },
                VariableAllocation::Local { index } => {
                    self.write(Instr::set_local((*index % 256) as u8), at);
                },
            },
            None => {},
        }
    }

    fn emit_get(&mut self, c: &EmitContext, n: &Node)
        requires
            emitted_get(*c, *n, old(self).model()) is Some,
        ensures
            Some(final(self).model()) == emitted_get(*c, *n, old(self).model()),
    {
        let at = loc(n);
        match c.tags.variable_refs.get(n.id.local_id) {
            Some(r) => match &r.allocation {
                VariableAllocation::Global { module, name } => {
                    let m = self.symbol(module.0.as_str());
                    let k = self.symbol(name.as_str());
                    self.write(Instr::get_global(m, k), at);
                },
                VariableAllocation::Upvalue { source: _, upvalue_index } => {
                    self.write(Instr::get_upvalue((*upvalue_index % 256) as u8), at);
                },
                VariableAllocation::Local { index } => {
                    self.write(Instr::get_local((*index % 256) as u8), at);
                },
            },
            None => {},
        }
    }

    /// Emits the code for `n`, which leaves the node's value on top of the stack.
    pub fn emit(&mut self, c: &EmitContext, n: &Node)
        requires
            emitted(*c, *n, old(self).model()) is Some,
        ensures
            Some(final(self).model()) == emitted(*c, *n, old(self).model()),
            grows(old(self).model(), final(self).model()),
        decreases n, 2nat,
    {
        let at = loc(n);
        match &n.kind {
            NodeKind::SourceFile(_) => self.emit_source_file(c, n),
            NodeKind::Module(_) => {
                self.write(Instr::push_nil(), at);
            },
            NodeKind::StructDef { .. } => {
                self.write(Instr::push_nil(), at);
            },
            NodeKind::Import(kind) => match c.program.get_module(kind.module_name()) {
                Some(module) => {
                    self.load(Value::Function(module.function), at);
                    self.write(Instr::call(0), at);
                },
                None => {},
            },
            NodeKind::Body(_) => self.emit_body(c, n),
            NodeKind::Builtin { .. } => self.emit_builtin(c, n),
            NodeKind::Let { .. } | NodeKind::Var { .. } => {
                self.emit_define(c, n);
                self.write(Instr::push_nil(), at);
            },
            NodeKind::Assignment { pattern, expr } => {
                self.emit(c, expr);
                self.emit_assignment_pattern(c, pattern);
                self.write(Instr::push_nil(), at);
            },
            NodeKind::NilLiteral => self.load(Value::Nil, at),
            NodeKind::BoolLiteral(b) => self.load(Value::Bool(*b), at),
            NodeKind::StringLiteral(s) => self.load(Value::String(s.clone()), at),
            NodeKind::IntegerLiteral(i) => self.load(Value::Integer(*i), at),
            NodeKind::VariableRef { .. } => self.emit_get(c, n),
            NodeKind::BinaryOp { .. } => self.emit_binary(c, n),
            NodeKind::UnaryOp { op, rhs } => {
                self.emit(c, rhs);
                match op {
                    UnaryOp::Neg => {
                        self.write(Instr::neg(), at);
                    },
                    UnaryOp::LogicalNeg => {
                        self.write(Instr::logical_neg(), at);
                    },
                }
            },
            NodeKind::FunctionCall { .. } => self.emit_call(c, n),
            NodeKind::If { .. } => self.emit_if(c, n),
            NodeKind::FunctionLiteral { .. } => self.emit_function(c, n),
            NodeKind::ListLiteral(_) | NodeKind::TupleLiteral(_) | NodeKind::DictLiteral(_) => {
                self.emit_collection(c, n)
            },
            NodeKind::StructLiteral { .. } => self.emit_struct(c, n),
            NodeKind::FieldAccess { .. } => self.emit_field_access(c, n),
            NodeKind::Subscript { object, key } => {
                self.emit(c, object);
                self.emit(c, key);
                self.write(Instr::get_subscript(), at);
            },
            NodeKind::FieldAssignment { .. } => self.emit_field_assignment(c, n),
            NodeKind::For { .. } => self.emit_for(c, n),
            _ => {},
        }
    }

    /// Statements one after the other, the value of each but the last popped.
    fn emit_stmts(&mut self, c: &EmitContext, ns: &Vec<Node>, at: LineCol)
        requires
            emitted_stmts(*c, ns@, at, old(self).model()) is Some,
        ensures
            Some(final(self).model()) == emitted_stmts(*c, ns@, at, old(self).model()),
            grows(old(self).model(), final(self).model()),
        decreases ns@, 0nat,
    {
        let ghost e0 = self.model();
        assert(ns@.take(0) =~= Seq::<Node>::empty());
        let mut i: usize = 0;
        while i < ns.len()
            invariant
                i <= ns@.len(),
                emitted_stmts(*c, ns@, at, e0) is Some,
                Some(self.model()) == emitted_stmts(*c, ns@.take(i as int), at, e0),
                grows(e0, self.model()),
            decreases ns.len() - i,
        {
            proof {
                lemma_stmts_prefix(*c, ns@, at, e0, i + 1);
                assert(ns@.take(i + 1).drop_last() =~= ns@.take(i as int));
            }
            if i > 0 {
                self.write(Instr::pop(), at);
            }
            self.emit(c, &ns[i]);
            i = i + 1;
        }
        assert(ns@.take(ns@.len() as int) =~= ns@);
    }

    /// Expressions one after the other, each value left on the stack.
    fn emit_all(&mut self, c: &EmitContext, ns: &Vec<Node>)
        requires
            emitted_all(*c, ns@, old(self).model()) is Some,
        ensures
            Some(final(self).model()) == emitted_all(*c, ns@, old(self).model()),
            grows(old(self).model(), final(self).model()),
        decreases ns@, 0nat,
    {
        let ghost e0 = self.model();
        assert(ns@.take(0) =~= Seq::<Node>::empty());
        let mut i: usize = 0;
        while i < ns.len()
            invariant
                i <= ns@.len(),
                emitted_all(*c, ns@, e0) is Some,
                Some(self.model()) == emitted_all(*c, ns@.take(i as int), e0),
                grows(e0, self.model()),
            decreases ns.len() - i,
        {
            proof {
                lemma_all_prefix(*c, ns@, e0, i + 1);
                assert(ns@.take(i + 1).drop_last() =~= ns@.take(i as int));
            }
            self.emit(c, &ns[i]);
            i = i + 1;
        }
        assert(ns@.take(ns@.len() as int) =~= ns@);
    }

    /// Keys and values one after the other.
    fn emit_pairs(&mut self, c: &EmitContext, ps: &Vec<(Node, Node)>)
        requires
            emitted_pairs(*c, ps@, old(self).model()) is Some,
        ensures
            Some(final(self).model()) == emitted_pairs(*c, ps@, old(self).model()),
            grows(old(self).model(), final(self).model()),
        decreases ps@, 0nat,
    {
        let ghost e0 = self.model();
        assert(ps@.take(0) =~= Seq::<(Node, Node)>::empty());
        let mut i: usize = 0;
        while i < ps.len()
            invariant
                i <= ps@.len(),
                emitted_pairs(*c, ps@, e0) is Some,
                Some(self.model()) == emitted_pairs(*c, ps@.take(i as int), e0),
                grows(e0, self.model()),
            decreases ps.len() - i,
        {
            proof {
                lemma_pairs_prefix(*c, ps@, e0, i + 1);
                assert(ps@.take(i + 1).drop_last() =~= ps@.take(i as int));
            }
            self.emit(c, &ps[i].0);
            self.emit(c, &ps[i].1);
            i = i + 1;
        }
        assert(ps@.take(ps@.len() as int) =~= ps@);
    }

    /// Returns early when the module has been loaded before, and marks it loaded.
    fn emit_module_load_guard(&mut self, c: &EmitContext, at: LineCol)
        ensures
            final(self).model() == load_guard(*c, at, old(self).model()),
    {
        let m = self.symbol(c.module_name.0.as_str());
        let nm = self.symbol("<loaded>");
        self.write(Instr::global_is_defined(m, nm), at);
        let branch = Instr::branch_if_false(0);
        proof {
            lemma_wide(branch, OpCode::BranchIfFalse, 0);
        }
        let b = self.write(branch, at);
        self.write(Instr::return_(), at);
        self.patch(b);
        self.write(Instr::logical_neg(), at);
        self.write(Instr::set_global(m, nm), at);
    }

    fn emit_source_file(&mut self, c: &EmitContext, n: &Node)
        requires
            n.kind is SourceFile,
            emitted_source_file(*c, *n, old(self).model()) is Some,
        ensures
            Some(final(self).model()) == emitted_source_file(*c, *n, old(self).model()),
            grows(old(self).model(), final(self).model()),
        decreases n, 1nat,
    {
        let at = loc(n);
        match &n.kind {
            NodeKind::SourceFile(statements) => match c.tags.scopes.get(n.id.local_id) {
                Some(scope) => {
                    self.upvalue_sources = scope.get_upvalue_sources();
                    self.emit_module_load_guard(c, at);
                    let ghost e1 = self.model();
                    assert(c.constants@.take(0) =~= Seq::<(String, Value)>::empty());
                    let mut i: usize = 0;
                    while i < c.constants.len()
                        invariant
                            i <= c.constants@.len(),
                            self.model() == emitted_constants(*c, c.constants@.take(i as int), at, e1),
                            grows(old(self).model(), self.model()),
                        decreases c.constants.len() - i,
                    {
                        assert(c.constants@.take(i + 1).drop_last() =~= c.constants@.take(i as int));
                        let value = c.constants[i].1.duplicate();
                        let k = self.constant(value);
                        self.write(Instr::constant(k), at);
                        let m = self.symbol(c.module_name.0.as_str());
                        let name = self.symbol(c.constants[i].0.as_str());
                        self.write(Instr::set_global(m, name), at);
                        i = i + 1;
                    }
                    assert(c.constants@.take(c.constants@.len() as int) =~= c.constants@);
                    self.emit_stmts(c, statements, at);
                    self.write(Instr::return_(), at);
                },
                None => {},
            },
            _ => {},
        }
    }

    fn emit_body(&mut self, c: &EmitContext, n: &Node)
        requires
            n.kind is Body,
            emitted_body(*c, *n, old(self).model()) is Some,
        ensures
            Some(final(self).model()) == emitted_body(*c, *n, old(self).model()),
            grows(old(self).model(), final(self).model()),
        decreases n, 1nat,
    {
        let at = loc(n);
        match &n.kind {
            NodeKind::Body(statements) => {
                if statements.len() == 0 {
                    self.write(Instr::push_nil(), at);
                } else {
                    self.pushed_locals.push(0);
                    self.emit_stmts(c, statements, at);
                    let ghost e1 = self.model();
                    let count = match self.pushed_locals.pop() {
                        Some(k) => k,
                        None => 0,
                    };
                    assert(self.model() =~= (Emission { pushed: e1.pushed.drop_last(), ..e1 }));
                    if count > 0 {
                        let pop = Instr::pop_locals(count);
                        proof {
                            lemma_wide(pop, OpCode::PopLocals, count);
                        }
                        self.write(pop, at);
                    }
                }
            },
            _ => {},
        }
    }

    /// A function whose code is `instr` followed by `Return`: what a builtin such as `argv`
    /// refers to.
    fn make_stub(instr: Instr, arity: usize, name: &str) -> (r: Function)
        ensures
            fn_model(r) == stub_function(instr, arity as nat, name@),
    {
        let mut chunk = Chunk::new();
        chunk.write(instr, LineCol::unknown());
        chunk.write(Instr::return_(), LineCol::unknown());
        let r = Function::new(chunk, arity, Vec::new(), name.to_owned());
        proof {
            lemma_views(r.chunk.constants@);
        }
        assert(fn_model(r) =~= stub_function(instr, arity as nat, name@));
        r
    }

    /// Adds `f` to the function table and pushes it.
    fn add_function(&mut self, f: Function, at: LineCol)
        ensures
            final(self).model() == load_new_function(old(self).model(), fn_model(f), at),
    {
        let index = self.functions.len();
        proof {
            lemma_fn_models_push(self.functions@, f);
        }
        self.functions.push(f);
        assert(self.model() =~= (Emission {
            fns: old(self).model().fns.push(fn_model(f)),
            ..old(self).model()
        }));
        self.load(Value::Function(index), at);
    }

    fn emit_builtin(&mut self, c: &EmitContext, n: &Node)
        requires
            n.kind is Builtin,
            emitted_builtin(*c, *n, old(self).model()) is Some,
        ensures
            Some(final(self).model()) == emitted_builtin(*c, *n, old(self).model()),
            grows(old(self).model(), final(self).model()),
        decreases n, 1nat,
    {
        let at = loc(n);
        match &n.kind {
            NodeKind::Builtin { identifier } => match &identifier.kind {
                NodeKind::Identifier(name) => {
                    proof {
                        reveal_strlit("argv");
                        reveal_strlit("iter");
                    }
                    if same_text(name.as_str(), "argv") {
                        let f = Self::make_stub(Instr::vm_arg(1), 0, "argv");
                        self.add_function(f, at);
                    } else if same_text(name.as_str(), "iter") {
                        let f = Self::make_stub(Instr::get_iter(), 1, "iter");
                        self.add_function(f, at);
                    } else {
                        match func(name.as_str()) {
                            Some(f) => self.load(Value::NativeFunc(f), at),
                            None => {
                                return;
                            },
                        }
                    }
                    self.emit_set(c, n);
                    self.write(Instr::push_nil(), at);
                },
                _ => {},
            },
            _ => {},
        }
    }

    /// Adds one to the number of locals the innermost block has pushed.
    fn count_local(&mut self)
        requires
            old(self).pushed_locals@.len() > 0,
            old(self).pushed_locals@.last() < usize::MAX,
        ensures
            final(self).model() == (Emission {
                pushed: old(self).model().pushed.update(
                    old(self).model().pushed.len() - 1,
                    (old(self).model().pushed.last() + 1) as usize,
                ),
                ..old(self).model()
            }),
    {
        let k = self.pushed_locals.len() - 1;
        let count = self.pushed_locals[k];
        self.pushed_locals.set(k, count + 1);
        assert(self.model() =~= (Emission {
            pushed: old(self).model().pushed.update(
                old(self).model().pushed.len() - 1,
                (old(self).model().pushed.last() + 1) as usize,
            ),
            ..old(self).model()
        }));
    }

    /// `k` instructions pushing nil; when `count`, each is a new local of the innermost block.
    fn push_nils(&mut self, k: usize, at: LineCol, count: bool)
        requires
            nils(old(self).model(), k as nat, at, count) is Some,
        ensures
            Some(final(self).model()) == nils(old(self).model(), k as nat, at, count),
            grows(old(self).model(), final(self).model()),
    {
        let ghost e0 = self.model();
        let mut i: usize = 0;
        while i < k
            invariant
                i <= k,
                nils(e0, k as nat, at, count) is Some,
                Some(self.model()) == nils(e0, i as nat, at, count),
                grows(e0, self.model()),
            decreases k - i,
        {
            proof {
                lemma_nils_prefix(e0, k as nat, at, count, (i + 1) as nat);
            }
            self.write(Instr::push_nil(), at);
            if count {
                self.count_local();
            }
            i = i + 1;
        }
    }

    fn emit_define(&mut self, c: &EmitContext, n: &Node)
        requires
            n.kind is Let || n.kind is Var,
            emitted_define(*c, *n, old(self).model()) is Some,
        ensures
            Some(final(self).model()) == emitted_define(*c, *n, old(self).model()),
            grows(old(self).model(), final(self).model()),
        decreases n, 1nat,
    {
        let (pattern, expr) = match &n.kind {
            NodeKind::Let { pattern, expr } => (pattern, expr),
            NodeKind::Var { pattern, expr } => (pattern, expr),
            _ => {
                return;
            },
        };
        match &pattern.kind {
            NodeKind::PatternIdentifier { .. } => match c.tags.variable_refs.get(
                pattern.id.local_id,
            ) {
                Some(r) => {
                    if r.allocation.is_global() {
                        self.emit(c, expr);
                        self.emit_set(c, pattern);
                    } else {
                        self.emit(c, expr);
                        self.count_local();
                    }
                },
                None => {},
            },
            _ => match self.count_pattern_locals(c, pattern) {
                Some(k) => {
                    self.push_nils(k, loc(pattern), true);
                    self.emit(c, expr);
                    self.emit_assignment_pattern(c, pattern);
                },
                None => {
                    proof {
                        if let Some(k) = pattern_locals(*c, **pattern) {
                            lemma_nils_count(self.model(), k, loc_of(**pattern));
                        }
                    }
                },
            },
        }
    }

    /// The number of stack slots the pattern binds: one per local variable it names; `None`
    /// where it cannot be counted, or the count does not fit in a `usize`.
    fn count_pattern_locals(&self, c: &EmitContext, pattern: &Node) -> (r: Option<usize>)
        ensures
            match r {
                Some(k) => pattern_locals(*c, *pattern) == Some(k as nat),
                None => pattern_locals(*c, *pattern) matches Some(k) ==> k > usize::MAX,
            },
        decreases pattern, 1nat,
    {
        match &pattern.kind {
            NodeKind::PatternIdentifier { .. } => match c.tags.variable_refs.get(
                pattern.id.local_id,
            ) {
                Some(r) => match &r.allocation {
                    VariableAllocation::Local { .. } => Some(1),
                    _ => Some(0),
                },
                None => None,
            },
            NodeKind::PatternTuple { elements } => self.count_patterns_locals(c, elements),
            _ => None,
        }
    }

    fn count_patterns_locals(&self, c: &EmitContext, elements: &Vec<Node>) -> (r: Option<usize>)
        ensures
            match r {
                Some(k) => patterns_locals(*c, elements@) == Some(k as nat),
                None => patterns_locals(*c, elements@) matches Some(k) ==> k > usize::MAX,
            },
        decreases elements@, 0nat,
    {
        let mut total: usize = 0;
        let mut i: usize = 0;
        assert(elements@.take(0) =~= Seq::<Node>::empty());
        while i < elements.len()
            invariant
                i <= elements@.len(),
                patterns_locals(*c, elements@.take(i as int)) == Some(total as nat),
            decreases elements.len() - i,
        {
            assert(elements@.take(i + 1).drop_last() =~= elements@.take(i as int));
            proof {
                lemma_locals_prefix(*c, elements@, i + 1);
                assert(elements@.take(i + 1).take(i as int) =~= elements@.take(i as int));
            }
            match self.count_pattern_locals(c, &elements[i]) {
                Some(k) => {
                    if total > usize::MAX - k {
                        return None;
                    }
                    total = total + k;
                },
                None => {
                    return None;
                },
            }
            i = i + 1;
        }
        assert(elements@.take(elements@.len() as int) =~= elements@);
        Some(total)
    }

    /// Stores the value on top of the stack into the variables of the pattern.
    fn emit_assignment_pattern(&mut self, c: &EmitContext, pattern: &Node)
        requires
            assigned(*c, *pattern, old(self).model()) is Some,
        ensures
            Some(final(self).model()) == assigned(*c, *pattern, old(self).model()),
            grows(old(self).model(), final(self).model()),
        decreases pattern, 1nat,
    {
        match &pattern.kind {
            NodeKind::PatternIdentifier { .. } => self.emit_set(c, pattern),
            NodeKind::PatternTuple { elements } => {
                self.write(Instr::unpack_tuple(elements.len()), loc(pattern));
                self.assign_elements(c, elements);
            },
            _ => {},
        }
    }

    /// Assigns the elements of an unpacked tuple, last element first.
    fn assign_elements(&mut self, c: &EmitContext, elements: &Vec<Node>)
        requires
            assigned_rev(*c, elements@, old(self).model()) is Some,
        ensures
            Some(final(self).model()) == assigned_rev(*c, elements@, old(self).model()),
            grows(old(self).model(), final(self).model()),
        decreases elements@, 0nat,
    {
        let ghost e0 = self.model();
        let mut i: usize = elements.len();
        assert(elements@.skip(i as int) =~= Seq::<Node>::empty());
        while i > 0
            invariant
                i <= elements@.len(),
                assigned_rev(*c, elements@, e0) is Some,
                Some(self.model()) == assigned_rev(*c, elements@.skip(i as int), e0),
                grows(e0, self.model()),
            decreases i,
        {
            proof {
                lemma_assigned_suffix(*c, elements@, e0, i - 1);
                assert(elements@.skip(i - 1).skip(1) =~= elements@.skip(i as int));
                assert(elements@.skip(i - 1)[0] == elements@[i - 1]);
            }
            self.emit_assignment_pattern(c, &elements[i - 1]);
            i = i - 1;
        }
        assert(elements@.skip(0) =~= elements@);
    }

    fn emit_binary(&mut self, c: &EmitContext, n: &Node)
        requires
            n.kind is BinaryOp,
            emitted_binary(*c, *n, old(self).model()) is Some,
        ensures
            Some(final(self).model()) == emitted_binary(*c, *n, old(self).model()),
            grows(old(self).model(), final(self).model()),
        decreases n, 1nat,
    {
        let at = loc(n);
        match &n.kind {
            NodeKind::BinaryOp { op, lhs, rhs } => {
                self.emit(c, lhs);
                if *op == BinOp::LogicalOr || *op == BinOp::LogicalAnd {
                    let branch = if *op == BinOp::LogicalOr {
                        Instr::branch_if_true(0)
                    } else {
                        Instr::branch_if_false(0)
                    };
                    proof {
                        if *op == BinOp::LogicalOr {
                            lemma_wide(branch, OpCode::BranchIfTrue, 0);
                        } else {
                            lemma_wide(branch, OpCode::BranchIfFalse, 0);
                        }
                    }
                    let b = self.write(branch, at);
                    self.write(Instr::pop(), at);
                    self.emit(c, rhs);
                    self.patch(b);
                } else {
                    self.emit(c, rhs);
                    let instr = match op {
                        BinOp::Add => Instr::add(),
                        BinOp::Sub => Instr::sub(),
                        BinOp::Mul => Instr::mul(),
                        BinOp::Div => Instr::div(),
                        BinOp::Gt => Instr::gt(),
                        BinOp::Gte => Instr::gte(),
                        BinOp::Lt => Instr::lt(),
                        BinOp::Lte => Instr::lte(),
                        BinOp::Eq => Instr::eq(),
                        BinOp::Neq => Instr::neq(),
                        BinOp::LogicalOr | BinOp::LogicalAnd => Instr::pop(),
                    };
                    self.write(instr, at);
                }
            },
            _ => {},
        }
    }

    fn is_tail_call(&self, c: &EmitContext, n: &Node) -> (r: bool)
        ensures
            r == is_tail_call(*c, *n),
    {
        match c.tags.return_exprs.get(n.id.local_id) {
            Some(r) => r.function != c.root,
            None => false,
        }
    }

    fn emit_call(&mut self, c: &EmitContext, n: &Node)
        requires
            n.kind is FunctionCall,
            emitted_call(*c, *n, old(self).model()) is Some,
        ensures
            Some(final(self).model()) == emitted_call(*c, *n, old(self).model()),
            grows(old(self).model(), final(self).model()),
        decreases n, 1nat,
    {
        let at = loc(n);
        match &n.kind {
            NodeKind::FunctionCall { function, args } => {
                self.emit(c, function);
                self.emit_all(c, args);
                let count = (args.len() % 256) as u8;
                if self.is_tail_call(c, n) {
                    self.write(Instr::tail_call(count), at);
                } else {
                    self.write(Instr::call(count), at);
                }
            },
            _ => {},
        }
    }

    fn emit_if(&mut self, c: &EmitContext, n: &Node)
        requires
            n.kind is If,
            emitted_if(*c, *n, old(self).model()) is Some,
        ensures
            Some(final(self).model()) == emitted_if(*c, *n, old(self).model()),
            grows(old(self).model(), final(self).model()),
        decreases n, 1nat,
    {
        let at = loc(n);
        match &n.kind {
            NodeKind::If { condition, body, else_branch } => {
                self.emit(c, condition);
                let branch = Instr::branch_if_false(0);
                proof {
                    lemma_wide(branch, OpCode::BranchIfFalse, 0);
                }
                let b = self.write(branch, at);
                // the body first pops the condition
                self.write(Instr::pop(), at);
                self.emit(c, body);
                let jump = Instr::jump(0);
                proof {
                    lemma_wide(jump, OpCode::Jump, 0);
                }
                let j = self.write(jump, at);
                // so does the else branch
                self.patch(b);
                self.write(Instr::pop(), at);
                match else_branch {
                    Some(else_branch) => self.emit(c, else_branch),
                    None => {
                        self.write(Instr::push_nil(), at);
                    },
                }
                self.patch(j);
            },
            _ => {},
        }
    }

    fn emit_function(&mut self, c: &EmitContext, n: &Node)
        requires
            n.kind is FunctionLiteral,
            emitted_function(*c, *n, old(self).model()) is Some,
        ensures
            Some(final(self).model()) == emitted_function(*c, *n, old(self).model()),
            grows(old(self).model(), final(self).model()),
        decreases n, 1nat,
    {
        let at = loc(n);
        match &n.kind {
            NodeKind::FunctionLiteral { arg_names, body } => {
                match (
                    c.tags.scopes.get(n.id.local_id),
                    c.tags.function_names.get(n.id.local_id),
                ) {
                    (Some(scope), Some(name)) => {
                        let mut functions: Vec<Function> = Vec::new();
                        core::mem::swap(&mut functions, &mut self.functions);
                        let mut inner = Emitter::new(c.module_name.0.clone(), functions);
                        inner.upvalue_sources = scope.get_upvalue_sources();
                        inner.emit(c, body);
                        inner.write(Instr::return_(), loc(body));
                        let has_upvalues = inner.upvalue_sources.len() > 0;
                        let Emitter { chunk, functions, pushed_locals: _, upvalue_sources } = inner;
                        self.functions = functions;
                        let f = Function::new(
                            chunk,
                            arg_names.len(),
                            upvalue_sources,
                            name.name.clone(),
                        );
                        self.add_function(f, at);
                        if has_upvalues {
                            self.write(Instr::closure(), at);
                        }
                    },
                    _ => {},
                }
            },
            _ => {},
        }
    }

    fn emit_collection(&mut self, c: &EmitContext, n: &Node)
        requires
            n.kind is ListLiteral || n.kind is TupleLiteral || n.kind is DictLiteral,
            emitted_collection(*c, *n, old(self).model()) is Some,
        ensures
            Some(final(self).model()) == emitted_collection(*c, *n, old(self).model()),
            grows(old(self).model(), final(self).model()),
        decreases n, 1nat,
    {
        let at = loc(n);
        match n.compile_time_value() {
            Some(v) => self.load(v, at),
            None => match &n.kind {
                NodeKind::ListLiteral(items) => {
                    self.emit_all(c, items);
                    let make = Instr::make_list(items.len());
                    proof {
                        lemma_wide(make, OpCode::MakeList, items.len());
                    }
                    self.write(make, at);
                },
                NodeKind::TupleLiteral(items) => {
                    self.emit_all(c, items);
                    let make = Instr::make_tuple(items.len());
                    proof {
                        lemma_wide(make, OpCode::MakeTuple, items.len());
                    }
                    self.write(make, at);
                },
                NodeKind::DictLiteral(pairs) => {
                    self.emit_pairs(c, pairs);
                    let make = Instr::make_dict(pairs.len());
                    proof {
                        lemma_wide(make, OpCode::MakeDict, pairs.len());
                    }
                    self.write(make, at);
                },
                _ => {},
            },
        }
    }

    fn emit_struct(&mut self, c: &EmitContext, n: &Node)
        requires
            n.kind is StructLiteral,
            emitted_struct(*c, *n, old(self).model()) is Some,
        ensures
            Some(final(self).model()) == emitted_struct(*c, *n, old(self).model()),
            grows(old(self).model(), final(self).model()),
        decreases n, 1nat,
    {
        let at = loc(n);
        match &n.kind {
            NodeKind::StructLiteral { module: _, fields } => match c.tags.referenced_structs.get(
                n.id.local_id,
            ) {
                Some(rs) => {
                    let info = &rs.struct_info;
                    let m = self.symbol(info.module_name.0.as_str());
                    self.emit_fields(c, fields, &info.fields, &info.default_values, at);
                    self.write(Instr::make_struct(m, info.fields.len()), at);
                },
                None => {},
            },
            _ => {},
        }
    }

    /// Each field of the struct in declaration order: its name, then the literal's value for
    /// it, or else its default value.
    fn emit_fields(
        &mut self,
        c: &EmitContext,
        lit: &Vec<(Node, Node)>,
        names: &Vec<String>,
        defaults: &Vec<(String, Value)>,
        at: LineCol,
    )
        requires
            emitted_fields(*c, lit@, names@, defaults@, at, old(self).model()) is Some,
        ensures
            Some(final(self).model()) == emitted_fields(*c, lit@, names@, defaults@, at, old(self).model()),
            grows(old(self).model(), final(self).model()),
        decreases lit@, 0nat,
    {
        let ghost e0 = self.model();
        assert(names@.take(0) =~= Seq::<String>::empty());
        let mut i: usize = 0;
        while i < names.len()
            invariant
                i <= names@.len(),
                emitted_fields(*c, lit@, names@, defaults@, at, e0) is Some,
                Some(self.model()) == emitted_fields(*c, lit@, names@.take(i as int), defaults@, at, e0),
                grows(e0, self.model()),
            decreases names.len() - i,
        {
            proof {
                lemma_fields_prefix(*c, lit@, names@, defaults@, at, e0, i + 1);
                assert(names@.take(i + 1).drop_last() =~= names@.take(i as int));
            }
            let field = names[i].as_str();
            self.load(Value::Symbol(field.to_owned()), at);
            match literal_field_of(lit, field) {
                Some(j) => self.emit(c, &lit[j].1),
                None => match default_value_of(defaults, field) {
                    Some(d) => self.load(d.duplicate(), at),
                    None => {},
                },
            }
            i = i + 1;
        }
        assert(names@.take(names@.len() as int) =~= names@);
    }

    fn emit_field_access(&mut self, c: &EmitContext, n: &Node)
        requires
            n.kind is FieldAccess,
            emitted_field_access(*c, *n, old(self).model()) is Some,
        ensures
            Some(final(self).model()) == emitted_field_access(*c, *n, old(self).model()),
            grows(old(self).model(), final(self).model()),
        decreases n, 1nat,
    {
        let at = loc(n);
        match &n.kind {
            NodeKind::FieldAccess { object, key } => match &key.kind {
                NodeKind::Identifier(name) => match c.tags.module_refs.get(object.id.local_id) {
                    Some(r) => {
                        let m = self.symbol(r.module_name.0.as_str());
                        let k = self.symbol(name.as_str());
                        self.write(Instr::get_global(m, k), at);
                    },
                    None => {
                        self.emit(c, object);
                        self.load(Value::String(name.clone()), at);
                        self.write(Instr::get_field(), at);
                    },
                },
                _ => {},
            },
            _ => {},
        }
    }

    fn emit_field_assignment(&mut self, c: &EmitContext, n: &Node)
        requires
            n.kind is FieldAssignment,
            emitted_field_assignment(*c, *n, old(self).model()) is Some,
        ensures
            Some(final(self).model()) == emitted_field_assignment(*c, *n, old(self).model()),
            grows(old(self).model(), final(self).model()),
        decreases n, 1nat,
    {
        let at = loc(n);
        match &n.kind {
            NodeKind::FieldAssignment { variable_ref, path, expr } => {
                let last = path.len() - 1;
                self.emit_get(c, variable_ref);
                self.emit_path(c, path, at);
                self.emit_last_key(c, path, at);
                self.emit(c, expr);
                match &path[last].kind {
                    NodeKind::FieldAssignmentPathField { .. } => {
                        self.write(Instr::set_field(), at);
                    },
                    _ => {
                        self.write(Instr::set_subscript(), at);
                    },
                }
                self.store_path(path, at);
                self.emit_set(c, variable_ref);
                self.write(Instr::push_nil(), at);
            },
            _ => {},
        }
    }

    /// Reads along the path, all but its last step, keeping each object and key on the stack.
    fn emit_path(&mut self, c: &EmitContext, path: &Vec<Node>, at: LineCol)
        requires
            path@.len() > 0,
            emitted_path(*c, path@.drop_last(), at, old(self).model()) is Some,
        ensures
            Some(final(self).model()) == emitted_path(*c, path@.drop_last(), at, old(self).model()),
            grows(old(self).model(), final(self).model()),
        decreases path@, 0nat,
    {
        let ghost front = path@.drop_last();
        let ghost e1 = self.model();
        let last = path.len() - 1;
        assert(path@.take(0) =~= Seq::<Node>::empty());
        let mut i: usize = 0;
        while i < last
            invariant
                last == path@.len() - 1,
                i <= last,
                front == path@.take(last as int),
                emitted_path(*c, front, at, e1) is Some,
                Some(self.model()) == emitted_path(*c, path@.take(i as int), at, e1),
                grows(e1, self.model()),
            decreases last - i,
        {
            proof {
                lemma_path_prefix(*c, front, at, e1, i + 1);
                assert(front.take(i + 1) =~= path@.take(i + 1));
                assert(path@.take(i + 1).drop_last() =~= path@.take(i as int));
            }
            match &path[i].kind {
                NodeKind::FieldAssignmentPathField { key } => match &key.kind {
                    NodeKind::Identifier(name) => {
                        self.load(Value::String(name.clone()), at);
                        self.write(Instr::dup(1), at);
                        self.write(Instr::dup(1), at);
                        self.write(Instr::get_field(), at);
                    },
                    _ => {},
                },
                NodeKind::FieldAssignmentPathSubscript { key } => {
                    self.emit(c, key);
                    self.write(Instr::dup(1), at);
                    self.write(Instr::dup(1), at);
                    self.write(Instr::get_subscript(), at);
                },
                _ => {},
            }
            i = i + 1;
        }
        assert(path@.take(last as int) =~= front);
    }

    /// The key of the path's last step: the field's name, or the subscript's value.
    fn emit_last_key(&mut self, c: &EmitContext, path: &Vec<Node>, at: LineCol)
        requires
            path@.len() > 0,
            last_key(*c, path@.last(), at, old(self).model()) is Some,
        ensures
            Some(final(self).model()) == last_key(*c, path@.last(), at, old(self).model()),
            grows(old(self).model(), final(self).model()),
        decreases path@, 0nat,
    {
        let last = path.len() - 1;
        match &path[last].kind {
            NodeKind::FieldAssignmentPathField { key } => match &key.kind {
                NodeKind::Identifier(name) => self.load(Value::String(name.clone()), at),
                _ => {},
            },
            NodeKind::FieldAssignmentPathSubscript { key } => self.emit(c, key),
            _ => {},
        }
    }

    /// Writes each object of the path (all but its last step) back into the one it came
    /// from, innermost first.
    fn store_path(&mut self, path: &Vec<Node>, at: LineCol)
        requires
            path@.len() > 0,
            stored_path(path@.drop_last(), at, old(self).model()) is Some,
        ensures
            Some(final(self).model()) == stored_path(path@.drop_last(), at, old(self).model()),
            grows(old(self).model(), final(self).model()),
    {
        let ghost front = path@.drop_last();
        let ghost e3 = self.model();
        let last = path.len() - 1;
        let mut k: usize = last;
        assert(front.skip(last as int) =~= Seq::<Node>::empty());
        while k > 0
            invariant
                k <= last,
                last == path@.len() - 1,
                front == path@.take(last as int),
                stored_path(front, at, e3) is Some,
                Some(self.model()) == stored_path(front.skip(k as int), at, e3),
                grows(e3, self.model()),
            decreases k,
        {
            proof {
                lemma_stored_suffix(front, at, e3, k - 1);
                assert(front.skip(k - 1).skip(1) =~= front.skip(k as int));
                assert(front.skip(k - 1)[0] == path@[k - 1]);
            }
            match &path[k - 1].kind {
                NodeKind::FieldAssignmentPathField { .. } => {
                    self.write(Instr::set_field(), at);
                },
                _ => {
                    self.write(Instr::set_subscript(), at);
                },
            }
            k = k - 1;
        }
        assert(front.skip(0) =~= front);
    }

    fn emit_for(&mut self, c: &EmitContext, n: &Node)
        requires
            n.kind is For,
            emitted_for(*c, *n, old(self).model()) is Some,
        ensures
            Some(final(self).model()) == emitted_for(*c, *n, old(self).model()),
            grows(old(self).model(), final(self).model()),
        decreases n, 1nat,
    {
        let at = loc(n);
        match &n.kind {
            NodeKind::For { pattern, enumerable, body } => {
                // the iterator
                self.emit(c, enumerable);
                self.write(Instr::get_iter(), at);
                let is_complex_pattern = !matches!(&pattern.kind, NodeKind::PatternIdentifier { .. });
                let pattern_locals = match self.count_pattern_locals(c, pattern) {
                    Some(k) => k,
                    None => {
                        return;
                    },
                };
                let loop_start = self.chunk.label("loop_start");
                // call the iterator, leave the loop when it is exhausted
                self.write(Instr::call_iter(), at);
                let exit = Instr::for_iter(0);
                proof {
                    lemma_wide(exit, OpCode::ForIter, 0);
                }
                let loop_exit_branch = self.write(exit, at);
                if is_complex_pattern {
                    // room for the pattern's locals, then the item unpacked into them
                    self.push_nils(pattern_locals, at, false);
                    self.write(Instr::dup((pattern_locals % 256) as u8), at);
                    self.emit_assignment_pattern(c, pattern);
                }
                // (a single variable already sits in the loop's local slot)
                self.emit(c, body);
                // drop the loop variable and the pattern's locals, keeping the body's value
                let mut locals_to_pop: usize = 1;
                if is_complex_pattern {
                    locals_to_pop = locals_to_pop + pattern_locals;
                }
                let pop = Instr::pop_locals(locals_to_pop);
                proof {
                    lemma_wide(pop, OpCode::PopLocals, locals_to_pop);
                }
                self.write(pop, at);
                // then the body's value itself
                self.write(Instr::pop(), at);
                let ghost e8 = self.model();
                self.chunk.write_jump_back(loop_start, at);
                proof {
                    lemma_wide(
                        self.chunk.code@.last(),
                        OpCode::JumpBack,
                        (e8.code.len() - loop_start) as usize,
                    );
                    assert(self.chunk.code@ =~= e8.code.push(self.chunk.code@.last()));
                }
                assert(self.model() =~= put(
                    e8,
                    wide(OpCode::JumpBack, (e8.code.len() - loop_start) as nat),
                    at,
                ));
                self.patch(loop_exit_branch);
                // the loop variable's slot (nil by now) and the iterator
                self.write(Instr::pop(), at);
                self.write(Instr::pop(), at);
                // a loop evaluates to nil
                self.write(Instr::push_nil(), at);
            },
            _ => {},
        }
    }
}

/// Compiles a module's top level `ast` into the function that runs it.  The functions nested
/// in it are added to `functions`, the program's function table, which their code refers to by
/// position.
pub fn emit_bytecode_phase(c: &EmitContext, ast: &Node, functions: &mut Vec<Function>) -> (r:
    Function)
    requires
        compiled_module(*c, *ast, fn_models(old(functions)@)) is Some,
    ensures
        compiled_module(*c, *ast, fn_models(old(functions)@)) == Some(
            (fn_model(r), fn_models(final(functions)@)),
        ),
{
    let mut table: Vec<Function> = Vec::new();
    core::mem::swap(&mut table, functions);
    let mut emitter = Emitter::new(c.module_name.0.clone(), table);
    assert(emitter.model() == module_start(*c, fn_models(old(functions)@)));
    emitter.emit(c, ast);
    let name = match c.tags.function_names.get(ast.id.local_id) {
        Some(n) => n.name.clone(),
        None => String::new(),
    };
    let Emitter { chunk, functions: table, pushed_locals: _, upvalue_sources } = emitter;
    *functions = table;
    let r = Function::new(chunk, 0, upvalue_sources, name);
    proof {
        lemma_views(r.chunk.constants@);
    }
    r
}

/// Whether two texts are the same.
fn same_text(a: &str, b: &str) -> (r: bool)
    ensures
        r == (a@ == b@),
{
    proof {
        lemma_order_chars(a@, b@);
    }
    compare_str(a, b) == Order::Equal
}

/// The position of the last field of a struct literal named `name`.
fn literal_field_of(fields: &Vec<(Node, Node)>, name: &str) -> (r: Option<usize>)
    ensures
        match r {
            Some(j) => literal_field(fields@, name@) == Some(j as int) && j < fields@.len(),
            None => literal_field(fields@, name@) is None,
        },
{
    let mut i = fields.len();
    assert(fields@.take(i as int) =~= fields@);
    while i > 0
        invariant
            i <= fields@.len(),
            literal_field(fields@, name@) == literal_field(fields@.take(i as int), name@),
        decreases i,
    {
        assert(fields@.take(i as int).drop_last() =~= fields@.take(i - 1));
        match &fields[i - 1].0.kind {
            NodeKind::Identifier(key) => {
                if same_text(key.as_str(), name) {
                    return Some(i - 1);
                }
            },
            _ => {},
        }
        i = i - 1;
    }
    None
}

/// The default value of field `name`, the last one given.
fn default_value_of<'a>(defaults: &'a Vec<(String, Value)>, name: &str) -> (r: Option<&'a Value>)
    ensures
        match r {
            Some(v) => default_of(defaults@, name@) == Some(v@),
            None => default_of(defaults@, name@) is None,
        },
{
    let mut i = defaults.len();
    assert(defaults@.take(i as int) =~= defaults@);
    while i > 0
        invariant
            i <= defaults@.len(),
            default_of(defaults@, name@) == default_of(defaults@.take(i as int), name@),
        decreases i,
    {
        assert(defaults@.take(i as int).drop_last() =~= defaults@.take(i - 1));
        if same_text(defaults[i - 1].0.as_str(), name) {
            return Some(&defaults[i - 1].1);
        }
        i = i - 1;
    }
    None
}

proof fn lemma_stmts_prefix(c: EmitContext, ns: Seq<Node>, at: LineCol, e: Emission, k: int)
    requires
        emitted_stmts(c, ns, at, e) is Some,
        0 <= k <= ns.len(),
    ensures
        emitted_stmts(c, ns.take(k), at, e) is Some,
    decreases ns.len(),
{
    if k == ns.len() {
        assert(ns.take(k) =~= ns);
    } else {
        lemma_stmts_prefix(c, ns.drop_last(), at, e, k);
        assert(ns.drop_last().take(k) =~= ns.take(k));
    }
}

proof fn lemma_all_prefix(c: EmitContext, ns: Seq<Node>, e: Emission, k: int)
    requires
        emitted_all(c, ns, e) is Some,
        0 <= k <= ns.len(),
    ensures
        emitted_all(c, ns.take(k), e) is Some,
    decreases ns.len(),
{
    if k == ns.len() {
        assert(ns.take(k) =~= ns);
    } else {
        lemma_all_prefix(c, ns.drop_last(), e, k);
        assert(ns.drop_last().take(k) =~= ns.take(k));
    }
}

proof fn lemma_pairs_prefix(c: EmitContext, ps: Seq<(Node, Node)>, e: Emission, k: int)
    requires
        emitted_pairs(c, ps, e) is Some,
        0 <= k <= ps.len(),
    ensures
        emitted_pairs(c, ps.take(k), e) is Some,
    decreases ps.len(),
{
    if k == ps.len() {
        assert(ps.take(k) =~= ps);
    } else {
        lemma_pairs_prefix(c, ps.drop_last(), e, k);
        assert(ps.drop_last().take(k) =~= ps.take(k));
    }
}

proof fn lemma_path_prefix(c: EmitContext, ps: Seq<Node>, at: LineCol, e: Emission, k: int)
    requires
        emitted_path(c, ps, at, e) is Some,
        0 <= k <= ps.len(),
    ensures
        emitted_path(c, ps.take(k), at, e) is Some,
    decreases ps.len(),
{
    if k == ps.len() {
        assert(ps.take(k) =~= ps);
    } else {
        lemma_path_prefix(c, ps.drop_last(), at, e, k);
        assert(ps.drop_last().take(k) =~= ps.take(k));
    }
}

proof fn lemma_fields_prefix(
    c: EmitContext,
    lit: Seq<(Node, Node)>,
    names: Seq<String>,
    defaults: Seq<(String, Value)>,
    at: LineCol,
    e: Emission,
    k: int,
)
    requires
        emitted_fields(c, lit, names, defaults, at, e) is Some,
        0 <= k <= names.len(),
    ensures
        emitted_fields(c, lit, names.take(k), defaults, at, e) is Some,
    decreases names.len(),
{
    if k == names.len() {
        assert(names.take(k) =~= names);
    } else {
        lemma_fields_prefix(c, lit, names.drop_last(), defaults, at, e, k);
        assert(names.drop_last().take(k) =~= names.take(k));
    }
}

proof fn lemma_locals_prefix(c: EmitContext, ps: Seq<Node>, k: int)
    requires
        0 <= k <= ps.len(),
    ensures
        patterns_locals(c, ps) is Some ==> patterns_locals(c, ps.take(k)) is Some
            && patterns_locals(c, ps.take(k)).unwrap() <= patterns_locals(c, ps).unwrap()
            && (k > 0 ==> pattern_locals(c, ps[k - 1]) is Some
                && patterns_locals(c, ps.take(k - 1)).unwrap() + pattern_locals(c, ps[k - 1]).unwrap()
                <= patterns_locals(c, ps).unwrap()),
    decreases ps.len(),
{
    if k == ps.len() {
        assert(ps.take(k) =~= ps);
        if k > 0 {
            assert(ps.take(k - 1) =~= ps.drop_last());
        }
    } else {
        lemma_locals_prefix(c, ps.drop_last(), k);
        assert(ps.drop_last().take(k) =~= ps.take(k));
        if k > 0 {
            assert(ps.drop_last().take(k - 1) =~= ps.take(k - 1));
            assert(ps.drop_last()[k - 1] == ps[k - 1]);
        }
    }
}

proof fn lemma_nils_prefix(e: Emission, k: nat, at: LineCol, count: bool, i: nat)
    requires
        nils(e, k, at, count) is Some,
        i <= k,
    ensures
        nils(e, i, at, count) is Some,
    decreases k,
{
    if i < k {
        lemma_nils_prefix(e, (k - 1) as nat, at, count, i);
    }
}

/// Each counted nil adds one to the innermost block's locals.
proof fn lemma_nils_count(e: Emission, k: nat, at: LineCol)
    requires
        nils(e, k, at, true) is Some,
        k > 0,
    ensures
        e.pushed.len() > 0,
        e.pushed.last() + k <= usize::MAX,
        nils(e, k, at, true).unwrap().pushed.len() == e.pushed.len(),
        nils(e, k, at, true).unwrap().pushed.last() == e.pushed.last() + k,
    decreases k,
{
    if k == 1 {
        assert(nils(e, 0, at, true) == Some(e));
    } else {
        lemma_nils_count(e, (k - 1) as nat, at);
    }
}

proof fn lemma_assigned_suffix(c: EmitContext, ps: Seq<Node>, e: Emission, k: int)
    requires
        assigned_rev(c, ps, e) is Some,
        0 <= k <= ps.len(),
    ensures
        assigned_rev(c, ps.skip(k), e) is Some,
    decreases k,
{
    if k == 0 {
        assert(ps.skip(0) =~= ps);
    } else {
        lemma_assigned_suffix(c, ps, e, k - 1);
        let s = ps.skip(k - 1);
        assert(s.skip(1) =~= ps.skip(k));
        assert(assigned_rev(c, s, e) is Some);
        assert(assigned_rev(c, s.skip(1), e) is Some);
    }
}

proof fn lemma_stored_suffix(ps: Seq<Node>, at: LineCol, e: Emission, k: int)
    requires
        stored_path(ps, at, e) is Some,
        0 <= k <= ps.len(),
    ensures
        stored_path(ps.skip(k), at, e) is Some,
    decreases k,
{
    if k == 0 {
        assert(ps.skip(0) =~= ps);
    } else {
        lemma_stored_suffix(ps, at, e, k - 1);
        let s = ps.skip(k - 1);
        assert(s.skip(1) =~= ps.skip(k));
        assert(stored_path(s, at, e) is Some);
        assert(stored_path(s.skip(1), at, e) is Some);
    }
}

} // verus!

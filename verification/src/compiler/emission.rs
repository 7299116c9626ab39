use vstd::prelude::*;

use crate::ast::{constant_value, BinOp, Node, NodeKind, UnaryOp};
use crate::line_col::LineCol;
use crate::module::ModuleName;
use crate::native_funcs::{native_named, NativeFunc};
use crate::program::{module_position, Program};
use crate::value::{views, Val, Value};
use crate::vm::chunk::first_index;
use crate::vm::function::{Function, UpvalueSource};
use crate::vm::inst::{Instr, OpCode};
use crate::vm::pattern::Pattern;
use crate::vm::semantics::{execute, with_stack, Step, VmView};
use crate::ops::{bin_op, unary_op};

use super::tags::Tags;
use super::variable::VariableAllocation;

verus! {

/// What code generation reads of a module's compilation: the module's name and the number of
/// its top-level node, the constants it defines (in the order they are set up), the facts the
/// earlier phases attached to its nodes, and the modules compiled before it.
#[derive(Debug)]
pub struct EmitContext {
    pub module_name: ModuleName,
    pub root: u32,
    pub constants: Vec<(String, Value)>,
    pub tags: Tags,
    pub program: Program,
}

/// The model of a compiled function.
#[verifier::ext_equal]
pub struct FnModel {
    pub code: Seq<Instr>,
    pub locs: Seq<LineCol>,
    pub consts: Seq<Val>,
    pub patterns: Seq<Pattern>,
    pub source_file: Seq<char>,
    pub arity: nat,
    pub upvalues: Seq<UpvalueSource>,
    pub name: Seq<char>,
}

pub open spec fn fn_model(f: Function) -> FnModel {
    FnModel {
        code: f.chunk.code@,
        locs: f.chunk.source_locs@,
        consts: views(f.chunk.constants@),
        patterns: f.chunk.patterns@,
        source_file: f.chunk.source_file@,
        arity: f.arity as nat,
        upvalues: f.upvalue_sources@,
        name: f.debug_name@,
    }
}

pub open spec fn fn_models(fs: Seq<Function>) -> Seq<FnModel> {
    Seq::new(fs.len(), |i: int| fn_model(fs[i]))
}

/// The model of code generation in progress: the code of the function being emitted with the
/// source location of each instruction, its constants, patterns and source file, the program's
/// function table, the number of locals each open block has pushed, and where the function's
/// closure finds its upvalues.
#[verifier::ext_equal]
pub struct Emission {
    pub code: Seq<Instr>,
    pub locs: Seq<LineCol>,
    pub consts: Seq<Val>,
    pub patterns: Seq<Pattern>,
    pub source_file: Seq<char>,
    pub fns: Seq<FnModel>,
    pub pushed: Seq<usize>,
    pub upvalues: Seq<UpvalueSource>,
}

/// The instruction with the given opcode and operand bytes.
pub open spec fn plain(op: OpCode, a0: u8, a1: u8, a2: u8) -> Instr {
    Instr { op, arg0: a0, arg1: a1, arg2: a2 }
}

/// The instruction with the given opcode and no operand.
pub open spec fn op0(op: OpCode) -> Instr {
    plain(op, 0, 0, 0)
}

/// `n` modulo 256, as a byte.
pub open spec fn byte(n: nat) -> u8 {
    (n % 256) as u8
}

/// The instruction with the given opcode and 24-bit operand `n` (truncated).
pub open spec fn wide(op: OpCode, n: nat) -> Instr {
    Instr { op, arg0: byte(n), arg1: byte(n / 256), arg2: byte(n / 65536) }
}

/// The source location code for `n` is attributed to.
pub open spec fn loc_of(n: Node) -> LineCol {
    LineCol { line: n.source.line, col: n.source.col }
}

/// Appends an instruction.
pub open spec fn put(e: Emission, i: Instr, at: LineCol) -> Emission {
    Emission { code: e.code.push(i), locs: e.locs.push(at), ..e }
}

/// The constants once `v` is among them, and its index (as a byte): an equal constant is
/// reused.
pub open spec fn slot(cs: Seq<Val>, v: Val) -> (Seq<Val>, u8) {
    match first_index(cs, v) {
        Some(i) => (cs, (i % 256) as u8),
        None => (cs.push(v), byte(cs.len())),
    }
}

pub open spec fn with_const(e: Emission, v: Val) -> (Emission, u8) {
    (Emission { consts: slot(e.consts, v).0, ..e }, slot(e.consts, v).1)
}

/// Appends an instruction that pushes `v`.
pub open spec fn load(e: Emission, v: Val, at: LineCol) -> Emission {
    put(with_const(e, v).0, plain(OpCode::Constant, with_const(e, v).1, 0, 0), at)
}

/// Points the jump at `at` just past the end of the code.
pub open spec fn patched(e: Emission, at: int) -> Emission {
    Emission { code: e.code.update(at, wide(e.code[at].op, (e.code.len() - at - 1) as nat)), ..e }
}

/// `k` instructions pushing nil, each a new local of the innermost block.
pub open spec fn nils(e: Emission, k: nat, at: LineCol, count: bool) -> Option<Emission>
    decreases k,
{
    if k == 0 {
        Some(e)
    } else {
        match nils(e, (k - 1) as nat, at, count) {
            Some(e1) => if !count {
                Some(put(e1, op0(OpCode::PushNil), at))
            } else if e1.pushed.len() > 0 && e1.pushed.last() < usize::MAX {
                Some(
                    Emission {
                        pushed: e1.pushed.update(
                            e1.pushed.len() - 1,
                            (e1.pushed.last() + 1) as usize,
                        ),
                        ..put(e1, op0(OpCode::PushNil), at)
                    },
                )
            } else {
                None
            },
            None => None,
        }
    }
}

/// How compiled code reaches the variable that `n` names or defines.
pub open spec fn alloc_of(c: EmitContext, n: Node) -> Option<VariableAllocation> {
    match c.tags.variable_refs.tag_of(n.id.local_id) {
        Some(r) => Some(r.allocation),
        None => None,
    }
}

/// Stores the top of the stack into the variable of `n`.
pub open spec fn emitted_set(c: EmitContext, n: Node, e: Emission) -> Option<Emission> {
    match alloc_of(c, n) {
        Some(VariableAllocation::Global { module, name }) => {
            let (e1, m) = with_const(e, Val::Symbol(module.0@));
            let (e2, k) = with_const(e1, Val::Symbol(name@));
            Some(put(e2, plain(OpCode::SetGlobal, m, k, 0), loc_of(n)))
        },
        Some(VariableAllocation::Upvalue { upvalue_index, .. }) => Some(
            put(e, plain(OpCode::SetUpvalue, byte(upvalue_index as nat), 0, 0), loc_of(n)),
        ),
        Some(VariableAllocation::Local { index }) => Some(
            put(e, plain(OpCode::SetLocal, byte(index as nat), 0, 0), loc_of(n)),
        ),
        None => None,
    }
}

/// Pushes the value of the variable of `n`.
pub open spec fn emitted_get(c: EmitContext, n: Node, e: Emission) -> Option<Emission> {
    match alloc_of(c, n) {
        Some(VariableAllocation::Global { module, name }) => {
            let (e1, m) = with_const(e, Val::Symbol(module.0@));
            let (e2, k) = with_const(e1, Val::Symbol(name@));
            Some(put(e2, plain(OpCode::GetGlobal, m, k, 0), loc_of(n)))
        },
        Some(VariableAllocation::Upvalue { upvalue_index, .. }) => Some(
            put(e, plain(OpCode::GetUpvalue, byte(upvalue_index as nat), 0, 0), loc_of(n)),
        ),
        Some(VariableAllocation::Local { index }) => Some(
            put(e, plain(OpCode::GetLocal, byte(index as nat), 0, 0), loc_of(n)),
        ),
        None => None,
    }
}

/// The number of stack slots a destructuring pattern binds: one per local variable it names.
pub open spec fn pattern_locals(c: EmitContext, p: Node) -> Option<nat>
    decreases p,
{
    match p.kind {
        NodeKind::PatternIdentifier { .. } => match alloc_of(c, p) {
            Some(VariableAllocation::Local { .. }) => Some(1),
            Some(_) => Some(0),
            None => None,
        },
        NodeKind::PatternTuple { elements } => patterns_locals(c, elements@),
        _ => None,
    }
}

pub open spec fn patterns_locals(c: EmitContext, ps: Seq<Node>) -> Option<nat>
    decreases ps,
{
    if ps.len() == 0 {
        Some(0)
    } else {
        match (patterns_locals(c, ps.drop_last()), pattern_locals(c, ps.last())) {
            (Some(a), Some(b)) => Some(a + b),
            _ => None,
        }
    }
}

/// Stores the value on top of the stack into the variables of pattern `p`, unpacking tuples.
pub open spec fn assigned(c: EmitContext, p: Node, e: Emission) -> Option<Emission>
    decreases p,
{
    match p.kind {
        NodeKind::PatternIdentifier { .. } => emitted_set(c, p, e),
        NodeKind::PatternTuple { elements } => assigned_rev(
            c,
            elements@,
            put(e, plain(OpCode::UnpackTuple, byte(elements@.len()), 0, 0), loc_of(p)),
        ),
        _ => None,
    }
}

/// Assigns the unpacked elements, last element first.
pub open spec fn assigned_rev(c: EmitContext, ps: Seq<Node>, e: Emission) -> Option<Emission>
    decreases ps,
{
    if ps.len() == 0 {
        Some(e)
    } else {
        match assigned_rev(c, ps.skip(1), e) {
            Some(e1) => assigned(c, ps[0], e1),
            None => None,
        }
    }
}

/// The name of an identifier node.
pub open spec fn ident(n: Node) -> Option<Seq<char>> {
    match n.kind {
        NodeKind::Identifier(s) => Some(s@),
        _ => None,
    }
}

/// The instruction of a binary operator other than `||` and `&&`.
pub open spec fn bin_instr(op: BinOp) -> Instr {
    match op {
        BinOp::Add => op0(OpCode::Add),
        BinOp::Sub => op0(OpCode::Sub),
        BinOp::Mul => op0(OpCode::Mul),
        BinOp::Div => op0(OpCode::Div),
        BinOp::Gt => op0(OpCode::Gt),
        BinOp::Gte => op0(OpCode::Gte),
        BinOp::Lt => op0(OpCode::Lt),
        BinOp::Lte => op0(OpCode::Lte),
        BinOp::Eq => op0(OpCode::Eq),
        BinOp::Neq => op0(OpCode::Neq),
        BinOp::LogicalOr => op0(OpCode::BranchIfTrue),
        BinOp::LogicalAnd => op0(OpCode::BranchIfFalse),
    }
}

/// A function whose code is `code` followed by `Return`, with no constants and no location.
pub open spec fn stub_function(code: Instr, arity: nat, name: Seq<char>) -> FnModel {
    FnModel {
        code: seq![code, op0(OpCode::Return)],
        locs: seq![LineCol { line: 0, col: 0 }, LineCol { line: 0, col: 0 }],
        consts: Seq::empty(),
        patterns: Seq::empty(),
        source_file: Seq::empty(),
        arity,
        upvalues: Seq::empty(),
        name,
    }
}

/// Adds `f` to the function table and pushes it.
pub open spec fn load_new_function(e: Emission, f: FnModel, at: LineCol) -> Emission {
    load(Emission { fns: e.fns.push(f), ..e }, Val::Function(e.fns.len() as usize), at)
}

/// The code for node `n`: it leaves the node's value on top of the stack.  `None` where code
/// generation fails: a node that cannot be compiled, or a fact about a node that the earlier
/// phases should have attached and did not.
pub open spec fn emitted(c: EmitContext, n: Node, e: Emission) -> Option<Emission>
    decreases n, 2nat,
{
    let at = loc_of(n);
    match n.kind {
        NodeKind::SourceFile(_) => emitted_source_file(c, n, e),
        NodeKind::Module(_) => Some(put(e, op0(OpCode::PushNil), at)),
        NodeKind::StructDef { .. } => Some(put(e, op0(OpCode::PushNil), at)),
        NodeKind::Import(kind) => match module_position(
            c.program.modules@,
            kind.spec_module_name(),
        ) {
            Some(i) => Some(
                put(
                    load(e, Val::Function(c.program.modules@[i].function), at),
                    plain(OpCode::Call, 0, 0, 0),
                    at,
                ),
            ),
            None => None,
        },
        NodeKind::Body(_) => emitted_body(c, n, e),
        NodeKind::Builtin { .. } => emitted_builtin(c, n, e),
        NodeKind::Let { .. } => match emitted_define(c, n, e) {
            Some(e1) => Some(put(e1, op0(OpCode::PushNil), at)),
            None => None,
        },
        NodeKind::Var { .. } => match emitted_define(c, n, e) {
            Some(e1) => Some(put(e1, op0(OpCode::PushNil), at)),
            None => None,
        },
        NodeKind::Assignment { pattern, expr } => match emitted(c, *expr, e) {
            Some(e1) => match assigned(c, *pattern, e1) {
                Some(e2) => Some(put(e2, op0(OpCode::PushNil), at)),
                None => None,
            },
            None => None,
        },
        NodeKind::NilLiteral => Some(load(e, Val::Nil, at)),
        NodeKind::BoolLiteral(b) => Some(load(e, Val::Bool(b), at)),
        NodeKind::StringLiteral(s) => Some(load(e, Val::Str(s@), at)),
        NodeKind::IntegerLiteral(i) => Some(load(e, Val::Int(i), at)),
        NodeKind::VariableRef { .. } => emitted_get(c, n, e),
        NodeKind::BinaryOp { .. } => emitted_binary(c, n, e),
        NodeKind::UnaryOp { op, rhs } => match emitted(c, *rhs, e) {
            Some(e1) => Some(
                put(
                    e1,
                    match op {
                        UnaryOp::Neg => op0(OpCode::Neg),
                        UnaryOp::LogicalNeg => op0(OpCode::LogicalNeg),
                    },
                    at,
                ),
            ),
            None => None,
        },
        NodeKind::FunctionCall { .. } => emitted_call(c, n, e),
        NodeKind::If { .. } => emitted_if(c, n, e),
        NodeKind::FunctionLiteral { .. } => emitted_function(c, n, e),
        NodeKind::ListLiteral(_) => emitted_collection(c, n, e),
        NodeKind::TupleLiteral(_) => emitted_collection(c, n, e),
        NodeKind::DictLiteral(_) => emitted_collection(c, n, e),
        NodeKind::StructLiteral { .. } => emitted_struct(c, n, e),
        NodeKind::FieldAccess { .. } => emitted_field_access(c, n, e),
        NodeKind::Subscript { object, key } => match emitted(c, *object, e) {
            Some(e1) => match emitted(c, *key, e1) {
                Some(e2) => Some(put(e2, op0(OpCode::GetSubscript), at)),
                None => None,
            },
            None => None,
        },
        NodeKind::FieldAssignment { .. } => emitted_field_assignment(c, n, e),
        NodeKind::For { .. } => emitted_for(c, n, e),
        _ => None,
    }
}

/// Statements one after the other, the value of each but the last popped.
pub open spec fn emitted_stmts(c: EmitContext, ns: Seq<Node>, at: LineCol, e: Emission) -> Option<
    Emission,
>
    decreases ns, 0nat,
{
    if ns.len() == 0 {
        Some(e)
    } else {
        match emitted_stmts(c, ns.drop_last(), at, e) {
            Some(e1) => emitted(
                c,
                ns.last(),
                if ns.len() > 1 {
                    put(e1, op0(OpCode::Pop), at)
                } else {
                    e1
                },
            ),
            None => None,
        }
    }
}

/// Expressions one after the other, each value left on the stack.
pub open spec fn emitted_all(c: EmitContext, ns: Seq<Node>, e: Emission) -> Option<Emission>
    decreases ns, 0nat,
{
    if ns.len() == 0 {
        Some(e)
    } else {
        match emitted_all(c, ns.drop_last(), e) {
            Some(e1) => emitted(c, ns.last(), e1),
            None => None,
        }
    }
}

/// Keys and values one after the other.
pub open spec fn emitted_pairs(c: EmitContext, ps: Seq<(Node, Node)>, e: Emission) -> Option<
    Emission,
>
    decreases ps, 0nat,
{
    if ps.len() == 0 {
        Some(e)
    } else {
        match emitted_pairs(c, ps.drop_last(), e) {
            Some(e1) => match emitted(c, ps.last().0, e1) {
                Some(e2) => emitted(c, ps.last().1, e2),
                None => None,
            },
            None => None,
        }
    }
}

/// Sets up the module's constants as globals.
pub open spec fn emitted_constants(
    c: EmitContext,
    cs: Seq<(String, Value)>,
    at: LineCol,
    e: Emission,
) -> Emission
    decreases cs.len(),
{
    if cs.len() == 0 {
        e
    } else {
        let e1 = emitted_constants(c, cs.drop_last(), at, e);
        let (e2, k) = with_const(e1, cs.last().1@);
        let e3 = put(e2, plain(OpCode::Constant, k, 0, 0), at);
        let (e4, m) = with_const(e3, Val::Symbol(c.module_name.0@));
        let (e5, nm) = with_const(e4, Val::Symbol(cs.last().0@));
        put(e5, plain(OpCode::SetGlobal, m, nm, 0), at)
    }
}

/// Returns early when the module has been loaded before, and marks it loaded.
pub open spec fn load_guard(c: EmitContext, at: LineCol, e: Emission) -> Emission {
    let (e1, m) = with_const(e, Val::Symbol(c.module_name.0@));
    let (e2, nm) = with_const(e1, Val::Symbol("<loaded>"@));
    let e3 = put(e2, plain(OpCode::GlobalIsDefined, m, nm, 0), at);
    let b = e3.code.len() as int;
    let e4 = put(put(e3, wide(OpCode::BranchIfFalse, 0), at), op0(OpCode::Return), at);
    let e5 = patched(e4, b);
    put(put(e5, op0(OpCode::LogicalNeg), at), plain(OpCode::SetGlobal, m, nm, 0), at)
}

pub open spec fn emitted_source_file(c: EmitContext, n: Node, e: Emission) -> Option<Emission>
    decreases n, 1nat,
{
    let at = loc_of(n);
    match n.kind {
        NodeKind::SourceFile(stmts) => match c.tags.scopes.tag_of(n.id.local_id) {
            Some(scope) => {
                let e1 = Emission { upvalues: scope.spec_upvalue_sources(), ..e };
                let e2 = emitted_constants(c, c.constants@, at, load_guard(c, at, e1));
                match emitted_stmts(c, stmts@, at, e2) {
                    Some(e3) => Some(put(e3, op0(OpCode::Return), at)),
                    None => None,
                }
            },
            None => None,
        },
        _ => None,
    }
}

pub open spec fn emitted_body(c: EmitContext, n: Node, e: Emission) -> Option<Emission>
    decreases n, 1nat,
{
    let at = loc_of(n);
    match n.kind {
        NodeKind::Body(stmts) => if stmts@.len() == 0 {
            Some(put(e, op0(OpCode::PushNil), at))
        } else {
            match emitted_stmts(c, stmts@, at, Emission { pushed: e.pushed.push(0), ..e }) {
                Some(e1) => {
                    let count = e1.pushed.last();
                    let e2 = Emission { pushed: e1.pushed.drop_last(), ..e1 };
                    Some(
                        if count > 0 {
                            put(e2, wide(OpCode::PopLocals, count as nat), at)
                        } else {
                            e2
                        },
                    )
                },
                None => None,
            }
        },
        _ => None,
    }
}

pub open spec fn emitted_builtin(c: EmitContext, n: Node, e: Emission) -> Option<Emission>
    decreases n, 1nat,
{
    let at = loc_of(n);
    match n.kind {
        NodeKind::Builtin { identifier } => match ident(*identifier) {
            Some(name) => {
                let e1 = if name == "argv"@ {
                    Some(
                        load_new_function(
                            e,
                            stub_function(plain(OpCode::VmArg, 1, 0, 0), 0, "argv"@),
                            at,
                        ),
                    )
                } else if name == "iter"@ {
                    Some(
                        load_new_function(
                            e,
                            stub_function(op0(OpCode::GetIter), 1, "iter"@),
                            at,
                        ),
                    )
                } else {
                    match native_named(name) {
                        Some(f) => Some(load(e, Val::NativeFunc(f), at)),
                        None => None,
                    }
                };
                match e1 {
                    Some(e2) => match emitted_set(c, n, e2) {
                        Some(e3) => Some(put(e3, op0(OpCode::PushNil), at)),
                        None => None,
                    },
                    None => None,
                }
            },
            None => None,
        },
        _ => None,
    }
}

/// The code of `let` and `var`: a single local stays where its value was pushed; a global is
/// stored; a destructuring pattern first takes room for its locals.
pub open spec fn emitted_define(c: EmitContext, n: Node, e: Emission) -> Option<Emission>
    decreases n, 1nat,
{
    let (pattern, expr) = match n.kind {
        NodeKind::Let { pattern, expr } => (*pattern, *expr),
        NodeKind::Var { pattern, expr } => (*pattern, *expr),
        _ => (n, n),
    };
    if !(n.kind is Let || n.kind is Var) {
        None
    } else {
        match pattern.kind {
            NodeKind::PatternIdentifier { .. } => match alloc_of(c, pattern) {
                Some(VariableAllocation::Global { .. }) => match emitted(c, expr, e) {
                    Some(e1) => emitted_set(c, pattern, e1),
                    None => None,
                },
                Some(_) => match emitted(c, expr, e) {
                    Some(e1) => if e1.pushed.len() > 0 && e1.pushed.last() < usize::MAX {
                        Some(
                            Emission {
                                pushed: e1.pushed.update(
                                    e1.pushed.len() - 1,
                                    (e1.pushed.last() + 1) as usize,
                                ),
                                ..e1
                            },
                        )
                    } else {
                        None
                    },
                    None => None,
                },
                None => None,
            },
            _ => match pattern_locals(c, pattern) {
                Some(k) => match nils(e, k, loc_of(pattern), true) {
                    Some(e1) => match emitted(c, expr, e1) {
                        Some(e2) => assigned(c, pattern, e2),
                        None => None,
                    },
                    None => None,
                },
                None => None,
            },
        }
    }
}

pub open spec fn emitted_binary(c: EmitContext, n: Node, e: Emission) -> Option<Emission>
    decreases n, 1nat,
{
    let at = loc_of(n);
    match n.kind {
        NodeKind::BinaryOp { op, lhs, rhs } => match emitted(c, *lhs, e) {
            Some(e1) => if op == BinOp::LogicalOr || op == BinOp::LogicalAnd {
                let b = e1.code.len() as int;
                let branch = if op == BinOp::LogicalOr {
                    wide(OpCode::BranchIfTrue, 0)
                } else {
                    wide(OpCode::BranchIfFalse, 0)
                };
                match emitted(c, *rhs, put(put(e1, branch, at), op0(OpCode::Pop), at)) {
                    Some(e2) => Some(patched(e2, b)),
                    None => None,
                }
            } else {
                match emitted(c, *rhs, e1) {
                    Some(e2) => Some(put(e2, bin_instr(op), at)),
                    None => None,
                }
            },
            None => None,
        },
        _ => None,
    }
}

/// A call is a tail call when it is the value its function returns (not the module's top
/// level).
pub open spec fn is_tail_call(c: EmitContext, n: Node) -> bool {
    match c.tags.return_exprs.tag_of(n.id.local_id) {
        Some(r) => r.function != c.root,
        None => false,
    }
}

pub open spec fn emitted_call(c: EmitContext, n: Node, e: Emission) -> Option<Emission>
    decreases n, 1nat,
{
    let at = loc_of(n);
    match n.kind {
        NodeKind::FunctionCall { function, args } => match emitted(c, *function, e) {
            Some(e1) => match emitted_all(c, args@, e1) {
                Some(e2) => Some(
                    put(
                        e2,
                        plain(
                            if is_tail_call(c, n) {
                                OpCode::TailCall
                            } else {
                                OpCode::Call
                            },
                            byte(args@.len()),
                            0,
                            0,
                        ),
                        at,
                    ),
                ),
                None => None,
            },
            None => None,
        },
        _ => None,
    }
}

pub open spec fn emitted_if(c: EmitContext, n: Node, e: Emission) -> Option<Emission>
    decreases n, 1nat,
{
    let at = loc_of(n);
    match n.kind {
        NodeKind::If { condition, body, else_branch } => match emitted(c, *condition, e) {
            Some(e1) => {
                let b = e1.code.len() as int;
                match emitted(
                    c,
                    *body,
                    put(put(e1, wide(OpCode::BranchIfFalse, 0), at), op0(OpCode::Pop), at),
                ) {
                    Some(e2) => {
                        let j = e2.code.len() as int;
                        let e3 = put(patched(put(e2, wide(OpCode::Jump, 0), at), b), op0(OpCode::Pop), at);
                        let e4 = match else_branch {
                            Some(eb) => emitted(c, *eb, e3),
                            None => Some(put(e3, op0(OpCode::PushNil), at)),
                        };
                        match e4 {
                            Some(e5) => Some(patched(e5, j)),
                            None => None,
                        }
                    },
                    None => None,
                }
            },
            None => None,
        },
        _ => None,
    }
}

/// A function literal: its body is compiled into a function of its own, added to the table,
/// and pushed; a closure is made when it captures variables.
pub open spec fn emitted_function(c: EmitContext, n: Node, e: Emission) -> Option<Emission>
    decreases n, 1nat,
{
    let at = loc_of(n);
    match n.kind {
        NodeKind::FunctionLiteral { arg_names, body } => match (
            c.tags.scopes.tag_of(n.id.local_id),
            c.tags.function_names.tag_of(n.id.local_id),
        ) {
            (Some(scope), Some(name)) => {
                let inner = Emission {
                    code: Seq::empty(),
                    locs: Seq::empty(),
                    consts: Seq::empty(),
                    patterns: Seq::empty(),
                    source_file: c.module_name.0@,
                    fns: e.fns,
                    pushed: Seq::empty(),
                    upvalues: scope.spec_upvalue_sources(),
                };
                match emitted(c, *body, inner) {
                    Some(i1) => {
                        let i2 = put(i1, op0(OpCode::Return), loc_of(*body));
                        let f = FnModel {
                            code: i2.code,
                            locs: i2.locs,
                            consts: i2.consts,
                            patterns: i2.patterns,
                            source_file: i2.source_file,
                            arity: arg_names@.len(),
                            upvalues: i2.upvalues,
                            name: name.name@,
                        };
                        let e1 = load_new_function(Emission { fns: i2.fns, ..e }, f, at);
                        Some(
                            if i2.upvalues.len() > 0 {
                                put(e1, op0(OpCode::Closure), at)
                            } else {
                                e1
                            },
                        )
                    },
                    None => None,
                }
            },
            _ => None,
        },
        _ => None,
    }
}

/// A list, tuple or dict literal: one constant when it is made only of literals, else its
/// items and an instruction that builds it.
pub open spec fn emitted_collection(c: EmitContext, n: Node, e: Emission) -> Option<Emission>
    decreases n, 1nat,
{
    let at = loc_of(n);
    match constant_value(n) {
        Some(v) => Some(load(e, v, at)),
        None => match n.kind {
            NodeKind::ListLiteral(items) => match emitted_all(c, items@, e) {
                Some(e1) => Some(put(e1, wide(OpCode::MakeList, items@.len()), at)),
                None => None,
            },
            NodeKind::TupleLiteral(items) => match emitted_all(c, items@, e) {
                Some(e1) => Some(put(e1, wide(OpCode::MakeTuple, items@.len()), at)),
                None => None,
            },
            NodeKind::DictLiteral(pairs) => match emitted_pairs(c, pairs@, e) {
                Some(e1) => Some(put(e1, wide(OpCode::MakeDict, pairs@.len()), at)),
                None => None,
            },
            _ => None,
        },
    }
}

/// The position of the last field of a struct literal named `name`.
pub open spec fn literal_field(fields: Seq<(Node, Node)>, name: Seq<char>) -> Option<int>
    decreases fields.len(),
{
    if fields.len() == 0 {
        None
    } else if ident(fields.last().0) == Some(name) {
        Some(fields.len() - 1)
    } else {
        literal_field(fields.drop_last(), name)
    }
}

/// The default value of field `name`, the last one given.
pub open spec fn default_of(defaults: Seq<(String, Value)>, name: Seq<char>) -> Option<Val>
    decreases defaults.len(),
{
    if defaults.len() == 0 {
        None
    } else if defaults.last().0@ == name {
        Some(defaults.last().1@)
    } else {
        default_of(defaults.drop_last(), name)
    }
}

/// Each field of the struct in declaration order: its name, then the literal's value for it,
/// or else its default value.
pub open spec fn emitted_fields(
    c: EmitContext,
    lit: Seq<(Node, Node)>,
    names: Seq<String>,
    defaults: Seq<(String, Value)>,
    at: LineCol,
    e: Emission,
) -> Option<Emission>
    decreases lit, names.len(),
{
    if names.len() == 0 {
        Some(e)
    } else {
        match emitted_fields(c, lit, names.drop_last(), defaults, at, e) {
            Some(e1) => {
                let name = names.last()@;
                let e2 = load(e1, Val::Symbol(name), at);
                match literal_field(lit, name) {
                    Some(j) => if 0 <= j < lit.len() {
                        emitted(c, lit[j].1, e2)
                    } else {
                        None
                    },
                    None => match default_of(defaults, name) {
                        Some(d) => Some(load(e2, d, at)),
                        None => None,
                    },
                }
            },
            None => None,
        }
    }
}

pub open spec fn emitted_struct(c: EmitContext, n: Node, e: Emission) -> Option<Emission>
    decreases n, 1nat,
{
    let at = loc_of(n);
    match n.kind {
        NodeKind::StructLiteral { fields, .. } => match c.tags.referenced_structs.tag_of(
            n.id.local_id,
        ) {
            Some(rs) => {
                let info = rs.struct_info;
                if forall|j: int| 0 <= j < fields@.len() ==> ident(#[trigger] fields@[j].0) is Some {
                    let (e1, m) = with_const(e, Val::Symbol(info.module_name.0@));
                    match emitted_fields(
                        c,
                        fields@,
                        info.fields@,
                        info.default_values@,
                        at,
                        e1,
                    ) {
                        Some(e2) => Some(
                            put(
                                e2,
                                plain(OpCode::MakeStruct, m, byte(info.fields@.len()), 0),
                                at,
                            ),
                        ),
                        None => None,
                    }
                } else {
                    None
                }
            },
            None => None,
        },
        _ => None,
    }
}

pub open spec fn emitted_field_access(c: EmitContext, n: Node, e: Emission) -> Option<Emission>
    decreases n, 1nat,
{
    let at = loc_of(n);
    match n.kind {
        NodeKind::FieldAccess { object, key } => match ident(*key) {
            Some(name) => match c.tags.module_refs.tag_of(object.id.local_id) {
                Some(r) => {
                    let (e1, m) = with_const(e, Val::Symbol(r.module_name.0@));
                    let (e2, k) = with_const(e1, Val::Symbol(name));
                    Some(put(e2, plain(OpCode::GetGlobal, m, k, 0), at))
                },
                None => match emitted(c, *object, e) {
                    Some(e1) => Some(
                        put(load(e1, Val::Str(name), at), op0(OpCode::GetField), at),
                    ),
                    None => None,
                },
            },
            None => None,
        },
        _ => None,
    }
}

/// Reads along the path to the object whose field is set, keeping each object and key on the
/// stack.
pub open spec fn emitted_path(c: EmitContext, ps: Seq<Node>, at: LineCol, e: Emission) -> Option<
    Emission,
>
    decreases ps, 0nat,
{
    if ps.len() == 0 {
        Some(e)
    } else {
        match emitted_path(c, ps.drop_last(), at, e) {
            Some(e1) => match ps.last().kind {
                NodeKind::FieldAssignmentPathField { key } => match ident(*key) {
                    Some(name) => Some(
                        put(
                            put(
                                put(load(e1, Val::Str(name), at), plain(OpCode::Dup, 1, 0, 0), at),
                                plain(OpCode::Dup, 1, 0, 0),
                                at,
                            ),
                            op0(OpCode::GetField),
                            at,
                        ),
                    ),
                    None => None,
                },
                NodeKind::FieldAssignmentPathSubscript { key } => match emitted(c, *key, e1) {
                    Some(e2) => Some(
                        put(
                            put(
                                put(e2, plain(OpCode::Dup, 1, 0, 0), at),
                                plain(OpCode::Dup, 1, 0, 0),
                                at,
                            ),
                            op0(OpCode::GetSubscript),
                            at,
                        ),
                    ),
                    None => None,
                },
                _ => None,
            },
            None => None,
        }
    }
}

/// Writes each object back into the one it came from, innermost first.
pub open spec fn stored_path(ps: Seq<Node>, at: LineCol, e: Emission) -> Option<Emission>
    decreases ps.len(),
{
    if ps.len() == 0 {
        Some(e)
    } else {
        match stored_path(ps.skip(1), at, e) {
            Some(e1) => match ps[0].kind {
                NodeKind::FieldAssignmentPathField { .. } => Some(
                    put(e1, op0(OpCode::SetField), at),
                ),
                NodeKind::FieldAssignmentPathSubscript { .. } => Some(
                    put(e1, op0(OpCode::SetSubscript), at),
                ),
                _ => None,
            },
            None => None,
        }
    }
}

/// The key of the last step of a field assignment's path: the field's name, or the
/// subscript's value.
pub open spec fn last_key(c: EmitContext, step: Node, at: LineCol, e: Emission) -> Option<Emission>
    decreases step, 1nat,
{
    match step.kind {
        NodeKind::FieldAssignmentPathField { key } => match ident(*key) {
            Some(name) => Some(load(e, Val::Str(name), at)),
            None => None,
        },
        NodeKind::FieldAssignmentPathSubscript { key } => emitted(c, *key, e),
        _ => None,
    }
}

/// `x.a[k].b = v`: reads down the path, sets the last field, writes each object back up the
/// path, then stores the root object into the variable.
pub open spec fn emitted_field_assignment(c: EmitContext, n: Node, e: Emission) -> Option<
    Emission,
>
    decreases n, 1nat,
{
    let at = loc_of(n);
    match n.kind {
        NodeKind::FieldAssignment { variable_ref, path, expr } => if path@.len() == 0 {
            None
        } else {
            let front = path@.drop_last();
            let set = if path@.last().kind is FieldAssignmentPathField {
                op0(OpCode::SetField)
            } else {
                op0(OpCode::SetSubscript)
            };
            match emitted_get(c, *variable_ref, e) {
                Some(e1) => match emitted_path(c, front, at, e1) {
                    Some(e2) => match last_key(c, path@.last(), at, e2) {
                        Some(e3) => match emitted(c, *expr, e3) {
                            Some(e4) => match stored_path(front, at, put(e4, set, at)) {
                                Some(e5) => match emitted_set(c, *variable_ref, e5) {
                                    Some(e6) => Some(put(e6, op0(OpCode::PushNil), at)),
                                    None => None,
                                },
                                None => None,
                            },
                            None => None,
                        },
                        None => None,
                    },
                    None => None,
                },
                None => None,
            }
        },
        _ => None,
    }
}

/// `for pattern in enumerable { body }`: gets an iterator, then loops: calls it, leaves the loop
/// when it is exhausted, binds the item, runs the body and drops the loop's locals.  The loop
/// evaluates to nil.
pub open spec fn emitted_for(c: EmitContext, n: Node, e: Emission) -> Option<Emission>
    decreases n, 1nat,
{
    let at = loc_of(n);
    match n.kind {
        NodeKind::For { pattern, enumerable, body } => match (
            emitted(c, *enumerable, e),
            pattern_locals(c, *pattern),
        ) {
            (Some(e1), Some(k)) => if k >= usize::MAX {
                None
            } else {
                let complex = !(pattern.kind is PatternIdentifier);
                let e2 = put(e1, op0(OpCode::GetIter), at);
                let start = e2.code.len();
                let e3 = put(e2, op0(OpCode::CallIter), at);
                let b = e3.code.len() as int;
                let e4 = put(e3, wide(OpCode::ForIter, 0), at);
                let e5 = if complex {
                    match nils(e4, k, at, false) {
                        Some(e6) => assigned(c, *pattern, put(e6, plain(OpCode::Dup, byte(k), 0, 0), at)),
                        None => None,
                    }
                } else {
                    Some(e4)
                };
                match e5 {
                    Some(e6) => match emitted(c, *body, e6) {
                        Some(e7) => {
                            let to_pop: nat = if complex {
                                1 + k
                            } else {
                                1
                            };
                            let e8 = put(put(e7, wide(OpCode::PopLocals, to_pop), at), op0(OpCode::Pop), at);
                            let e9 = put(e8, wide(OpCode::JumpBack, (e8.code.len() - start) as nat), at);
                            Some(
                                put(
                                    put(put(patched(e9, b), op0(OpCode::Pop), at), op0(OpCode::Pop), at),
                                    op0(OpCode::PushNil),
                                    at,
                                ),
                            )
                        },
                        None => None,
                    },
                    None => None,
                }
            },
            _ => None,
        },
        _ => None,
    }
}

/// Where code generation for a module starts: no code yet, in a chunk of the module's source
/// file, with the program's function table `fns`.
pub open spec fn module_start(c: EmitContext, fns: Seq<FnModel>) -> Emission {
    Emission {
        code: Seq::empty(),
        locs: Seq::empty(),
        consts: Seq::empty(),
        patterns: Seq::empty(),
        source_file: c.module_name.0@,
        fns,
        pushed: Seq::empty(),
        upvalues: Seq::empty(),
    }
}

/// The function that runs a module's top level `ast`, and the function table once the nested
/// functions were added to `fns`.
pub open spec fn compiled_module(c: EmitContext, ast: Node, fns: Seq<FnModel>) -> Option<
    (FnModel, Seq<FnModel>),
> {
    match (emitted(c, ast, module_start(c, fns)), c.tags.function_names.tag_of(ast.id.local_id)) {
        (Some(e), Some(name)) => Some(
            (
                FnModel {
                    code: e.code,
                    locs: e.locs,
                    consts: e.consts,
                    patterns: e.patterns,
                    source_file: e.source_file,
                    arity: 0,
                    upvalues: e.upvalues,
                    name: name.name@,
                },
                e.fns,
            ),
        ),
        _ => None,
    }
}

/// The code emitted for a binary operator other than `||` and `&&` ends with an instruction
/// that the machine runs on the two operands on top of its stack by popping them and pushing
/// the operator applied to them: the compiled expression computes what the source expression
/// means.
pub proof fn lemma_binary_code_applies_operator(
    c: EmitContext,
    n: Node,
    e: Emission,
    fs: Seq<Function>,
    s: VmView,
    f: int,
)
    requires
        n.kind is BinaryOp,
        n.kind->BinaryOp_op != BinOp::LogicalOr,
        n.kind->BinaryOp_op != BinOp::LogicalAnd,
        emitted_binary(c, n, e) is Some,
        s.stack.len() >= 2,
    ensures
        ({
            let code = emitted_binary(c, n, e)->Some_0.code;
            let k = s.stack.len();
            &&& code.len() > 0
            &&& bin_op(n.kind->BinaryOp_op, s.stack[k - 2], s.stack[k - 1]) matches Some(v)
                ==> execute(fs, s, code.last(), f) == Step::Next(
                with_stack(s, s.stack.take(k - 2).push(v)),
            )
            &&& bin_op(n.kind->BinaryOp_op, s.stack[k - 2], s.stack[k - 1]) is None
                ==> execute(fs, s, code.last(), f) is Raised
        }),
{
}

/// The code emitted for a unary operator ends with an instruction that the machine runs on
/// the operand on top of its stack by replacing it with the operator applied to it.
pub proof fn lemma_unary_code_applies_operator(
    c: EmitContext,
    n: Node,
    e: Emission,
    fs: Seq<Function>,
    s: VmView,
    f: int,
)
    requires
        n.kind is UnaryOp,
        emitted(c, n, e) is Some,
        s.stack.len() >= 1,
    ensures
        ({
            let code = emitted(c, n, e)->Some_0.code;
            let k = s.stack.len();
            &&& code.len() > 0
            &&& unary_op(n.kind->UnaryOp_op, s.stack[k - 1]) matches Some(v) ==> execute(
                fs,
                s,
                code.last(),
                f,
            ) == Step::Next(with_stack(s, s.stack.drop_last().push(v)))
            &&& unary_op(n.kind->UnaryOp_op, s.stack[k - 1]) is None ==> execute(
                fs,
                s,
                code.last(),
                f,
            ) is Raised
        }),
{
}

} // verus!

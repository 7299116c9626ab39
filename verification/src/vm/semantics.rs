use vstd::prelude::*;

use crate::ast::{BinOp, UnaryOp};
use crate::debug_text::{quoted, value_debug};
use crate::dict::{dict_of, dict_put, has_key, lookup};
use crate::native_funcs::{native_effect, native_error, NativeEffect};
use crate::numbers::digits;
use crate::ops::{
    at, at_error, at_field, bin_op, bin_op_error, field_error, in_i64, set_at_error, set_at_value,
    set_field_value, truthy, unary_error, unary_op,
};
use crate::value::{entry, Val};

use super::closure::ClosureView;
use super::function::{Function, UpvalueSource};
use super::inst::{Instr, OpCode};
use super::pattern::match_node;
use super::upvalue::UpvalueView;

verus! {

/// The model of a call frame: the next instruction, where the frame's locals start on the
/// stack, the function it runs (its index in the function table) and its upvalues (indices in
/// the machine's upvalue table).
pub struct FrameView {
    pub ip: usize,
    pub base: usize,
    pub function: usize,
    pub upvalues: Seq<usize>,
}

/// The model of an iterator that the runtime implements itself.
pub enum IterView {
    /// Gives `next`, `next + step`, ... while below `stop`; `done` once a step left the range
    /// of integers.
    Range { next: i64, stop: i64, step: i64, done: bool },
    /// Gives the items from position `pos` on.
    Items { items: Seq<Val>, pos: nat },
}

/// The model of the machine.
pub struct VmView {
    pub stack: Seq<Val>,
    pub frames: Seq<FrameView>,
    /// Global variables, as the entries of a dictionary keyed by `(module, name)` symbol
    /// tuples.
    pub globals: Seq<Val>,
    pub upvalues: Seq<UpvalueView>,
    /// The upvalues that still point into the stack: `(stack index, upvalue index)`.
    pub open_upvalues: Seq<(usize, usize)>,
    pub closures: Seq<ClosureView>,
    pub iterators: Seq<IterView>,
    pub argv: Val,
}

/// Outside work that a native function asks for.
pub enum Work {
    /// Write the text to standard output.
    Write(Seq<char>),
    /// Show the values.
    Show(Seq<Val>),
    /// Read the file at the path; its contents are the call's result.
    ReadFile(Seq<char>),
}

/// What one instruction does.
pub enum Step {
    /// The machine went on to the given state.
    Next(VmView),
    /// The outermost function returned the value.
    Finished(Val),
    /// The machine asks for outside work and is then in the given state.
    Outside(Work, VmView),
    /// The program raised an exception: its message, and the value the message ends with
    /// when it shows one.
    Raised(Seq<char>, Option<Val>),
    /// The bytecode is malformed (an operand out of range, too few values on the stack, a
    /// value of the wrong kind where the compiler always puts a given kind).
    Fault,
}

/// What running up to a number of instructions does.
pub enum Run {
    Finished(Val),
    /// The instructions ran; the machine is in the given state.
    Paused(VmView),
    Outside(Work, VmView),
    Raised(Seq<char>, Option<Val>),
    Fault,
}

/// The tuple `(:some, v)` that an iterator gives for each item.
pub open spec fn some_item(v: Val) -> Val {
    Val::Tuple(seq![Val::Symbol("some"@), v])
}

/// The key under which global `name` of module `module` is stored.
pub open spec fn global_key(module: Seq<char>, name: Seq<char>) -> Val {
    Val::Tuple(seq![Val::Symbol(module), Val::Symbol(name)])
}

/// The message for a global that is not defined: its module and name, quoted, as a pair.
pub open spec fn global_missing_text(k: Val) -> Seq<char> {
    match k {
        Val::Tuple(p) => if p.len() == 2 && p[0] is Symbol && p[1] is Symbol {
            "Global not found: ("@ + quoted(p[0]->Symbol_0) + ", "@ + quoted(p[1]->Symbol_0) + ")"@
        } else {
            "Global not found"@
        },
        _ => "Global not found"@,
    }
}

/// The message for a value that is not a tuple of the arity that `UnpackTuple` asks for.
pub open spec fn tuple_arity_text(arity: u8) -> Seq<char> {
    "expected "@ + digits(arity as nat) + " arity tuple, got "@
}

/// The message for an iterator that gave something other than a pair or nil.
pub open spec fn iterator_result_text(v: Val) -> Seq<char> {
    "expected tuple with 2 elements or nil from iterator, got "@ + value_debug(v)
}

pub open spec fn push(s: VmView, v: Val) -> VmView {
    VmView { stack: s.stack.push(v), ..s }
}

pub open spec fn with_stack(s: VmView, stack: Seq<Val>) -> VmView {
    VmView { stack, ..s }
}

pub open spec fn set_ip(s: VmView, ip: usize) -> VmView {
    let fr = s.frames.last();
    VmView { frames: s.frames.update(s.frames.len() - 1, FrameView { ip, ..fr }), ..s }
}

/// Moves the current frame `offset` instructions forward.
pub open spec fn jump(s: VmView, offset: int) -> Step {
    let target = s.frames.last().ip + offset;
    if target <= usize::MAX {
        Step::Next(set_ip(s, target as usize))
    } else {
        Step::Fault
    }
}

/// The symbol constant `k` of function `f`.
pub open spec fn constant_symbol(fs: Seq<Function>, f: int, k: int) -> Option<Seq<char>> {
    let cs = fs[f].chunk.constants@;
    if 0 <= k < cs.len() && cs[k]@ is Symbol {
        Some(cs[k]@->Symbol_0)
    } else {
        None
    }
}

/// The global named by the two symbol operands of `instr`.
pub open spec fn operand_key(fs: Seq<Function>, f: int, instr: Instr) -> Option<Val> {
    match (constant_symbol(fs, f, instr.arg0 as int), constant_symbol(fs, f, instr.arg1 as int)) {
        (Some(m), Some(n)) => Some(global_key(m, n)),
        _ => None,
    }
}

/// The upvalue index behind upvalue `idx` of the current frame.
pub open spec fn frame_upvalue(s: VmView, idx: int) -> Option<usize> {
    let ups = s.frames.last().upvalues;
    if 0 <= idx < ups.len() && ups[idx] < s.upvalues.len() {
        Some(ups[idx])
    } else {
        None
    }
}

/// The value of upvalue `u`.
pub open spec fn upvalue_value(s: VmView, u: usize) -> Option<Val> {
    match s.upvalues[u as int] {
        UpvalueView::Open(i) => if i < s.stack.len() {
            Some(s.stack[i as int])
        } else {
            None
        },
        UpvalueView::Closed(v) => Some(v),
    }
}

/// Stores `v` into upvalue `u`.
pub open spec fn set_upvalue(s: VmView, u: usize, v: Val) -> Option<VmView> {
    match s.upvalues[u as int] {
        UpvalueView::Open(i) => if i < s.stack.len() {
            Some(with_stack(s, s.stack.update(i as int, v)))
        } else {
            None
        },
        UpvalueView::Closed(_) => Some(
            VmView { upvalues: s.upvalues.update(u as int, UpvalueView::Closed(v)), ..s },
        ),
    }
}

/// Closes one open upvalue `(i, u)` if its stack slot is at or above `new_len`.
pub open spec fn close_one(
    p: (usize, usize),
    stack: Seq<Val>,
    ups: Seq<UpvalueView>,
    new_len: int,
) -> Option<Seq<UpvalueView>> {
    if p.0 >= new_len {
        if p.0 < stack.len() && p.1 < ups.len() {
            Some(ups.update(p.1 as int, UpvalueView::Closed(stack[p.0 as int])))
        } else {
            None
        }
    } else {
        Some(ups)
    }
}

/// Closes, in order, the open upvalues of `open` whose stack slot is at or above `new_len`.
pub open spec fn close_all(
    open: Seq<(usize, usize)>,
    stack: Seq<Val>,
    ups: Seq<UpvalueView>,
    new_len: int,
) -> Option<Seq<UpvalueView>>
    decreases open.len(),
{
    if open.len() == 0 {
        Some(ups)
    } else {
        match close_all(open.drop_last(), stack, ups, new_len) {
            Some(u1) => close_one(open.last(), stack, u1, new_len),
            None => None,
        }
    }
}

/// The open upvalues whose stack slot is below `new_len`, in order.
pub open spec fn keep_below(open: Seq<(usize, usize)>, new_len: int) -> Seq<(usize, usize)>
    decreases open.len(),
{
    if open.len() == 0 {
        Seq::empty()
    } else if open.last().0 < new_len {
        keep_below(open.drop_last(), new_len).push(open.last())
    } else {
        keep_below(open.drop_last(), new_len)
    }
}

/// Closes the upvalues of the stack slots at and above `new_len`: their values move out of
/// the stack, and they are no longer open.
pub open spec fn close_upvalues(s: VmView, new_len: int) -> Option<VmView> {
    match close_all(s.open_upvalues, s.stack, s.upvalues, new_len) {
        Some(ups) => Some(
            VmView { upvalues: ups, open_upvalues: keep_below(s.open_upvalues, new_len), ..s },
        ),
        None => None,
    }
}

/// Closes the upvalues at and above `new_len`, then drops the stack down to `new_len`.
pub open spec fn unwind_to(s: VmView, new_len: int) -> Option<VmView> {
    match close_upvalues(s, new_len) {
        Some(s1) => Some(
            with_stack(
                s1,
                if new_len < s1.stack.len() {
                    s1.stack.take(new_len)
                } else {
                    s1.stack
                },
            ),
        ),
        None => None,
    }
}

/// The upvalue already open on stack slot `i`, if any (the first one recorded).
pub open spec fn find_open(open: Seq<(usize, usize)>, i: int) -> Option<usize>
    decreases open.len(),
{
    if open.len() == 0 {
        None
    } else if open[0].0 == i {
        Some(open[0].1)
    } else {
        find_open(open.drop_first(), i)
    }
}

/// The upvalue that a new closure captures from `source`, creating it if needed.
pub open spec fn capture_one(s: VmView, fr: FrameView, source: UpvalueSource) -> Option<(VmView, usize)> {
    match source {
        UpvalueSource::Local { stack_index_relative_to_base } => {
            let i = fr.base + stack_index_relative_to_base;
            if i > usize::MAX {
                None
            } else {
                match find_open(s.open_upvalues, i) {
                    Some(u) => Some((s, u)),
                    None => if s.upvalues.len() <= usize::MAX {
                        Some(
                            (
                                VmView {
                                    upvalues: s.upvalues.push(UpvalueView::Open(i as usize)),
                                    open_upvalues: s.open_upvalues.push(
                                        (i as usize, s.upvalues.len() as usize),
                                    ),
                                    ..s
                                },
                                s.upvalues.len() as usize,
                            ),
                        )
                    } else {
                        None
                    },
                }
            }
        },
        UpvalueSource::Upvalue { upvalue_index } => if upvalue_index < fr.upvalues.len() {
            Some((s, fr.upvalues[upvalue_index as int]))
        } else {
            None
        },
    }
}

/// The upvalues that a new closure captures from `sources`, in order.
pub open spec fn capture(s: VmView, fr: FrameView, sources: Seq<UpvalueSource>) -> Option<
    (VmView, Seq<usize>),
>
    decreases sources.len(),
{
    if sources.len() == 0 {
        Some((s, Seq::empty()))
    } else {
        match capture(s, fr, sources.drop_last()) {
            Some((s1, ups)) => match capture_one(s1, fr, sources.last()) {
                Some((s2, u)) => Some((s2, ups.push(u))),
                None => None,
            },
            None => None,
        }
    }
}

/// Enters function `f` with the given upvalues and arguments.
pub open spec fn enter(s: VmView, f: usize, upvalues: Seq<usize>, args: Seq<Val>) -> VmView {
    VmView {
        frames: s.frames.push(
            FrameView { ip: 0, base: s.stack.len() as usize, function: f, upvalues },
        ),
        stack: s.stack + args,
        ..s
    }
}

/// The next item of an iterator, and the iterator after it.
pub open spec fn iter_next(it: IterView) -> (Val, IterView) {
    match it {
        IterView::Range { next, stop, step, done } => if !done && next < stop {
            let after = next + step;
            (
                some_item(Val::Int(next)),
                if in_i64(after) {
                    IterView::Range { next: after as i64, stop, step, done }
                } else {
                    IterView::Range { next, stop, step, done: true }
                },
            )
        } else {
            (Val::Nil, it)
        },
        IterView::Items { items, pos } => if pos < items.len() {
            (some_item(items[pos as int]), IterView::Items { items, pos: pos + 1 })
        } else {
            (Val::Nil, it)
        },
    }
}

/// The items that iterating over `v` gives: the elements of a list, the `(key, value)`
/// entries of a dictionary, the characters of a string.
pub open spec fn iter_items(v: Val) -> Option<Seq<Val>> {
    match v {
        Val::List(l) => Some(l),
        Val::Dict(es) => Some(es),
        Val::Str(s) => Some(Seq::new(s.len(), |i: int| Val::Str(seq![s[i]]))),
        _ => None,
    }
}

/// Starts iterating over `items`.
pub open spec fn new_iterator(s: VmView, it: IterView) -> VmView {
    push(
        VmView { iterators: s.iterators.push(it), ..s },
        Val::NativeClosure(s.iterators.len() as usize),
    )
}

/// The message of a call that gives a function of `arity` parameters `given` arguments.
pub open spec fn arity_text(arity: nat, given: nat) -> Seq<char> {
    "expected "@ + digits(arity) + " arguments, got "@ + digits(given)
}

/// Calls `callee` with `args`.
pub open spec fn call(fs: Seq<Function>, s: VmView, callee: Val, args: Seq<Val>) -> Step {
    match callee {
        Val::NativeFunc(f) => match native_effect(f, args) {
            None => Step::Raised(native_error(f, args), None),
            Some(NativeEffect::Return(v)) => Step::Next(push(s, v)),
            Some(NativeEffect::Write(t)) => Step::Outside(Work::Write(t), push(s, Val::Nil)),
            Some(NativeEffect::Inspect(vs)) => Step::Outside(
                Work::Show(vs),
                push(
                    s,
                    if vs.len() > 0 {
                        vs[0]
                    } else {
                        Val::Nil
                    },
                ),
            ),
            Some(NativeEffect::ReadFile(p)) => Step::Outside(Work::ReadFile(p), s),
            Some(NativeEffect::NewRangeIter(a, b, c)) => Step::Next(
                new_iterator(s, IterView::Range { next: a, stop: b, step: c, done: false }),
            ),
        },
        Val::NativeClosure(i) => if i < s.iterators.len() {
            if args.len() != 0 {
                Step::Raised("expected zero args to iterator function"@, None)
            } else {
                let (r, it) = iter_next(s.iterators[i as int]);
                Step::Next(push(VmView { iterators: s.iterators.update(i as int, it), ..s }, r))
            }
        } else {
            Step::Fault
        },
        Val::Function(i) => if i < fs.len() {
            if args.len() != fs[i as int].arity {
                Step::Raised(arity_text(fs[i as int].arity as nat, args.len()), None)
            } else {
                Step::Next(enter(s, i, Seq::empty(), args))
            }
        } else {
            Step::Fault
        },
        Val::Closure(i) => if i < s.closures.len() && s.closures[i as int].function < fs.len() {
            let c = s.closures[i as int];
            if args.len() != fs[c.function as int].arity {
                Step::Raised(arity_text(fs[c.function as int].arity as nat, args.len()), None)
            } else {
                Step::Next(enter(s, c.function, c.upvalues, args))
            }
        } else {
            Step::Fault
        },
        _ => Step::Raised("cannot call a non-function: "@, Some(callee)),
    }
}

/// The pairs `(k0, v0), (k1, v1), ...` of the values `k0, v0, k1, v1, ...`.
pub open spec fn pairs_of(vs: Seq<Val>) -> Seq<Val> {
    Seq::new(vs.len() / 2, |i: int| entry(vs[2 * i], vs[2 * i + 1]))
}

/// The fields `(name, value)` of the values `name0, v0, name1, v1, ...` (names are symbols,
/// stored as strings).
pub open spec fn fields_of(vs: Seq<Val>) -> Seq<Val> {
    Seq::new(vs.len() / 2, |i: int| entry(Val::Str(vs[2 * i]->Symbol_0), vs[2 * i + 1]))
}

/// Every name of `name0, v0, name1, v1, ...` is a symbol.
pub open spec fn names_are_symbols(vs: Seq<Val>) -> bool {
    forall|i: int| 0 <= i < vs.len() / 2 ==> (#[trigger] vs[2 * i]) is Symbol
}

/// Pops two operands and pushes the result of `op`.
pub open spec fn binary(s: VmView, op: BinOp) -> Step {
    let n = s.stack.len();
    if n < 2 {
        Step::Fault
    } else {
        match bin_op(op, s.stack[n - 2], s.stack[n - 1]) {
            Some(v) => Step::Next(with_stack(s, s.stack.take(n - 2).push(v))),
            None => Step::Raised(bin_op_error(op, s.stack[n - 2], s.stack[n - 1]), None),
        }
    }
}

/// Pops one operand and pushes the result of `op`.
pub open spec fn unary(s: VmView, op: UnaryOp) -> Step {
    let n = s.stack.len();
    if n < 1 {
        Step::Fault
    } else {
        match unary_op(op, s.stack[n - 1]) {
            Some(v) => Step::Next(with_stack(s, s.stack.drop_last().push(v))),
            None => Step::Raised(unary_error(op, s.stack[n - 1]), None),
        }
    }
}

/// Matches pattern `k` of function `f` against `v`: the values of its slots.
pub open spec fn match_operand(fs: Seq<Function>, f: int, k: int, v: Val) -> Option<Option<Seq<Val>>> {
    let ps = fs[f].chunk.patterns@;
    if 0 <= k < ps.len() && ps[k].wf() {
        Some(
            match_node(
                ps[k].node,
                v,
                Seq::new(ps[k].stack_slot_count as nat, |i: int| Val::Nil),
            ),
        )
    } else {
        None
    }
}

/// Returns from the current frame with the value on top of the stack.
pub open spec fn return_from(s: VmView) -> Step {
    let n = s.stack.len();
    if n < 1 {
        Step::Fault
    } else if s.frames.len() == 1 {
        Step::Finished(s.stack[n - 1])
    } else {
        let res = s.stack[n - 1];
        let fr = s.frames.last();
        let s1 = VmView { stack: s.stack.drop_last(), frames: s.frames.drop_last(), ..s };
        match unwind_to(s1, fr.base as int) {
            Some(s2) => Step::Next(push(s2, res)),
            None => Step::Fault,
        }
    }
}

/// Pops the arguments and the callee of a call with `n` arguments.
pub open spec fn call_operands(s: VmView, n: int) -> Option<(VmView, Val, Seq<Val>)> {
    let len = s.stack.len();
    if n + 1 <= len {
        Some(
            (
                with_stack(s, s.stack.take(len - n - 1)),
                s.stack[len - n - 1],
                s.stack.subrange(len - n, len as int),
            ),
        )
    } else {
        None
    }
}

/// Calls the callee below the top `n` values, replacing the current frame.
pub open spec fn tail_call(fs: Seq<Function>, s: VmView, n: int) -> Step {
    match call_operands(s, n) {
        Some((s1, callee, args)) => {
            let fr = s1.frames.last();
            match unwind_to(VmView { frames: s1.frames.drop_last(), ..s1 }, fr.base as int) {
                Some(s2) => call(fs, s2, callee, args),
                None => Step::Fault,
            }
        },
        None => Step::Fault,
    }
}

/// Creates a closure of the function on top of the stack.
pub open spec fn make_closure(fs: Seq<Function>, s: VmView) -> Step {
    let n = s.stack.len();
    if n < 1 {
        Step::Fault
    } else {
        match s.stack[n - 1] {
            Val::Function(i) => if i < fs.len() {
                let s1 = with_stack(s, s.stack.drop_last());
                match capture(s1, s1.frames.last(), fs[i as int].upvalue_sources@) {
                    Some((s2, ups)) => Step::Next(
                        push(
                            VmView {
                                closures: s2.closures.push(ClosureView { function: i, upvalues: ups }),
                                ..s2
                            },
                            Val::Closure(s2.closures.len() as usize),
                        ),
                    ),
                    None => Step::Fault,
                }
            } else {
                Step::Fault
            },
            _ => Step::Fault,
        }
    }
}

/// Gets an iterator for the value on top of the stack.
pub open spec fn get_iter(fs: Seq<Function>, s: VmView) -> Step {
    let n = s.stack.len();
    if n < 1 {
        Step::Fault
    } else {
        let obj = s.stack[n - 1];
        let s1 = with_stack(s, s.stack.drop_last());
        match obj {
            Val::Struct(m, _) => match lookup(s1.globals, global_key(m, "__iter__"@)) {
                Some(it) => call(fs, s1, it, seq![obj]),
                None => Step::Raised("struct `"@ + m + "` doesn't implement iter"@, None),
            },
            Val::NativeFunc(_) => Step::Next(s),
            Val::NativeClosure(_) => Step::Next(s),
            Val::Function(i) => if i >= fs.len() {
                Step::Fault
            } else if fs[i as int].arity == 0 {
                Step::Next(s)
            } else {
                Step::Raised("value is not iterable"@, None)
            },
            Val::Closure(i) => if i >= s.closures.len() || s.closures[i as int].function
                >= fs.len() {
                Step::Fault
            } else if fs[s.closures[i as int].function as int].arity == 0 {
                Step::Next(s)
            } else {
                Step::Raised("value is not iterable"@, None)
            },
            _ => match iter_items(obj) {
                Some(items) => Step::Next(
                    new_iterator(s1, IterView::Items { items, pos: 0 }),
                ),
                None => Step::Raised("value is not iterable"@, None),
            },
        }
    }
}

/// Carries out `instr` of function `f`; `s` is the machine with the instruction pointer
/// already past it.
pub open spec fn execute(fs: Seq<Function>, s: VmView, instr: Instr, f: int) -> Step {
    let n = s.stack.len();
    let fr = s.frames.last();
    match instr.op {
        OpCode::VmArg => if instr.arg0 == 1 {
            Step::Next(push(s, s.argv))
        } else {
            Step::Raised("Unknown VmArg: "@ + digits(instr.arg0 as nat), None)
        },
        OpCode::Constant => {
            let cs = fs[f].chunk.constants@;
            if instr.arg0 < cs.len() {
                Step::Next(push(s, cs[instr.arg0 as int]@))
            } else {
                Step::Fault
            }
        },
        OpCode::PushNil => Step::Next(push(s, Val::Nil)),
        OpCode::GetGlobal => match operand_key(fs, f, instr) {
            Some(k) => match lookup(s.globals, k) {
                Some(v) => Step::Next(push(s, v)),
                None => Step::Raised(global_missing_text(k), None),
            },
            None => Step::Fault,
        },
        OpCode::SetGlobal => match operand_key(fs, f, instr) {
            Some(k) => if n >= 1 {
                Step::Next(
                    VmView {
                        stack: s.stack.drop_last(),
                        globals: dict_put(s.globals, k, s.stack[n - 1]),
                        ..s
                    },
                )
            } else {
                Step::Fault
            },
            None => Step::Fault,
        },
        OpCode::GlobalIsDefined => match operand_key(fs, f, instr) {
            Some(k) => Step::Next(push(s, Val::Bool(has_key(s.globals, k)))),
            None => Step::Fault,
        },
        OpCode::GetUpvalue => match frame_upvalue(s, instr.arg0 as int) {
            Some(u) => match upvalue_value(s, u) {
                Some(v) => Step::Next(push(s, v)),
                None => Step::Fault,
            },
            None => Step::Fault,
        },
        OpCode::SetUpvalue => if n >= 1 {
            match frame_upvalue(s, instr.arg0 as int) {
                Some(u) => match set_upvalue(s, u, s.stack[n - 1]) {
                    Some(s1) => Step::Next(s1),
                    None => Step::Fault,
                },
                None => Step::Fault,
            }
        } else {
            Step::Fault
        },
        OpCode::GetLocal => {
            let i = fr.base + instr.arg0;
            if i < n {
                Step::Next(push(s, s.stack[i]))
            } else {
                Step::Fault
            }
        },
        OpCode::SetLocal => {
            let i = fr.base + instr.arg0;
            if n >= 1 && i < n - 1 {
                Step::Next(with_stack(s, s.stack.drop_last().update(i, s.stack[n - 1])))
            } else {
                Step::Fault
            }
        },
        OpCode::Call => match call_operands(s, instr.arg0 as int) {
            Some((s1, callee, args)) => call(fs, s1, callee, args),
            None => Step::Fault,
        },
        OpCode::TailCall => tail_call(fs, s, instr.arg0 as int),
        OpCode::Return => return_from(s),
        OpCode::Closure => make_closure(fs, s),
        OpCode::Add => binary(s, BinOp::Add),
        OpCode::Sub => binary(s, BinOp::Sub),
        OpCode::Mul => binary(s, BinOp::Mul),
        OpCode::Div => binary(s, BinOp::Div),
        OpCode::Eq => binary(s, BinOp::Eq),
        OpCode::Neq => binary(s, BinOp::Neq),
        OpCode::Gt => binary(s, BinOp::Gt),
        OpCode::Gte => binary(s, BinOp::Gte),
        OpCode::Lt => binary(s, BinOp::Lt),
        OpCode::Lte => binary(s, BinOp::Lte),
        OpCode::Neg => unary(s, UnaryOp::Neg),
        OpCode::LogicalNeg => unary(s, UnaryOp::LogicalNeg),
        OpCode::BranchIfTrue => if n >= 1 {
            if truthy(s.stack[n - 1]) {
                jump(s, instr.spec_wide_arg() as int)
            } else {
                Step::Next(s)
            }
        } else {
            Step::Fault
        },
        OpCode::BranchIfFalse => if n >= 1 {
            if !truthy(s.stack[n - 1]) {
                jump(s, instr.spec_wide_arg() as int)
            } else {
                Step::Next(s)
            }
        } else {
            Step::Fault
        },
        OpCode::Pop => if n >= 1 {
            Step::Next(with_stack(s, s.stack.drop_last()))
        } else {
            Step::Fault
        },
        OpCode::PopLocals => {
            let k = instr.spec_wide_arg() as int;
            if n >= 1 && k <= n - 1 {
                match unwind_to(with_stack(s, s.stack.drop_last()), n - 1 - k) {
                    Some(s1) => Step::Next(push(s1, s.stack[n - 1])),
                    None => Step::Fault,
                }
            } else {
                Step::Fault
            }
        },
        OpCode::Jump => jump(s, instr.spec_wide_arg() as int),
        OpCode::JumpBack => {
            let back = instr.spec_wide_arg() + 1;
            if back <= fr.ip {
                Step::Next(set_ip(s, (fr.ip - back) as usize))
            } else {
                Step::Fault
            }
        },
        OpCode::MakeList => {
            let k = instr.spec_wide_arg() as int;
            if k <= n {
                Step::Next(with_stack(s, s.stack.take(n - k).push(Val::List(s.stack.skip(n - k)))))
            } else {
                Step::Fault
            }
        },
        OpCode::MakeTuple => {
            let k = instr.spec_wide_arg() as int;
            if k <= n {
                Step::Next(with_stack(s, s.stack.take(n - k).push(Val::Tuple(s.stack.skip(n - k)))))
            } else {
                Step::Fault
            }
        },
        OpCode::MakeDict => {
            let k = 2 * instr.spec_wide_arg();
            if k <= n {
                Step::Next(
                    with_stack(
                        s,
                        s.stack.take(n - k).push(Val::Dict(dict_of(pairs_of(s.stack.skip(n - k))))),
                    ),
                )
            } else {
                Step::Fault
            }
        },
        OpCode::MakeStruct => {
            let k = 2 * instr.arg1;
            let vs = s.stack.skip(n - k);
            if k <= n && names_are_symbols(vs) {
                match constant_symbol(fs, f, instr.arg0 as int) {
                    Some(m) => Step::Next(
                        with_stack(
                            s,
                            s.stack.take(n - k).push(Val::Struct(m, dict_of(fields_of(vs)))),
                        ),
                    ),
                    None => Step::Fault,
                }
            } else {
                Step::Fault
            }
        },
        OpCode::GetField => if n >= 2 && s.stack[n - 1] is Symbol {
            match at_field(s.stack[n - 2], s.stack[n - 1]->Symbol_0) {
                Some(v) => Step::Next(with_stack(s, s.stack.take(n - 2).push(v))),
                None => Step::Raised(field_error(s.stack[n - 2], s.stack[n - 1]->Symbol_0), None),
            }
        } else {
            Step::Fault
        },
        OpCode::GetSubscript => if n >= 2 {
            match at(s.stack[n - 2], s.stack[n - 1]) {
                Some(v) => Step::Next(with_stack(s, s.stack.take(n - 2).push(v))),
                None => Step::Raised(at_error(s.stack[n - 2], s.stack[n - 1]), None),
            }
        } else {
            Step::Fault
        },
        OpCode::SetField => if n >= 3 && s.stack[n - 2] is Symbol {
            match set_field_value(s.stack[n - 3], s.stack[n - 2]->Symbol_0, s.stack[n - 1]) {
                Some(o) => Step::Next(with_stack(s, s.stack.take(n - 3).push(o))),
                None => Step::Raised(field_error(s.stack[n - 3], s.stack[n - 2]->Symbol_0), None),
            }
        } else {
            Step::Fault
        },
        OpCode::SetSubscript => if n >= 3 {
            match set_at_value(s.stack[n - 3], s.stack[n - 2], s.stack[n - 1]) {
                Some(o) => Step::Next(with_stack(s, s.stack.take(n - 3).push(o))),
                None => Step::Raised(set_at_error(s.stack[n - 3], s.stack[n - 2]), None),
            }
        } else {
            Step::Fault
        },
        OpCode::Dup => if instr.arg0 < n {
            Step::Next(push(s, s.stack[n - 1 - instr.arg0]))
        } else {
            Step::Fault
        },
        OpCode::GetIter => get_iter(fs, s),
        OpCode::CallIter => if n >= 1 {
            call(fs, s, s.stack[n - 1], Seq::empty())
        } else {
            Step::Fault
        },
        OpCode::ForIter => if n >= 1 {
            let s1 = with_stack(s, s.stack.drop_last());
            match s.stack[n - 1] {
                Val::Nil => jump(push(s1, Val::Nil), instr.spec_wide_arg() as int),
                Val::Tuple(t) => if t.len() == 2 {
                    Step::Next(push(s1, t[1]))
                } else {
                    Step::Raised(iterator_result_text(s.stack[n - 1]), None)
                },
                _ => Step::Raised(iterator_result_text(s.stack[n - 1]), None),
            }
        } else {
            Step::Fault
        },
        OpCode::UnpackTuple => if n >= 1 {
            match s.stack[n - 1] {
                Val::Tuple(t) => if t.len() == instr.arg0 {
                    Step::Next(with_stack(s, s.stack.drop_last() + t))
                } else {
                    Step::Raised(tuple_arity_text(instr.arg0), Some(s.stack[n - 1]))
                },
                _ => Step::Raised(tuple_arity_text(instr.arg0), Some(s.stack[n - 1])),
            }
        } else {
            Step::Fault
        },
        OpCode::Match => if n >= 1 {
            match match_operand(fs, f, instr.arg0 as int, s.stack[n - 1]) {
                Some(Some(slots)) => Step::Next(with_stack(s, s.stack.drop_last() + slots)),
                Some(None) => Step::Raised("Pattern match failed, got "@, Some(s.stack[n - 1])),
                None => Step::Fault,
            }
        } else {
            Step::Fault
        },
        OpCode::TryMatch => if n >= 1 {
            match match_operand(fs, f, instr.arg0 as int, s.stack[n - 1]) {
                Some(Some(slots)) => Step::Next(with_stack(s, s.stack + slots)),
                Some(None) => jump(s, instr.spec_arg1_arg2() as int),
                None => Step::Fault,
            }
        } else {
            Step::Fault
        },
        OpCode::MatchFailure => if n >= 1 {
            Step::Raised("value didn't match any case: "@, Some(s.stack[n - 1]))
        } else {
            Step::Fault
        },
    }
}

/// What the next instruction of the current frame does.
pub open spec fn step(fs: Seq<Function>, s: VmView) -> Step {
    if s.frames.len() == 0 {
        Step::Fault
    } else {
        let fr = s.frames.last();
        if fr.function >= fs.len() || fr.ip >= fs[fr.function as int].chunk.code@.len() {
            Step::Fault
        } else {
            execute(
                fs,
                set_ip(s, (fr.ip + 1) as usize),
                fs[fr.function as int].chunk.code@[fr.ip as int],
                fr.function as int,
            )
        }
    }
}

/// What running up to `n` instructions does: it stops early when the program finishes,
/// asks for outside work, raises or faults.
pub open spec fn run(fs: Seq<Function>, s: VmView, n: nat) -> Run
    decreases n,
{
    if n == 0 {
        Run::Paused(s)
    } else {
        match step(fs, s) {
            Step::Next(s1) => run(fs, s1, (n - 1) as nat),
            Step::Finished(v) => Run::Finished(v),
            Step::Outside(w, s1) => Run::Outside(w, s1),
            Step::Raised(m, v) => Run::Raised(m, v),
            Step::Fault => Run::Fault,
        }
    }
}

/// A global that `SetGlobal` stored is what `GetGlobal` of the same module and name reads
/// afterwards; every other global reads as before.
pub proof fn lemma_set_global_reads_back(fs: Seq<Function>, s: VmView, instr: Instr, f: int, key: Val)
    requires
        instr.op == OpCode::SetGlobal,
        execute(fs, s, instr, f) is Next,
    ensures
        ({
            let s1 = execute(fs, s, instr, f)->Next_0;
            let k = operand_key(fs, f, instr)->0;
            lookup(s1.globals, key) == if key == k {
                Some(s.stack.last())
            } else {
                lookup(s.globals, key)
            }
        }),
{
    let k = operand_key(fs, f, instr)->0;
    crate::dict::lemma_dict_put(s.globals, k, s.stack.last());
}

/// A global is defined once `SetGlobal` stored it.
pub proof fn lemma_set_global_defines(fs: Seq<Function>, s: VmView, instr: Instr, f: int)
    requires
        instr.op == OpCode::SetGlobal,
        execute(fs, s, instr, f) is Next,
    ensures
        has_key(execute(fs, s, instr, f)->Next_0.globals, operand_key(fs, f, instr)->0),
{
    let k = operand_key(fs, f, instr)->0;
    lemma_set_global_reads_back(fs, s, instr, f, k);
    assert(lookup(execute(fs, s, instr, f)->Next_0.globals, k) is Some);
}

} // verus!

use vstd::prelude::*;

use crate::numbers::{digits, usize_to_string};
use crate::string_utils::{concat_str, to_chars};
use crate::debug_text::{pattern_debug, value_debug};
use crate::value::{Val, Value};

use super::chunk::Chunk;
use super::function::Function;
use super::inst::{Instr, OpCode};

verus! {

/// `d` right-aligned in a field of two characters.
pub open spec fn pad2(d: Seq<char>) -> Seq<char> {
    if d.len() < 2 {
        seq![' '] + d
    } else {
        d
    }
}

pub open spec fn dec(n: int) -> Seq<char> {
    digits(n as nat)
}

/// How constant `k` of a chunk is shown: a symbol with a leading colon, a function by its
/// debug name, anything else by its debug text.
pub open spec fn constant_text(cs: Seq<Value>, fs: Seq<Function>, k: int) -> Seq<char> {
    if 0 <= k < cs.len() {
        match cs[k]@ {
            Val::Symbol(s) => ":"@ + s,
            Val::Function(f) => if f < fs.len() {
                fs[f as int].debug_name@
            } else {
                value_debug(cs[k]@)
            },
            v => value_debug(v),
        }
    } else {
        "{INVALID_CONSTANT}"@
    }
}

/// The debug text of pattern `k` of a chunk, or a marker when there is no such pattern.
pub open spec fn pattern_text(chunk: Chunk, k: int) -> Seq<char> {
    if 0 <= k < chunk.patterns@.len() {
        pattern_debug(chunk.patterns@[k])
    } else {
        "{INVALID_PATTERN}"@
    }
}

/// The text of instruction `instr` of `chunk`, without its line prefix.
pub open spec fn instr_text(instr: Instr, chunk: Chunk, fs: Seq<Function>) -> Seq<char> {
    let a0 = instr.arg0 as int;
    let a1 = instr.arg1 as int;
    let w = instr.spec_wide_arg() as int;
    let cs = chunk.constants@;
    let two = constant_text(cs, fs, a0) + ", "@ + constant_text(cs, fs, a1);
    match instr.op {
        OpCode::VmArg => "VmArg   "@ + dec(a0),
        OpCode::Constant => "Constant   "@ + dec(a0) + " \t\t"@ + constant_text(cs, fs, a0),
        OpCode::PushNil => "PushNil"@,
        OpCode::GetGlobal => "GetGlobal  "@ + dec(a0) + ", "@ + dec(a1) + " \t"@ + two,
        OpCode::SetGlobal => "SetGlobal  "@ + dec(a0) + ", "@ + dec(a1) + " \t"@ + two,
        OpCode::GlobalIsDefined => "GlobalIsDefined  "@ + dec(a0) + ", "@ + dec(a1) + " \t"@
            + two,
        OpCode::GetUpvalue => "GetUpvalue   \t"@ + dec(a0),
        OpCode::SetUpvalue => "SetUpvalue   \t"@ + dec(a0),
        OpCode::GetLocal => "GetLocal   \t"@ + dec(a0),
        OpCode::SetLocal => "SetLocal   \t"@ + dec(a0),
        OpCode::Call => "Call \t"@ + dec(a0),
        OpCode::TailCall => "TailCall \t"@ + dec(a0),
        OpCode::Return => "Return"@,
        OpCode::Closure => "Closure"@,
        OpCode::Add => "Add"@,
        OpCode::Sub => "Sub"@,
        OpCode::Mul => "Mul"@,
        OpCode::Div => "Div"@,
        OpCode::Eq => "Eq"@,
        OpCode::Neq => "Neq"@,
        OpCode::Gt => "Gt"@,
        OpCode::Gte => "Gte"@,
        OpCode::Lt => "Lt"@,
        OpCode::Lte => "Lte"@,
        OpCode::Neg => "Neg"@,
        OpCode::LogicalNeg => "LogicalNeg"@,
        OpCode::BranchIfTrue => "BranchIfTrue  "@ + dec(w),
        OpCode::BranchIfFalse => "BranchIfFalse "@ + dec(w),
        OpCode::Pop => "Pop"@,
        OpCode::PopLocals => "PopLocals "@ + dec(w),
        OpCode::Jump => "Jump "@ + dec(w),
        OpCode::JumpBack => "JumpBack -"@ + dec(w),
        OpCode::MakeList => "MakeList "@ + dec(w),
        OpCode::MakeTuple => "MakeTuple "@ + dec(w),
        OpCode::MakeDict => "MakeDict "@ + dec(w),
        OpCode::MakeStruct => "MakeStruct "@ + dec(a0) + " "@ + dec(a1) + " \t"@ + constant_text(
            cs,
            fs,
            a0,
        ),
        OpCode::GetField => "GetField"@,
        OpCode::GetSubscript => "GetSubscript"@,
        OpCode::SetField => "SetField"@,
        OpCode::SetSubscript => "SetSubscript"@,
        OpCode::Dup => "Dup "@ + dec(a0),
        OpCode::GetIter => "GetIter"@,
        OpCode::CallIter => "CallIter"@,
        OpCode::ForIter => "ForIter "@ + dec(w),
        OpCode::UnpackTuple => "UnpackTuple "@ + dec(a0),
        OpCode::Match => "Match "@ + dec(a0) + "     "@ + pattern_text(chunk, a0),
        OpCode::TryMatch => "TryMatch "@ + dec(a0) + " "@ + dec(instr.spec_arg1_arg2() as int),
        OpCode::MatchFailure => "MatchFailure"@,
    }
}

/// The line of the disassembly for instruction `i` of `chunk`.
pub open spec fn instr_line(chunk: Chunk, fs: Seq<Function>, i: int) -> Seq<char> {
    "[line "@ + pad2(dec(chunk.source_locs@[i].line as int)) + "] "@ + instr_text(
        chunk.code@[i],
        chunk,
        fs,
    ) + "\n"@
}

/// The text of constant `k` of `chunk`.
fn constant_string(chunk: &Chunk, functions: &Vec<Function>, k: u8) -> (r: String)
    ensures
        r@ == constant_text(chunk.constants@, functions@, k as int),
{
    proof {
        reveal_strlit(":");
        reveal_strlit("{INVALID_CONSTANT}");
    }
    let i = k as usize;
    if i < chunk.constants.len() {
        match &chunk.constants[i] {
            Value::Symbol(s) => concat_str(":", s.as_str()),
            Value::Function(f) => if *f < functions.len() {
                functions[*f].debug_name.clone()
            } else {
                chunk.constants[i].debug_text()
            },
            v => v.debug_text(),
        }
    } else {
        "{INVALID_CONSTANT}".to_owned()
    }
}

/// `a` followed by `b`.
fn join(a: String, b: &str) -> (r: String)
    ensures
        r@ == a@ + b@,
{
    concat_str(a.as_str(), b)
}

fn num(n: usize) -> (r: String)
    ensures
        r@ == dec(n as int),
{
    usize_to_string(n)
}

/// The text of an instruction that names only its opcode.
fn plain_name(op: OpCode) -> (r: Option<&'static str>)
    ensures
        match r {
            Some(t) => (op == OpCode::PushNil || op == OpCode::Return || op == OpCode::Closure
                || op == OpCode::Add || op == OpCode::Sub || op == OpCode::Mul || op == OpCode::Div
                || op == OpCode::Eq || op == OpCode::Neq || op == OpCode::Gt || op == OpCode::Gte
                || op == OpCode::Lt || op == OpCode::Lte || op == OpCode::Neg || op
                == OpCode::LogicalNeg || op == OpCode::Pop || op == OpCode::GetField || op
                == OpCode::GetSubscript || op == OpCode::SetField || op == OpCode::SetSubscript
                || op == OpCode::GetIter || op == OpCode::CallIter || op == OpCode::MatchFailure)
                && forall|instr: Instr, chunk: Chunk, fs: Seq<Function>|
                instr.op == op ==> #[trigger] instr_text(instr, chunk, fs) == t@,
            None => !(op == OpCode::PushNil || op == OpCode::Return || op == OpCode::Closure || op
                == OpCode::Add || op == OpCode::Sub || op == OpCode::Mul || op == OpCode::Div || op
                == OpCode::Eq || op == OpCode::Neq || op == OpCode::Gt || op == OpCode::Gte || op
                == OpCode::Lt || op == OpCode::Lte || op == OpCode::Neg || op
                == OpCode::LogicalNeg || op == OpCode::Pop || op == OpCode::GetField || op
                == OpCode::GetSubscript || op == OpCode::SetField || op == OpCode::SetSubscript
                || op == OpCode::GetIter || op == OpCode::CallIter || op == OpCode::MatchFailure),
        },
{
    proof {
        reveal_strlit("PushNil");
        reveal_strlit("Return");
        reveal_strlit("Closure");
        reveal_strlit("Add");
        reveal_strlit("Sub");
        reveal_strlit("Mul");
        reveal_strlit("Div");
        reveal_strlit("Eq");
        reveal_strlit("Neq");
        reveal_strlit("Gt");
        reveal_strlit("Gte");
        reveal_strlit("Lt");
        reveal_strlit("Lte");
        reveal_strlit("Neg");
        reveal_strlit("LogicalNeg");
        reveal_strlit("Pop");
        reveal_strlit("GetField");
        reveal_strlit("GetSubscript");
        reveal_strlit("SetField");
        reveal_strlit("SetSubscript");
        reveal_strlit("GetIter");
        reveal_strlit("CallIter");
        reveal_strlit("MatchFailure");
    }
    match op {
        OpCode::PushNil => Some("PushNil"),
        OpCode::Return => Some("Return"),
        OpCode::Closure => Some("Closure"),
        OpCode::Add => Some("Add"),
        OpCode::Sub => Some("Sub"),
        OpCode::Mul => Some("Mul"),
        OpCode::Div => Some("Div"),
        OpCode::Eq => Some("Eq"),
        OpCode::Neq => Some("Neq"),
        OpCode::Gt => Some("Gt"),
        OpCode::Gte => Some("Gte"),
        OpCode::Lt => Some("Lt"),
        OpCode::Lte => Some("Lte"),
        OpCode::Neg => Some("Neg"),
        OpCode::LogicalNeg => Some("LogicalNeg"),
        OpCode::Pop => Some("Pop"),
        OpCode::GetField => Some("GetField"),
        OpCode::GetSubscript => Some("GetSubscript"),
        OpCode::SetField => Some("SetField"),
        OpCode::SetSubscript => Some("SetSubscript"),
        OpCode::GetIter => Some("GetIter"),
        OpCode::CallIter => Some("CallIter"),
        OpCode::MatchFailure => Some("MatchFailure"),
        _ => None,
    }
}

/// The label of an instruction that shows one number after it, and the number: the first
/// operand byte, or the wide operand.
fn numbered(instr: Instr) -> (r: Option<(&'static str, usize)>)
    ensures
        match r {
            Some((label, n)) => forall|chunk: Chunk, fs: Seq<Function>|
                #[trigger] instr_text(instr, chunk, fs) == label@ + dec(n as int),
            None => !(instr.op == OpCode::VmArg || instr.op == OpCode::GetUpvalue || instr.op
                == OpCode::SetUpvalue || instr.op == OpCode::GetLocal || instr.op
                == OpCode::SetLocal || instr.op == OpCode::Call || instr.op == OpCode::TailCall
                || instr.op == OpCode::BranchIfTrue || instr.op == OpCode::BranchIfFalse
                || instr.op == OpCode::PopLocals || instr.op == OpCode::Jump || instr.op
                == OpCode::JumpBack || instr.op == OpCode::MakeList || instr.op
                == OpCode::MakeTuple || instr.op == OpCode::MakeDict || instr.op == OpCode::Dup
                || instr.op == OpCode::ForIter || instr.op == OpCode::UnpackTuple),
        },
{
    proof {
        reveal_strlit("VmArg   ");
        reveal_strlit("GetUpvalue   \t");
        reveal_strlit("SetUpvalue   \t");
        reveal_strlit("GetLocal   \t");
        reveal_strlit("SetLocal   \t");
        reveal_strlit("Call \t");
        reveal_strlit("TailCall \t");
        reveal_strlit("BranchIfTrue  ");
        reveal_strlit("BranchIfFalse ");
        reveal_strlit("PopLocals ");
        reveal_strlit("Jump ");
        reveal_strlit("JumpBack -");
        reveal_strlit("MakeList ");
        reveal_strlit("MakeTuple ");
        reveal_strlit("MakeDict ");
        reveal_strlit("Dup ");
        reveal_strlit("ForIter ");
        reveal_strlit("UnpackTuple ");
    }
    let a = instr.arg0 as usize;
    let w = instr.wide_arg();
    match instr.op {
        OpCode::VmArg => Some(("VmArg   ", a)),
        OpCode::GetUpvalue => Some(("GetUpvalue   \t", a)),
        OpCode::SetUpvalue => Some(("SetUpvalue   \t", a)),
        OpCode::GetLocal => Some(("GetLocal   \t", a)),
        OpCode::SetLocal => Some(("SetLocal   \t", a)),
        OpCode::Call => Some(("Call \t", a)),
        OpCode::TailCall => Some(("TailCall \t", a)),
        OpCode::BranchIfTrue => Some(("BranchIfTrue  ", w)),
        OpCode::BranchIfFalse => Some(("BranchIfFalse ", w)),
        OpCode::PopLocals => Some(("PopLocals ", w)),
        OpCode::Jump => Some(("Jump ", w)),
        OpCode::JumpBack => Some(("JumpBack -", w)),
        OpCode::MakeList => Some(("MakeList ", w)),
        OpCode::MakeTuple => Some(("MakeTuple ", w)),
        OpCode::MakeDict => Some(("MakeDict ", w)),
        OpCode::Dup => Some(("Dup ", a)),
        OpCode::ForIter => Some(("ForIter ", w)),
        OpCode::UnpackTuple => Some(("UnpackTuple ", a)),
        _ => None,
    }
}

/// The text of instruction `instr` of `chunk`, without its line prefix.
fn instr_string(instr: Instr, chunk: &Chunk, functions: &Vec<Function>) -> (r: String)
    ensures
        r@ == instr_text(instr, *chunk, functions@),
{
    proof {
        reveal_strlit(", ");
        reveal_strlit(" \t");
        reveal_strlit(" \t\t");
        reveal_strlit(" ");
        reveal_strlit("     ");
        reveal_strlit("Constant   ");
        reveal_strlit("GetGlobal  ");
        reveal_strlit("SetGlobal  ");
        reveal_strlit("GlobalIsDefined  ");
        reveal_strlit("MakeStruct ");
        reveal_strlit("Match ");
        reveal_strlit("TryMatch ");
        reveal_strlit("{INVALID_PATTERN}");
    }
    let ghost fs = functions@;
    if let Some(t) = plain_name(instr.op) {
        assert(instr_text(instr, *chunk, fs) == t@);
        return t.to_owned();
    }
    if let Some((label, n)) = numbered(instr) {
        assert(instr_text(instr, *chunk, fs) == label@ + dec(n as int));
        return join(label.to_owned(), num(n).as_str());
    }
    let a0 = instr.arg0;
    let a1 = instr.arg1;
    match instr.op {
        OpCode::Constant => {
            let t = join(join("Constant   ".to_owned(), num(a0 as usize).as_str()), " \t\t");
            let r = join(t, constant_string(chunk, functions, a0).as_str());
            assert(r@ == instr_text(instr, *chunk, fs));
            r
        },
        OpCode::GetGlobal | OpCode::SetGlobal | OpCode::GlobalIsDefined => {
            let name = match instr.op {
                OpCode::GetGlobal => "GetGlobal  ",
                OpCode::SetGlobal => "SetGlobal  ",
                _ => "GlobalIsDefined  ",
            };
            let t = join(join(join(name.to_owned(), num(a0 as usize).as_str()), ", "), num(
                a1 as usize,
            ).as_str());
            let t = join(join(t, " \t"), constant_string(chunk, functions, a0).as_str());
            let r = join(join(t, ", "), constant_string(chunk, functions, a1).as_str());
            assert(r@ =~= instr_text(instr, *chunk, fs));
            r
        },
        OpCode::MakeStruct => {
            let t = join(join(join("MakeStruct ".to_owned(), num(a0 as usize).as_str()), " "), num(
                a1 as usize,
            ).as_str());
            let r = join(join(t, " \t"), constant_string(chunk, functions, a0).as_str());
            assert(r@ =~= instr_text(instr, *chunk, fs));
            r
        },
        OpCode::TryMatch => {
            let t = join(join("TryMatch ".to_owned(), num(a0 as usize).as_str()), " ");
            let r = join(t, num(instr.arg1_arg2()).as_str());
            assert(r@ =~= instr_text(instr, *chunk, fs));
            r
        },
        _ => {
            let p = if (a0 as usize) < chunk.patterns.len() {
                chunk.patterns[a0 as usize].debug_text()
            } else {
                "{INVALID_PATTERN}".to_owned()
            };
            let r = join(join(join("Match ".to_owned(), num(a0 as usize).as_str()), "     "), p.as_str());
            assert(r@ =~= instr_text(instr, *chunk, fs));
            r
        },
    }
}

/// The line of the disassembly for instruction `i` of `chunk`: its source line, right-aligned,
/// and the instruction's text.
pub fn disassemble_instruction(chunk: &Chunk, i: usize, functions: &Vec<Function>) -> (r: String)
    requires
        i < chunk.code@.len(),
        i < chunk.source_locs@.len(),
    ensures
        r@ == instr_line(*chunk, functions@, i as int),
{
    proof {
        reveal_strlit("[line ");
        reveal_strlit(" ");
        reveal_strlit("] ");
        reveal_strlit("\n");
    }
    let line = num(chunk.source_locs[i].line);
    let padded = if to_chars(line.as_str()).len() < 2 {
        join(" ".to_owned(), line.as_str())
    } else {
        line
    };
    let text = instr_string(chunk.code[i], chunk, functions);
    let r = join(join(join(join("[line ".to_owned(), padded.as_str()), "] "), text.as_str()), "\n");
    assert(r@ =~= instr_line(*chunk, functions@, i as int));
    r
}

/// The lines of the first `n` instructions of `chunk`.
pub open spec fn listing(chunk: Chunk, fs: Seq<Function>, n: nat) -> Seq<char>
    decreases n,
{
    if n == 0 {
        Seq::empty()
    } else {
        listing(chunk, fs, (n - 1) as nat) + instr_line(chunk, fs, n - 1)
    }
}

/// The disassembly of function `f`: a header with its name, one line per instruction, and an
/// empty line.
pub fn disassemble_function(functions: &Vec<Function>, f: usize) -> (r: String)
    requires
        f < functions@.len(),
        functions@[f as int].chunk.code@.len() <= functions@[f as int].chunk.source_locs@.len(),
    ensures
        r@ == "==== "@ + functions@[f as int].debug_name@ + " ====\n"@ + listing(
            functions@[f as int].chunk,
            functions@,
            functions@[f as int].chunk.code@.len(),
        ) + "\n"@,
{
    proof {
        reveal_strlit("==== ");
        reveal_strlit(" ====\n");
        reveal_strlit("\n");
    }
    let function = &functions[f];
    let mut out = join(join("==== ".to_owned(), function.debug_name.as_str()), " ====\n");
    let ghost head = out@;
    let mut i: usize = 0;
    while i < function.chunk.code.len()
        invariant
            i <= function.chunk.code@.len(),
            f < functions@.len(),
            function.chunk.code@.len() <= function.chunk.source_locs@.len(),
            *function == functions@[f as int],
            head == "==== "@ + functions@[f as int].debug_name@ + " ====\n"@,
            out@ == head + listing(function.chunk, functions@, i as nat),
        decreases function.chunk.code.len() - i,
    {
        let line = disassemble_instruction(&function.chunk, i, functions);
        out = join(out, line.as_str());
        i = i + 1;
    }
    let r = join(out, "\n");
    r
}

/// Function `g` is a constant of function `f`, compiled from the same source file.
pub open spec fn nested_in(fs: Seq<Function>, f: int, g: int) -> bool {
    exists|k: int|
        0 <= k < fs[f].chunk.constants@.len() && #[trigger] fs[f].chunk.constants@[k]@
            == Val::Function(g as usize) && fs[g].chunk.source_file@ == fs[f].chunk.source_file@
}

/// The functions to disassemble with `f`, in the order the disassembly shows them: `f`, then,
/// depth first, the functions that are constants of one already listed and come from the same
/// source file as it; each once.
pub fn nested_functions(functions: &Vec<Function>, f: usize) -> (r: Vec<usize>)
    requires
        f < functions@.len(),
    ensures
        r@.len() >= 1,
        r@[0] == f,
        forall|i: int| 0 <= i < r@.len() ==> #[trigger] r@[i] < functions@.len(),
        forall|i: int, j: int| 0 <= i < j < r@.len() ==> r@[i] != r@[j],
        forall|j: int|
            0 < j < r@.len() ==> exists|i: int|
                0 <= i < j && nested_in(functions@, r@[i] as int, #[trigger] r@[j] as int),
{
    let mut order: Vec<usize> = vec![f];
    let mut pending: Vec<(usize, usize)> = Vec::new();
    let n = functions.len();
    let mut c = functions[f].chunk.constants.len();
    while c > 0
        invariant
            c <= functions@[f as int].chunk.constants@.len(),
            n == functions@.len(),
            f < n,
            forall|q: int|
                0 <= q < pending@.len() ==> #[trigger] pending@[q].0 == 0 && pending@[q].1
                    < functions@[f as int].chunk.constants@.len(),
        decreases c,
    {
        c = c - 1;
        let ghost before = pending@;
        pending.push((0, c));
        assert forall|q: int| 0 <= q < pending@.len() implies #[trigger] pending@[q].0 == 0
            && pending@[q].1 < functions@[f as int].chunk.constants@.len() by {
            if q < before.len() {
                assert(pending@[q] == before[q]);
            }
        }
    }
    let ghost start_pending = pending@;
    let mut fuel: usize = usize::MAX;
    while pending.len() > 0 && fuel > 0
        invariant
            n == functions@.len(),
            order@.len() >= 1,
            order@[0] == f,
            forall|i: int| 0 <= i < order@.len() ==> #[trigger] order@[i] < n,
            forall|i: int, j: int| 0 <= i < j < order@.len() ==> order@[i] != order@[j],
            forall|j: int|
                0 < j < order@.len() ==> exists|i: int|
                    0 <= i < j && nested_in(functions@, order@[i] as int, #[trigger] order@[j] as int),
            forall|q: int|
                0 <= q < pending@.len() ==> #[trigger] pending@[q].0 < order@.len()
                    && pending@[q].1 < functions@[order@[pending@[q].0 as int] as int].chunk.constants@.len(),
        decreases fuel,
    {
        fuel = fuel - 1;
        let (owner_pos, k) = pending.pop().unwrap();
        let owner = order[owner_pos];
        match &functions[owner].chunk.constants[k] {
            Value::Function(g) => {
                let g = *g;
                if g < n {
                    let mut seen = false;
                    let mut i: usize = 0;
                    while i < order.len()
                        invariant
                            i <= order@.len(),
                            seen == exists|j: int| 0 <= j < i && order@[j] == g,
                        decreases order.len() - i,
                    {
                        if order[i] == g {
                            seen = true;
                        }
                        i = i + 1;
                    }
                    let same = crate::order::compare_str(
                        functions[g].chunk.source_file.as_str(),
                        functions[owner].chunk.source_file.as_str(),
                    );
                    proof {
                        crate::order::lemma_order_chars(
                            functions@[g as int].chunk.source_file@,
                            functions@[owner as int].chunk.source_file@,
                        );
                    }
                    if !seen && same == crate::order::Order::Equal {
                        proof {
                            assert(functions@[owner as int].chunk.constants@[k as int]@ == Val::Function(g));
                            assert(nested_in(functions@, owner as int, g as int));
                        }
                        let pos = order.len();
                        let ghost old_order = order@;
                        order.push(g);
                        proof {
                            assert forall|j: int| 0 < j < order@.len() implies exists|i: int|
                                0 <= i < j && nested_in(
                                    functions@,
                                    order@[i] as int,
                                    #[trigger] order@[j] as int,
                                ) by {
                                if j < pos {
                                    let i = choose|i: int|
                                        0 <= i < j && nested_in(
                                            functions@,
                                            old_order[i] as int,
                                            #[trigger] old_order[j] as int,
                                        );
                                    assert(order@[i] == old_order[i]);
                                    assert(order@[j] == old_order[j]);
                                } else {
                                    assert(order@[owner_pos as int] == owner);
                                    assert(order@[j] == g);
                                }
                            }
                            assert forall|a: int, b: int|
                                0 <= a < b < order@.len() implies order@[a] != order@[b] by {
                                if b == pos {
                                    assert(order@[a] == old_order[a]);
                                }
                            }
                        }
                        let mut c2 = functions[g].chunk.constants.len();
                        while c2 > 0
                            invariant
                                g < functions@.len(),
                                n == functions@.len(),
                                forall|i: int| 0 <= i < order@.len() ==> #[trigger] order@[i] < n,
                                c2 <= functions@[g as int].chunk.constants@.len(),
                                pos < order@.len(),
                                order@[pos as int] == g,
                                forall|q: int|
                                    0 <= q < pending@.len() ==> #[trigger] pending@[q].0 < order@.len()
                                        && pending@[q].1 < functions@[order@[pending@[q].0 as int] as int]
                                        .chunk.constants@.len(),
                            decreases c2,
                        {
                            c2 = c2 - 1;
                            pending.push((pos, c2));
                        }
                    }
                }
            },
            _ => {},
        }
    }
    order
}

} // verus!

use vstd::prelude::*;

verus! {

/// Largest value (exclusive) that fits in the 24-bit wide operand of an instruction.
pub open spec fn wide_limit() -> nat {
    0x1000000
}

/// A single bytecode instruction: an opcode and three byte-sized operands.  Some instructions
/// treat the three operand bytes as one little-endian 24-bit operand (the "wide" operand).
#[derive(Debug, Clone, Copy)]
pub struct Instr {
    pub op: OpCode,
    pub arg0: u8,
    pub arg1: u8,
    pub arg2: u8,
}

#[derive(Debug, Clone, Copy, PartialEq, Eq, Structural)]
pub enum OpCode {
    /// VmArg(arg) -0 +1 - fetches an arg provided to the VM.  `arg` corresponds to a number in
    /// this table:
    ///
    ///   1: argv
    VmArg,
    /// Constant(index) +1  - pushes constant at arg0 to stack
    Constant,
    /// PushNil +1 - pushes a nil to stack
    PushNil,
    /// GetGlobal(module, name) +1 - gets global value and pushes to stack
    GetGlobal,
    /// SetGlobal(module, name) -1 - sets global value to value at top of stack
    SetGlobal,
    /// GlobalIsDefined(module, name) +1 - checks if global is defined (used to guard against
    /// loading a module twice)
    GlobalIsDefined,
    /// GetUpvalue(index) +1 - gets upvalue and pushes to stack
    GetUpvalue,
    /// SetUpvalue(index) -1 - sets upvalue to value at top of stack
    SetUpvalue,
    /// GetLocal(index) +1 - gets local variable and pushes to stack
    GetLocal,
    /// SetLocal(index) -1 - sets local variable to value at top of stack
    SetLocal,
    /// Call(num_args) -1 -n +1 - calls function
    Call,
    /// TailCall(num_args) -1 -n +1 - calls function, replacing current frame
    TailCall,
    /// Return -1 - returns from function
    Return,
    /// Closure -1 +1 - creates a closure from the function at the top of the stack
    Closure,
    /// Add -2 +1 - adds two values
    Add,
    /// Sub -2 +1 - subtracts two values
    Sub,
    /// Mul -2 +1 - multiplies two values
    Mul,
    /// Div -2 +1 - divides two values
    Div,
    /// Eq -2 +1 - checks equality between two values
    Eq,
    /// Neq -2 +1 - checks inequality between two values
    Neq,
    /// Gt -2 +1 - checks if left value is greater than right value
    Gt,
    /// Gte -2 +1 - checks if left value is greater than or equal to right value
    Gte,
    /// Lt -2 +1 - checks if left value is less than right value
    Lt,
    /// Lte -2 +1 - checks if left value is less than or equal to right value
    Lte,
    /// Neg -1 +1 - negates value
    Neg,
    /// LogicalNeg -1 +1 - negates value
    LogicalNeg,
    /// BranchIfTrue(offset:24bit) -0 +0 - branches if value at top of stack is truthy.
    /// Doesn't pop value.
    BranchIfTrue,
    /// BranchIfFalse(offset:24bit) -0 +0 - branches if value at top of stack is falsey.
    /// Doesn't pop value.
    BranchIfFalse,
    /// Pop -1 +0 - pops value from stack
    Pop,
    /// PopLocals(n:24bit) -0 -n - saves top value, then pops n values, then restores top value
    /// Additionally will CloseUpvalue any upvalues in the locals
    PopLocals,
    /// Jump(offset:24bit) -0 +0 - jumps forward to the given offset
    Jump,
    /// JumpBack(offset:24bit) -0 +0 - jumps back to the given offset
    JumpBack,
    /// MakeList(size:24bit) -n +1 - makes a list with n elements
    MakeList,
    /// MakeTuple(size:24bit) -n +1 - makes a tuple with n elements
    MakeTuple,
    /// MakeDict(size:24bit) -n*2 +1 - makes a dictionary with n key value pairs
    MakeDict,
    /// MakeStruct(kind, size) -n*2 +1 - makes a struct with n key value pairs
    /// First argument is index into constants to get struct kind (Symbol)
    /// Second argument is number of key/value pairs on stack
    MakeStruct,
    /// GetField -2 +1 - accesses a field (object.key)
    GetField,
    /// GetSubscript -2 +1 - accesses a field via subscript (object[key])
    GetSubscript,
    /// SetField -3 +1 - sets a field (object.key = value)
    SetField,
    /// SetSubscript -3 +1 - sets a field via subscript (object[key] = value)
    SetSubscript,
    /// Dup(n:24bit) -0 +1 - duplicate element at stack[top - n]
    /// Dup 0 - duplicate top of stack, Dup 1 - duplicate second topmost value in stack, etc.
    Dup,
    /// GetIter -1 +1 - gets iterator for value at top of stack
    GetIter,
    /// CallIter -0, +1 - calls iterator, pushing result - (:some, value) or nil
    CallIter,
    /// ForIter(offset:24bit) -1 +1 - unpacks result of CallIter or jumps to offset when iterator
    /// is exhausted
    ForIter,
    /// UnpackTuple(arity) -1 +arity - unpacks a tuple, popping it & pushing each element
    UnpackTuple,
    /// Match(pattern) -1 +n - matches the top of the stack against pattern `arg0` of the chunk,
    /// pushing the values bound by the pattern; raises when the value doesn't match
    Match,
    /// TryMatch(pattern, offset:16bit) -0 +n - matches the top of the stack (without popping it)
    /// against pattern `arg0`, pushing the bound values; jumps forward by the offset held in
    /// arg1/arg2 when the value doesn't match
    TryMatch,
    /// MatchFailure -1 - raises because a value didn't match any case
    MatchFailure,
}

/// The number of opcodes.
pub const OPCODE_COUNT: usize = 48;

impl OpCode {
    /// Position of the opcode in the declaration order (its discriminant).
    pub open spec fn spec_index(self) -> nat {
        match self {
            OpCode::VmArg => 0,
            OpCode::Constant => 1,
            OpCode::PushNil => 2,
            OpCode::GetGlobal => 3,
            OpCode::SetGlobal => 4,
            OpCode::GlobalIsDefined => 5,
            OpCode::GetUpvalue => 6,
            OpCode::SetUpvalue => 7,
            OpCode::GetLocal => 8,
            OpCode::SetLocal => 9,
            OpCode::Call => 10,
            OpCode::TailCall => 11,
            OpCode::Return => 12,
            OpCode::Closure => 13,
            OpCode::Add => 14,
            OpCode::Sub => 15,
            OpCode::Mul => 16,
            OpCode::Div => 17,
            OpCode::Eq => 18,
            OpCode::Neq => 19,
            OpCode::Gt => 20,
            OpCode::Gte => 21,
            OpCode::Lt => 22,
            OpCode::Lte => 23,
            OpCode::Neg => 24,
            OpCode::LogicalNeg => 25,
            OpCode::BranchIfTrue => 26,
            OpCode::BranchIfFalse => 27,
            OpCode::Pop => 28,
            OpCode::PopLocals => 29,
            OpCode::Jump => 30,
            OpCode::JumpBack => 31,
            OpCode::MakeList => 32,
            OpCode::MakeTuple => 33,
            OpCode::MakeDict => 34,
            OpCode::MakeStruct => 35,
            OpCode::GetField => 36,
            OpCode::GetSubscript => 37,
            OpCode::SetField => 38,
            OpCode::SetSubscript => 39,
            OpCode::Dup => 40,
            OpCode::GetIter => 41,
            OpCode::CallIter => 42,
            OpCode::ForIter => 43,
            OpCode::UnpackTuple => 44,
            OpCode::Match => 45,
            OpCode::TryMatch => 46,
            OpCode::MatchFailure => 47,
        }
    }

    /// The discriminant of the opcode.
    pub fn index(self) -> (r: usize)
        ensures
            r == self.spec_index(),
            r < OPCODE_COUNT,
    {
        match self {
            OpCode::VmArg => 0,
            OpCode::Constant => 1,
            OpCode::PushNil => 2,
            OpCode::GetGlobal => 3,
            OpCode::SetGlobal => 4,
            OpCode::GlobalIsDefined => 5,
            OpCode::GetUpvalue => 6,
            OpCode::SetUpvalue => 7,
            OpCode::GetLocal => 8,
            OpCode::SetLocal => 9,
            OpCode::Call => 10,
            OpCode::TailCall => 11,
            OpCode::Return => 12,
            OpCode::Closure => 13,
            OpCode::Add => 14,
            OpCode::Sub => 15,
            OpCode::Mul => 16,
            OpCode::Div => 17,
            OpCode::Eq => 18,
            OpCode::Neq => 19,
            OpCode::Gt => 20,
            OpCode::Gte => 21,
            OpCode::Lt => 22,
            OpCode::Lte => 23,
            OpCode::Neg => 24,
            OpCode::LogicalNeg => 25,
            OpCode::BranchIfTrue => 26,
            OpCode::BranchIfFalse => 27,
            OpCode::Pop => 28,
            OpCode::PopLocals => 29,
            OpCode::Jump => 30,
            OpCode::JumpBack => 31,
            OpCode::MakeList => 32,
            OpCode::MakeTuple => 33,
            OpCode::MakeDict => 34,
            OpCode::MakeStruct => 35,
            OpCode::GetField => 36,
            OpCode::GetSubscript => 37,
            OpCode::SetField => 38,
            OpCode::SetSubscript => 39,
            OpCode::Dup => 40,
            OpCode::GetIter => 41,
            OpCode::CallIter => 42,
            OpCode::ForIter => 43,
            OpCode::UnpackTuple => 44,
            OpCode::Match => 45,
            OpCode::TryMatch => 46,
            OpCode::MatchFailure => 47,
        }
    }

    /// The opcode whose discriminant is `n`, if there is one.
    pub fn from_index(n: usize) -> (r: Option<OpCode>)
        ensures
            n < OPCODE_COUNT <==> r is Some,
            r matches Some(op) ==> op.spec_index() == n,
    {
        match n {
            0 => Some(OpCode::VmArg),
            1 => Some(OpCode::Constant),
            2 => Some(OpCode::PushNil),
            3 => Some(OpCode::GetGlobal),
            4 => Some(OpCode::SetGlobal),
            5 => Some(OpCode::GlobalIsDefined),
            6 => Some(OpCode::GetUpvalue),
            7 => Some(OpCode::SetUpvalue),
            8 => Some(OpCode::GetLocal),
            9 => Some(OpCode::SetLocal),
            10 => Some(OpCode::Call),
            11 => Some(OpCode::TailCall),
            12 => Some(OpCode::Return),
            13 => Some(OpCode::Closure),
            14 => Some(OpCode::Add),
            15 => Some(OpCode::Sub),
            16 => Some(OpCode::Mul),
            17 => Some(OpCode::Div),
            18 => Some(OpCode::Eq),
            19 => Some(OpCode::Neq),
            20 => Some(OpCode::Gt),
            21 => Some(OpCode::Gte),
            22 => Some(OpCode::Lt),
            23 => Some(OpCode::Lte),
            24 => Some(OpCode::Neg),
            25 => Some(OpCode::LogicalNeg),
            26 => Some(OpCode::BranchIfTrue),
            27 => Some(OpCode::BranchIfFalse),
            28 => Some(OpCode::Pop),
            29 => Some(OpCode::PopLocals),
            30 => Some(OpCode::Jump),
            31 => Some(OpCode::JumpBack),
            32 => Some(OpCode::MakeList),
            33 => Some(OpCode::MakeTuple),
            34 => Some(OpCode::MakeDict),
            35 => Some(OpCode::MakeStruct),
            36 => Some(OpCode::GetField),
            37 => Some(OpCode::GetSubscript),
            38 => Some(OpCode::SetField),
            39 => Some(OpCode::SetSubscript),
            40 => Some(OpCode::Dup),
            41 => Some(OpCode::GetIter),
            42 => Some(OpCode::CallIter),
            43 => Some(OpCode::ForIter),
            44 => Some(OpCode::UnpackTuple),
            45 => Some(OpCode::Match),
            46 => Some(OpCode::TryMatch),
            47 => Some(OpCode::MatchFailure),
            _ => None,
        }
    }
}

/// Every opcode is found again from its discriminant.
pub proof fn lemma_opcode_index_roundtrip(op: OpCode)
    ensures
        op.spec_index() < OPCODE_COUNT,
        forall|other: OpCode| #[trigger] other.spec_index() == op.spec_index() ==> other == op,
{
}

impl Instr {
    /// The 24-bit operand held little-endian in the three operand bytes.
    pub open spec fn spec_wide_arg(self) -> nat {
        self.arg0 as nat + 256 * (self.arg1 as nat) + 65536 * (self.arg2 as nat)
    }

    /// The 16-bit operand held little-endian in `arg1` and `arg2`.
    pub open spec fn spec_arg1_arg2(self) -> nat {
        self.arg1 as nat + 256 * (self.arg2 as nat)
    }

    /// An instruction whose operand bytes are `arg` truncated to 24 bits.
    pub open spec fn is_wide(self, op: OpCode, arg: usize) -> bool {
        &&& self.op == op
        &&& self.arg0 == arg % 256
        &&& self.arg1 == (arg / 256) % 256
        &&& self.arg2 == (arg / 65536) % 256
    }

    /// An instruction with the given opcode and operand bytes.
    pub open spec fn is_plain(self, op: OpCode, arg0: u8, arg1: u8, arg2: u8) -> bool {
        &&& self.op == op
        &&& self.arg0 == arg0
        &&& self.arg1 == arg1
        &&& self.arg2 == arg2
    }

    pub fn vm_arg(index: u8) -> (r: Self)
        ensures
            r.is_plain(OpCode::VmArg, index, 0, 0),
    {
        Self::new(OpCode::VmArg, index, 0, 0)
    }

    pub fn constant(index: u8) -> (r: Self)
        ensures
            r.is_plain(OpCode::Constant, index, 0, 0),
    {
        Self::new(OpCode::Constant, index, 0, 0)
    }

    pub fn push_nil() -> (r: Self)
        ensures
            r.is_plain(OpCode::PushNil, 0, 0, 0),
    {
        Self::new(OpCode::PushNil, 0, 0, 0)
    }

    pub fn get_global(module: u8, name: u8) -> (r: Self)
        ensures
            r.is_plain(OpCode::GetGlobal, module, name, 0),
    {
        Self::new(OpCode::GetGlobal, module, name, 0)
    }

    pub fn set_global(module: u8, name: u8) -> (r: Self)
        ensures
            r.is_plain(OpCode::SetGlobal, module, name, 0),
    {
        Self::new(OpCode::SetGlobal, module, name, 0)
    }

    pub fn global_is_defined(module: u8, name: u8) -> (r: Self)
        ensures
            r.is_plain(OpCode::GlobalIsDefined, module, name, 0),
    {
        Self::new(OpCode::GlobalIsDefined, module, name, 0)
    }

    pub fn get_upvalue(index: u8) -> (r: Self)
        ensures
            r.is_plain(OpCode::GetUpvalue, index, 0, 0),
    {
        Self::new(OpCode::GetUpvalue, index, 0, 0)
    }

    pub fn set_upvalue(index: u8) -> (r: Self)
        ensures
            r.is_plain(OpCode::SetUpvalue, index, 0, 0),
    {
        Self::new(OpCode::SetUpvalue, index, 0, 0)
    }

    pub fn get_local(index: u8) -> (r: Self)
        ensures
            r.is_plain(OpCode::GetLocal, index, 0, 0),
    {
        Self::new(OpCode::GetLocal, index, 0, 0)
    }

    pub fn set_local(index: u8) -> (r: Self)
        ensures
            r.is_plain(OpCode::SetLocal, index, 0, 0),
    {
        Self::new(OpCode::SetLocal, index, 0, 0)
    }

    pub fn call(num_args: u8) -> (r: Self)
        ensures
            r.is_plain(OpCode::Call, num_args, 0, 0),
    {
        Self::new(OpCode::Call, num_args, 0, 0)
    }

    pub fn tail_call(num_args: u8) -> (r: Self)
        ensures
            r.is_plain(OpCode::TailCall, num_args, 0, 0),
    {
        Self::new(OpCode::TailCall, num_args, 0, 0)
    }

    pub fn return_() -> (r: Self)
        ensures
            r.is_plain(OpCode::Return, 0, 0, 0),
    {
        Self::new(OpCode::Return, 0, 0, 0)
    }

    pub fn closure() -> (r: Self)
        ensures
            r.is_plain(OpCode::Closure, 0, 0, 0),
    {
        Self::new(OpCode::Closure, 0, 0, 0)
    }

    pub fn add() -> (r: Self)
        ensures
            r.is_plain(OpCode::Add, 0, 0, 0),
    {
        Self::new(OpCode::Add, 0, 0, 0)
    }

    pub fn sub() -> (r: Self)
        ensures
            r.is_plain(OpCode::Sub, 0, 0, 0),
    {
        Self::new(OpCode::Sub, 0, 0, 0)
    }

    pub fn mul() -> (r: Self)
        ensures
            r.is_plain(OpCode::Mul, 0, 0, 0),
    {
        Self::new(OpCode::Mul, 0, 0, 0)
    }

    pub fn div() -> (r: Self)
        ensures
            r.is_plain(OpCode::Div, 0, 0, 0),
    {
        Self::new(OpCode::Div, 0, 0, 0)
    }

    pub fn eq() -> (r: Self)
        ensures
            r.is_plain(OpCode::Eq, 0, 0, 0),
    {
        Self::new(OpCode::Eq, 0, 0, 0)
    }

    pub fn neq() -> (r: Self)
        ensures
            r.is_plain(OpCode::Neq, 0, 0, 0),
    {
        Self::new(OpCode::Neq, 0, 0, 0)
    }

    pub fn gt() -> (r: Self)
        ensures
            r.is_plain(OpCode::Gt, 0, 0, 0),
    {
        Self::new(OpCode::Gt, 0, 0, 0)
    }

    pub fn gte() -> (r: Self)
        ensures
            r.is_plain(OpCode::Gte, 0, 0, 0),
    {
        Self::new(OpCode::Gte, 0, 0, 0)
    }

    pub fn lt() -> (r: Self)
        ensures
            r.is_plain(OpCode::Lt, 0, 0, 0),
    {
        Self::new(OpCode::Lt, 0, 0, 0)
    }

    pub fn lte() -> (r: Self)
        ensures
            r.is_plain(OpCode::Lte, 0, 0, 0),
    {
        Self::new(OpCode::Lte, 0, 0, 0)
    }

    pub fn neg() -> (r: Self)
        ensures
            r.is_plain(OpCode::Neg, 0, 0, 0),
    {
        Self::new(OpCode::Neg, 0, 0, 0)
    }

    pub fn logical_neg() -> (r: Self)
        ensures
            r.is_plain(OpCode::LogicalNeg, 0, 0, 0),
    {
        Self::new(OpCode::LogicalNeg, 0, 0, 0)
    }

    pub fn branch_if_true(offset: usize) -> (r: Self)
        ensures
            r.is_wide(OpCode::BranchIfTrue, offset),
    {
        Self::new_wide(OpCode::BranchIfTrue, offset)
    }

    pub fn branch_if_false(offset: usize) -> (r: Self)
        ensures
            r.is_wide(OpCode::BranchIfFalse, offset),
    {
        Self::new_wide(OpCode::BranchIfFalse, offset)
    }

    pub fn pop() -> (r: Self)
        ensures
            r.is_plain(OpCode::Pop, 0, 0, 0),
    {
        Self::new(OpCode::Pop, 0, 0, 0)
    }

    pub fn pop_locals(n: usize) -> (r: Self)
        ensures
            r.is_wide(OpCode::PopLocals, n),
    {
        Self::new_wide(OpCode::PopLocals, n)
    }

    pub fn jump(offset: usize) -> (r: Self)
        ensures
            r.is_wide(OpCode::Jump, offset),
    {
        Self::new_wide(OpCode::Jump, offset)
    }

    pub fn jump_back(offset: usize) -> (r: Self)
        ensures
            r.is_wide(OpCode::JumpBack, offset),
    {
        Self::new_wide(OpCode::JumpBack, offset)
    }

    pub fn make_list(size: usize) -> (r: Self)
        ensures
            r.is_wide(OpCode::MakeList, size),
    {
        Self::new_wide(OpCode::MakeList, size)
    }

    pub fn make_tuple(size: usize) -> (r: Self)
        ensures
            r.is_wide(OpCode::MakeTuple, size),
    {
        Self::new_wide(OpCode::MakeTuple, size)
    }

    pub fn make_dict(size: usize) -> (r: Self)
        ensures
            r.is_wide(OpCode::MakeDict, size),
    {
        Self::new_wide(OpCode::MakeDict, size)
    }

    /// The size is kept modulo 256, as a byte.
    pub fn make_struct(kind: u8, size: usize) -> (r: Self)
        ensures
            r.op == OpCode::MakeStruct,
            r.arg0 == kind,
            r.arg1 == size % 256,
            r.arg2 == 0,
    {
        Self::new(OpCode::MakeStruct, kind, low_byte(size), 0)
    }

    pub fn get_field() -> (r: Self)
        ensures
            r.is_plain(OpCode::GetField, 0, 0, 0),
    {
        Self::new(OpCode::GetField, 0, 0, 0)
    }

    pub fn get_subscript() -> (r: Self)
        ensures
            r.is_plain(OpCode::GetSubscript, 0, 0, 0),
    {
        Self::new(OpCode::GetSubscript, 0, 0, 0)
    }

    pub fn set_field() -> (r: Self)
        ensures
            r.is_plain(OpCode::SetField, 0, 0, 0),
    {
        Self::new(OpCode::SetField, 0, 0, 0)
    }

    pub fn set_subscript() -> (r: Self)
        ensures
            r.is_plain(OpCode::SetSubscript, 0, 0, 0),
    {
        Self::new(OpCode::SetSubscript, 0, 0, 0)
    }

    pub fn dup(n: u8) -> (r: Self)
        ensures
            r.is_plain(OpCode::Dup, n, 0, 0),
    {
        Self::new(OpCode::Dup, n, 0, 0)
    }

    pub fn get_iter() -> (r: Self)
        ensures
            r.is_plain(OpCode::GetIter, 0, 0, 0),
    {
        Self::new(OpCode::GetIter, 0, 0, 0)
    }

    pub fn call_iter() -> (r: Self)
        ensures
            r.is_plain(OpCode::CallIter, 0, 0, 0),
    {
        Self::new(OpCode::CallIter, 0, 0, 0)
    }

    pub fn for_iter(end_offset: usize) -> (r: Self)
        ensures
            r.is_wide(OpCode::ForIter, end_offset),
    {
        Self::new_wide(OpCode::ForIter, end_offset)
    }

    /// The arity is kept modulo 256, as a byte.
    pub fn unpack_tuple(arity: usize) -> (r: Self)
        ensures
            r.op == OpCode::UnpackTuple,
            r.arg0 == arity % 256,
            r.arg1 == 0,
            r.arg2 == 0,
    {
        Self::new(OpCode::UnpackTuple, low_byte(arity), 0, 0)
    }

    /// Match against pattern number `pattern` of the chunk.
    pub fn match_(pattern: u8) -> (r: Self)
        ensures
            r.is_plain(OpCode::Match, pattern, 0, 0),
    {
        Self::new(OpCode::Match, pattern, 0, 0)
    }

    /// Try pattern number `pattern`; on failure jump forward by `offset`, kept modulo 2^16.
    pub fn try_match(pattern: u8, offset: usize) -> (r: Self)
        ensures
            r.op == OpCode::TryMatch,
            r.arg0 == pattern,
            r.arg1 == offset % 256,
            r.arg2 == (offset / 256) % 256,
    {
        let hi = low_byte(offset / 256);
        Self::new(OpCode::TryMatch, pattern, low_byte(offset), hi)
    }

    pub fn match_failure() -> (r: Self)
        ensures
            r.is_plain(OpCode::MatchFailure, 0, 0, 0),
    {
        Self::new(OpCode::MatchFailure, 0, 0, 0)
    }

    fn new(op: OpCode, arg0: u8, arg1: u8, arg2: u8) -> (r: Self)
        ensures
            r.is_plain(op, arg0, arg1, arg2),
    {
        Instr { op, arg0, arg1, arg2 }
    }

    fn new_wide(op: OpCode, arg: usize) -> (r: Self)
        ensures
            r.is_wide(op, arg),
    {
        let arg0 = low_byte(arg);
        let arg1 = low_byte(arg / 256);
        let arg2 = low_byte(arg / 65536);
        proof {
            lemma_div_div(arg);
        }
        Instr { op, arg0, arg1, arg2 }
    }

    /// The 24-bit operand.
    pub fn wide_arg(&self) -> (r: usize)
        ensures
            r == self.spec_wide_arg(),
            r < wide_limit(),
    {
        self.arg0 as usize + 256 * (self.arg1 as usize) + 65536 * (self.arg2 as usize)
    }

    /// The 16-bit operand held in `arg1` and `arg2`.
    pub fn arg1_arg2(&self) -> (r: usize)
        ensures
            r == self.spec_arg1_arg2(),
    {
        self.arg1 as usize + 256 * (self.arg2 as usize)
    }

    /// Replaces the operand bytes by `offset` truncated to 24 bits, keeping the opcode.
    pub fn set_wide_arg(&mut self, offset: usize)
        ensures
            final(self).is_wide(old(self).op, offset),
    {
        self.arg0 = low_byte(offset);
        self.arg1 = low_byte(offset / 256);
        self.arg2 = low_byte(offset / 65536);
        proof {
            lemma_div_div(offset);
        }
    }
}

/// The lowest byte of `n`.
fn low_byte(n: usize) -> (r: u8)
    ensures
        r == n % 256,
{
    (n % 256) as u8
}

proof fn lemma_div_div(n: usize)
    ensures
        (n / 256) / 256 == n / 65536,
{
    let m = n as int;
    assert((m / 256) / 256 == m / 65536) by (nonlinear_arith)
        requires
            m >= 0,
    ;
}

/// What the three operand bytes hold for `n` is `n` modulo 2^24: writing a wide operand and
/// reading it back gives the operand, whenever it fits in 24 bits.
pub proof fn lemma_wide_roundtrip(instr: Instr, op: OpCode, n: usize)
    requires
        instr.is_wide(op, n),
    ensures
        instr.spec_wide_arg() == (n as nat) % wide_limit(),
        n < wide_limit() ==> instr.spec_wide_arg() == n,
{
    let m = n as int;
    let a = m % 256;
    let q = m / 256;
    let b = q % 256;
    let c = q / 256;
    lemma_div_div(n);
    assert(m == a + 256 * q) by (nonlinear_arith)
        requires
            m >= 0,
            a == m % 256,
            q == m / 256,
    ;
    assert(q == b + 256 * c) by (nonlinear_arith)
        requires
            q >= 0,
            b == q % 256,
            c == q / 256,
    ;
    let c0 = c % 256;
    let c1 = c / 256;
    assert(c == c0 + 256 * c1) by (nonlinear_arith)
        requires
            c >= 0,
            c0 == c % 256,
            c1 == c / 256,
    ;
    assert(0 <= a < 256 && 0 <= b < 256 && 0 <= c0 < 256 && c1 >= 0);
    let low = a + 256 * b + 65536 * c0;
    assert(m == low + 0x1000000 * c1) by (nonlinear_arith)
        requires
            m == a + 256 * q,
            q == b + 256 * c,
            c == c0 + 256 * c1,
            low == a + 256 * b + 65536 * c0,
    ;
    assert(0 <= low < 0x1000000) by (nonlinear_arith)
        requires
            0 <= a < 256,
            0 <= b < 256,
            0 <= c0 < 256,
            low == a + 256 * b + 65536 * c0,
    ;
    assert(m % 0x1000000 == low) by (nonlinear_arith)
        requires
            m == low + 0x1000000 * c1,
            0 <= low < 0x1000000,
            c1 >= 0,
    ;
    assert(instr.arg2 == c0);
}

} // verus!

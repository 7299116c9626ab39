use dang::vm::inst::{Instr, OpCode};

#[test]
fn instr_is_4_bytes() {
    assert_eq!(std::mem::size_of::<Instr>(), 4);
}

#[test]
fn wide_operands() {
    let instr = Instr::branch_if_true(0x010203);
    assert_eq!(instr.wide_arg(), 0x010203);
}

#[test]
fn wide_operand_bytes_are_little_endian() {
    let instr = Instr::jump(0x0a0b0c);
    assert_eq!(instr.arg0, 0x0c);
    assert_eq!(instr.arg1, 0x0b);
    assert_eq!(instr.arg2, 0x0a);
    assert_eq!(instr.op, OpCode::Jump);
}

#[test]
fn wide_operand_keeps_low_24_bits() {
    let instr = Instr::jump(0x1_000_005);
    assert_eq!(instr.wide_arg(), 5);
}

#[test]
fn set_wide_arg_replaces_operand() {
    let mut instr = Instr::for_iter(7);
    instr.set_wide_arg(0x123456);
    assert_eq!(instr.wide_arg(), 0x123456);
    assert_eq!(instr.op, OpCode::ForIter);
}

#[test]
fn opcode_index_round_trips() {
    for i in 0..64usize {
        match OpCode::from_index(i) {
            Some(op) => assert_eq!(op.index(), i),
            None => assert!(i >= 48),
        }
    }
}

#[test]
fn plain_operands() {
    let instr = Instr::get_global(3, 4);
    assert_eq!(instr.op, OpCode::GetGlobal);
    assert_eq!(instr.arg0, 3);
    assert_eq!(instr.arg1, 4);
    let instr = Instr::try_match(2, 0x0102);
    assert_eq!(instr.arg0, 2);
    assert_eq!(instr.arg1_arg2(), 0x0102);
}

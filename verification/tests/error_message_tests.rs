use dang::ast::{BinOp, UnaryOp};
use dang::exception::Exception;
use dang::line_col::LineCol;
use dang::value::Value;
use dang::vm::chunk::Chunk;
use dang::vm::function::Function;
use dang::vm::inst::{Instr, OpCode};
use dang::vm::stats::{InstructionTimer, StatsCollector};
use dang::vm::pattern::{Pattern, PatternNode};
use dang::vm::VM;

fn run_error(chunk: Chunk) -> Exception {
    let mut vm = VM::new(vec![Function::new(chunk, 0, vec![], "test".to_owned())]);
    match vm.run() {
        Err(e) => e,
        Ok(other) => panic!("expected an exception, got {:?}", other),
    }
}

#[test]
fn binary_operator_errors_name_the_operator_and_operands() {
    let e = Value::bin_op(BinOp::Sub, &Value::String("a".to_owned()), &Value::String("b".to_owned()))
        .unwrap_err();
    assert_eq!(e.message, "cannot apply `Sub` to String(\"a\") and String(\"b\")");
    assert!(e.shown.is_none());
    let e = Value::bin_op(BinOp::Gt, &Value::Integer(1), &Value::Bool(true)).unwrap_err();
    assert_eq!(e.message, "cannot apply `Gt` to Integer(1) and Bool(true)");
    let e = Value::bin_op(BinOp::Add, &Value::Nil, &Value::List(vec![])).unwrap_err();
    assert_eq!(e.message, "cannot apply `Add` to Nil and List([])");
}

#[test]
fn unary_operator_errors_name_the_operator_and_operand() {
    let e = Value::unary_op(UnaryOp::Neg, &Value::String("x".to_owned())).unwrap_err();
    assert_eq!(e.message, "cannot Neg String(\"x\")");
}

#[test]
fn a_failed_pattern_shows_the_value() {
    let pattern = Pattern::new(0, PatternNode::Constant(Value::Integer(5)));
    let e = pattern.match_pattern(&Value::Integer(6)).unwrap_err();
    assert_eq!(e.message, "Pattern match failed, got ");
    assert_eq!(e.shown, Some(Value::Integer(6)));
}

#[test]
fn calling_a_non_function_shows_the_callee() {
    let mut chunk = Chunk::new();
    let three = chunk.write_constant(Value::Integer(3));
    chunk.write(Instr::constant(three), LineCol::unknown());
    chunk.write(Instr::call(0), LineCol::unknown());
    chunk.write(Instr::return_(), LineCol::unknown());
    let e = run_error(chunk);
    assert_eq!(e.message, "cannot call a non-function: ");
    assert_eq!(e.shown, Some(Value::Integer(3)));
}

#[test]
fn unpacking_the_wrong_tuple_shows_it() {
    let mut chunk = Chunk::new();
    let one = chunk.write_constant(Value::Integer(1));
    chunk.write(Instr::constant(one), LineCol::unknown());
    chunk.write(Instr::unpack_tuple(2), LineCol::unknown());
    chunk.write(Instr::return_(), LineCol::unknown());
    let e = run_error(chunk);
    assert_eq!(e.message, "expected 2 arity tuple, got ");
    assert_eq!(e.shown, Some(Value::Integer(1)));
}

#[test]
fn an_unmatched_case_shows_the_value() {
    let mut chunk = Chunk::new();
    let s = chunk.write_constant(Value::String("x".to_owned()));
    chunk.write(Instr::constant(s), LineCol::unknown());
    chunk.write(Instr::match_failure(), LineCol::unknown());
    chunk.write(Instr::return_(), LineCol::unknown());
    let e = run_error(chunk);
    assert_eq!(e.message, "value didn't match any case: ");
    assert_eq!(e.shown, Some(Value::String("x".to_owned())));
}

#[test]
fn positions_order_by_line_then_column() {
    assert!(LineCol::new(1, 9) < LineCol::new(2, 0));
    assert!(LineCol::new(2, 1) < LineCol::new(2, 3));
}

#[test]
fn a_stopped_timer_adds_its_time_to_its_opcode() {
    let mut stats = StatsCollector::new();
    let timer = InstructionTimer::new(OpCode::Add);
    timer.stop_after(&mut stats, 40);
    timer.stop_after(&mut stats, 2);
    let mut t = InstructionTimer::new(OpCode::Pop);
    t.stop(&mut stats);
    let rows = stats.rows();
    assert!(rows.contains(&(OpCode::Add.index(), 2, 42)));
    assert!(rows.iter().any(|r| r.0 == OpCode::Pop.index() && r.1 == 1 && r.2 >= 0));
}

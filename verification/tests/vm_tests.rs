use dang::exception::Exception;
use dang::line_col::LineCol;
use dang::native_funcs::NativeFunc;
use dang::value::Value;
use dang::vm::chunk::Chunk;
use dang::vm::function::Function;
use dang::vm::inst::Instr;
use dang::vm::{Outside, RunOutcome, VM};

fn run_chunk(chunk: Chunk) -> Result<RunOutcome, Exception> {
    let mut vm = VM::new(vec![Function::new(chunk, 0, vec![], "test".to_owned())]);
    vm.run()
}

fn finished(r: Result<RunOutcome, Exception>) -> Value {
    match r {
        Ok(RunOutcome::Finished(v)) => v,
        other => panic!("program did not finish: {:?}", other),
    }
}

#[test]
fn example() {
    let mut chunk = Chunk::new();

    let module = chunk.write_constant(Value::Symbol("example".into()));
    let test_var = chunk.write_constant(Value::Symbol("test_var".into()));

    let line_col = LineCol::unknown();

    // test_var = 5
    let five = chunk.write_constant(Value::Integer(5));
    chunk.write(Instr::constant(five), line_col.clone());
    chunk.write(Instr::set_global(module, test_var), line_col.clone());

    // test_var
    chunk.write(Instr::get_global(module, test_var), line_col.clone());
    chunk.write(Instr::return_(), line_col);

    let mut vm = VM::new(vec![Function::new(chunk, 0, vec![], "example".to_owned())]);

    assert_eq!(finished(vm.run()), Value::Integer(5));
}

#[test]
fn arithmetic_on_the_stack() {
    // 40 + 5 / (3 * -5) with truncating division: 45 / -15 = -3
    let mut chunk = Chunk::new();
    let lc = LineCol::unknown();
    let c40 = chunk.write_constant(Value::Integer(40));
    let c5 = chunk.write_constant(Value::Integer(5));
    let c3 = chunk.write_constant(Value::Integer(3));
    chunk.write(Instr::constant(c40), lc);
    chunk.write(Instr::constant(c5), lc);
    chunk.write(Instr::add(), lc);
    chunk.write(Instr::constant(c3), lc);
    chunk.write(Instr::constant(c5), lc);
    chunk.write(Instr::neg(), lc);
    chunk.write(Instr::mul(), lc);
    chunk.write(Instr::div(), lc);
    chunk.write(Instr::return_(), lc);
    assert_eq!(finished(run_chunk(chunk)), Value::Integer(-3));
}

#[test]
fn division_by_zero_raises() {
    let mut chunk = Chunk::new();
    let lc = LineCol::unknown();
    let c1 = chunk.write_constant(Value::Integer(1));
    let c0 = chunk.write_constant(Value::Integer(0));
    chunk.write(Instr::constant(c1), lc);
    chunk.write(Instr::constant(c0), lc);
    chunk.write(Instr::div(), lc);
    chunk.write(Instr::return_(), lc);
    assert!(run_chunk(chunk).is_err());
}

#[test]
fn missing_global_raises() {
    let mut chunk = Chunk::new();
    let lc = LineCol::unknown();
    let m = chunk.write_constant(Value::Symbol("m".into()));
    let x = chunk.write_constant(Value::Symbol("x".into()));
    chunk.write(Instr::get_global(m, x), lc);
    chunk.write(Instr::return_(), lc);
    assert!(run_chunk(chunk).is_err());
}

#[test]
fn global_is_defined_after_set() {
    let mut chunk = Chunk::new();
    let lc = LineCol::unknown();
    let m = chunk.write_constant(Value::Symbol("m".into()));
    let x = chunk.write_constant(Value::Symbol("x".into()));
    chunk.write(Instr::global_is_defined(m, x), lc);
    chunk.write(Instr::pop(), lc);
    chunk.write(Instr::push_nil(), lc);
    chunk.write(Instr::set_global(m, x), lc);
    chunk.write(Instr::global_is_defined(m, x), lc);
    chunk.write(Instr::return_(), lc);
    assert_eq!(finished(run_chunk(chunk)), Value::Bool(true));
}

#[test]
fn branch_skips_when_false() {
    // if false { 1 } else { 2 }
    let mut chunk = Chunk::new();
    let lc = LineCol::unknown();
    let f = chunk.write_constant(Value::Bool(false));
    let one = chunk.write_constant(Value::Integer(1));
    let two = chunk.write_constant(Value::Integer(2));
    chunk.write(Instr::constant(f), lc);
    let branch = chunk.write(Instr::branch_if_false(0), lc);
    chunk.write(Instr::pop(), lc);
    chunk.write(Instr::constant(one), lc);
    chunk.write(Instr::return_(), lc);
    chunk.patch_jump(branch);
    chunk.write(Instr::pop(), lc);
    chunk.write(Instr::constant(two), lc);
    chunk.write(Instr::return_(), lc);
    assert_eq!(finished(run_chunk(chunk)), Value::Integer(2));
}

#[test]
fn loop_counts_down_with_jump_back() {
    // var i = 3; var acc = 0; while i > 0 { acc = acc + i; i = i - 1 }; acc
    let mut chunk = Chunk::new();
    let lc = LineCol::unknown();
    let three = chunk.write_constant(Value::Integer(3));
    let zero = chunk.write_constant(Value::Integer(0));
    let one = chunk.write_constant(Value::Integer(1));
    chunk.write(Instr::constant(three), lc); // local 0: i
    chunk.write(Instr::constant(zero), lc); // local 1: acc
    let top = chunk.label("loop");
    chunk.write(Instr::get_local(0), lc);
    chunk.write(Instr::constant(zero), lc);
    chunk.write(Instr::gt(), lc);
    let exit = chunk.write(Instr::branch_if_false(0), lc);
    chunk.write(Instr::pop(), lc);
    chunk.write(Instr::get_local(1), lc);
    chunk.write(Instr::get_local(0), lc);
    chunk.write(Instr::add(), lc);
    chunk.write(Instr::set_local(1), lc);
    chunk.write(Instr::get_local(0), lc);
    chunk.write(Instr::constant(one), lc);
    chunk.write(Instr::sub(), lc);
    chunk.write(Instr::set_local(0), lc);
    chunk.write_jump_back(top, lc);
    chunk.patch_jump(exit);
    chunk.write(Instr::pop(), lc);
    chunk.write(Instr::get_local(1), lc);
    chunk.write(Instr::return_(), lc);
    assert_eq!(finished(run_chunk(chunk)), Value::Integer(6));
}

#[test]
fn calls_native_function() {
    // len("abcdef")
    let mut chunk = Chunk::new();
    let lc = LineCol::unknown();
    let f = chunk.write_constant(Value::NativeFunc(NativeFunc::Len));
    let s = chunk.write_constant(Value::String("abcdef".to_owned()));
    chunk.write(Instr::constant(f), lc);
    chunk.write(Instr::constant(s), lc);
    chunk.write(Instr::call(1), lc);
    chunk.write(Instr::return_(), lc);
    assert_eq!(finished(run_chunk(chunk)), Value::Integer(6));
}

#[test]
fn println_asks_for_output_then_continues() {
    let mut chunk = Chunk::new();
    let lc = LineCol::unknown();
    let f = chunk.write_constant(Value::NativeFunc(NativeFunc::Println));
    let s = chunk.write_constant(Value::String("hi".to_owned()));
    let n = chunk.write_constant(Value::Integer(7));
    chunk.write(Instr::constant(f), lc);
    chunk.write(Instr::constant(s), lc);
    chunk.write(Instr::constant(n), lc);
    chunk.write(Instr::call(2), lc);
    chunk.write(Instr::return_(), lc);
    let mut vm = VM::new(vec![Function::new(chunk, 0, vec![], "test".to_owned())]);
    match vm.run() {
        Ok(RunOutcome::Outside(Outside::Write(text))) => assert_eq!(text, "hi7\n"),
        other => panic!("expected output, got {:?}", other),
    }
    assert_eq!(finished(vm.run()), Value::Nil);
}

#[test]
fn calls_compiled_function_and_returns() {
    // main: f(20, 22) where f(a, b) = a + b
    let mut body = Chunk::new();
    let lc = LineCol::unknown();
    body.write(Instr::get_local(0), lc);
    body.write(Instr::get_local(1), lc);
    body.write(Instr::add(), lc);
    body.write(Instr::return_(), lc);
    let add = Function::new(body, 2, vec![], "add".to_owned());

    let mut main = Chunk::new();
    let f = main.write_constant(Value::Function(1));
    let a = main.write_constant(Value::Integer(20));
    let b = main.write_constant(Value::Integer(22));
    main.write(Instr::constant(f), lc);
    main.write(Instr::constant(a), lc);
    main.write(Instr::constant(b), lc);
    main.write(Instr::call(2), lc);
    main.write(Instr::return_(), lc);
    let main = Function::new(main, 0, vec![], "main".to_owned());

    let mut vm = VM::new(vec![main, add]);
    assert_eq!(finished(vm.run()), Value::Integer(42));
}

#[test]
fn wrong_number_of_arguments_raises() {
    let mut body = Chunk::new();
    let lc = LineCol::unknown();
    body.write(Instr::push_nil(), lc);
    body.write(Instr::return_(), lc);
    let g = Function::new(body, 2, vec![], "g".to_owned());
    let mut main = Chunk::new();
    let f = main.write_constant(Value::Function(1));
    let a = main.write_constant(Value::Integer(1));
    main.write(Instr::constant(f), lc);
    main.write(Instr::constant(a), lc);
    main.write(Instr::call(1), lc);
    main.write(Instr::return_(), lc);
    let main = Function::new(main, 0, vec![], "main".to_owned());
    let mut vm = VM::new(vec![main, g]);
    assert!(vm.run().is_err());
}

#[test]
fn iterates_over_a_range() {
    // sum of _range_iter(0, 5, 1)
    let mut chunk = Chunk::new();
    let lc = LineCol::unknown();
    let zero = chunk.write_constant(Value::Integer(0));
    let five = chunk.write_constant(Value::Integer(5));
    let one = chunk.write_constant(Value::Integer(1));
    let range = chunk.write_constant(Value::NativeFunc(NativeFunc::RangeIter));
    chunk.write(Instr::constant(zero), lc); // local 0: acc
    chunk.write(Instr::constant(range), lc);
    chunk.write(Instr::constant(zero), lc);
    chunk.write(Instr::constant(five), lc);
    chunk.write(Instr::constant(one), lc);
    chunk.write(Instr::call(3), lc); // local 1: iterator
    chunk.write(Instr::get_iter(), lc);
    let top = chunk.label("loop");
    chunk.write(Instr::call_iter(), lc);
    let exit = chunk.write(Instr::for_iter(0), lc);
    chunk.write(Instr::get_local(0), lc);
    chunk.write(Instr::add(), lc);
    chunk.write(Instr::set_local(0), lc);
    chunk.write_jump_back(top, lc);
    chunk.patch_jump(exit);
    chunk.write(Instr::pop(), lc);
    chunk.write(Instr::pop(), lc);
    chunk.write(Instr::get_local(0), lc);
    chunk.write(Instr::return_(), lc);
    assert_eq!(finished(run_chunk(chunk)), Value::Integer(10));
}

#[test]
fn closures_capture_locals() {
    // let x = 41; let f = fn() { x + 1 }; f()
    let lc = LineCol::unknown();
    let mut body = Chunk::new();
    let one = body.write_constant(Value::Integer(1));
    body.write(Instr::get_upvalue(0), lc);
    body.write(Instr::constant(one), lc);
    body.write(Instr::add(), lc);
    body.write(Instr::return_(), lc);
    let inner = Function::new(
        body,
        0,
        vec![dang::vm::function::UpvalueSource::Local { stack_index_relative_to_base: 0 }],
        "inner".to_owned(),
    );
    let mut main = Chunk::new();
    let x = main.write_constant(Value::Integer(41));
    let f = main.write_constant(Value::Function(1));
    main.write(Instr::constant(x), lc);
    main.write(Instr::constant(f), lc);
    main.write(Instr::closure(), lc);
    main.write(Instr::call(0), lc);
    main.write(Instr::return_(), lc);
    let main = Function::new(main, 0, vec![], "main".to_owned());
    let mut vm = VM::new(vec![main, inner]);
    assert_eq!(finished(vm.run()), Value::Integer(42));
}

#[test]
fn argv_is_pushed_by_vm_arg() {
    let mut chunk = Chunk::new();
    let lc = LineCol::unknown();
    chunk.write(Instr::vm_arg(1), lc);
    chunk.write(Instr::return_(), lc);
    let mut vm = VM::new(vec![Function::new(chunk, 0, vec![], "main".to_owned())]);
    vm.set_argv(vec!["a".to_owned(), "b".to_owned()]);
    assert_eq!(
        finished(vm.run()),
        Value::List(vec![Value::String("a".to_owned()), Value::String("b".to_owned())])
    );
}

#[test]
fn make_dict_keeps_last_value_of_a_key() {
    let mut chunk = Chunk::new();
    let lc = LineCol::unknown();
    let k = chunk.write_constant(Value::String("k".to_owned()));
    let one = chunk.write_constant(Value::Integer(1));
    let two = chunk.write_constant(Value::Integer(2));
    chunk.write(Instr::constant(k), lc);
    chunk.write(Instr::constant(one), lc);
    chunk.write(Instr::constant(k), lc);
    chunk.write(Instr::constant(two), lc);
    chunk.write(Instr::make_dict(2), lc);
    chunk.write(Instr::return_(), lc);
    assert_eq!(
        finished(run_chunk(chunk)),
        Value::Dict(vec![(Value::String("k".to_owned()), Value::Integer(2))])
    );
}

#[test]
fn malformed_bytecode_is_an_error() {
    let mut chunk = Chunk::new();
    let lc = LineCol::unknown();
    chunk.write(Instr::pop(), lc);
    assert!(run_chunk(chunk).is_err());
}

#[test]
fn run_n_pauses() {
    let mut chunk = Chunk::new();
    let lc = LineCol::unknown();
    chunk.write(Instr::push_nil(), lc);
    chunk.write(Instr::return_(), lc);
    let mut vm = VM::new(vec![Function::new(chunk, 0, vec![], "main".to_owned())]);
    assert!(matches!(vm.run_n(1), Ok(RunOutcome::Paused)));
    assert_eq!(finished(vm.run_n(1)), Value::Nil);
}

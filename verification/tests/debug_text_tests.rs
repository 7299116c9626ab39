use dang::line_col::LineCol;
use dang::value::Value;
use dang::vm::chunk::Chunk;
use dang::vm::disassembler::{disassemble_function, disassemble_instruction};
use dang::vm::function::Function;
use dang::vm::inst::Instr;
use dang::vm::pattern::{Pattern, PatternNode};

#[test]
fn debug_text_of_scalars() {
    assert_eq!(Value::Nil.debug_text(), "Nil");
    assert_eq!(Value::Bool(false).debug_text(), "Bool(false)");
    assert_eq!(Value::Integer(-42).debug_text(), "Integer(-42)");
    assert_eq!(Value::Symbol("x".to_owned()).debug_text(), "Symbol(\"x\")");
    assert_eq!(Value::Function(3).debug_text(), "Function(3)");
    assert_eq!(Value::Closure(0).debug_text(), "Closure(0)");
}

#[test]
fn debug_text_escapes_strings() {
    let v = Value::String("a\"b\\c\nd\te\u{1}".to_owned());
    assert_eq!(v.debug_text(), "String(\"a\\\"b\\\\c\\nd\\te\\u{1}\")");
    assert_eq!(v.debug_text(), format!("{:?}", v));
}

#[test]
fn debug_text_of_sequences() {
    let v = Value::List(vec![
        Value::Nil,
        Value::Tuple(vec![Value::Integer(1), Value::String("two".to_owned())]),
    ]);
    assert_eq!(v.debug_text(), "List([Nil, Tuple([Integer(1), String(\"two\")])])");
    assert_eq!(v.debug_text(), format!("{:?}", v));
    assert_eq!(Value::List(vec![]).debug_text(), "List([])");
}

#[test]
fn debug_text_of_dict_and_struct() {
    let d = Value::Dict(vec![
        (Value::Integer(1), Value::Bool(false)),
        (Value::Integer(2), Value::Nil),
    ]);
    assert_eq!(d.debug_text(), "Dict({Integer(1): Bool(false), Integer(2): Nil})");
    let s = Value::Struct(
        "Tests/Note".to_owned(),
        vec![(Value::String("a".to_owned()), Value::Integer(3))],
    );
    assert_eq!(
        s.debug_text(),
        "Struct(ModuleName(\"Tests/Note\"), {String(\"a\"): Integer(3)})"
    );
}

#[test]
fn debug_text_of_patterns() {
    let node = PatternNode::List {
        start: vec![PatternNode::Variable { stack_slot: 0 }, PatternNode::Wildcard],
        rest: Some(Box::new(PatternNode::Variable { stack_slot: 1 })),
        end: vec![PatternNode::Constant(Value::Integer(5))],
    };
    let text = node.debug_text();
    assert_eq!(
        text,
        "List { start: [Variable { stack_slot: 0 }, Wildcard], rest: Some(Variable { stack_slot: 1 }), end: [Constant(Integer(5))] }"
    );
    assert_eq!(text, format!("{:?}", node));
    let p = Pattern { stack_slot_count: 2, node: PatternNode::Tuple(vec![PatternNode::Wildcard]) };
    assert_eq!(p.debug_text(), "Pattern { stack_slot_count: 2, node: Tuple([Wildcard]) }");
    assert_eq!(p.debug_text(), format!("{:?}", p));
}

#[test]
fn disassembly_shows_constants_and_patterns() {
    let mut chunk = Chunk::new();
    let d = chunk.write_constant(Value::Dict(vec![(Value::Integer(1), Value::Bool(true))]));
    let p = chunk.write_pattern(Pattern { stack_slot_count: 1, node: PatternNode::Wildcard });
    chunk.write(Instr::constant(d), LineCol::new(3, 1));
    chunk.write(Instr::match_(p), LineCol::new(12, 1));
    chunk.write(Instr::match_(7), LineCol::new(12, 1));
    let functions = vec![Function::new(chunk, 0, vec![], "f".to_owned())];
    let chunk = &functions[0].chunk;
    assert_eq!(
        disassemble_instruction(chunk, 0, &functions),
        "[line  3] Constant   0 \t\tDict({Integer(1): Bool(true)})\n"
    );
    assert_eq!(
        disassemble_instruction(chunk, 1, &functions),
        "[line 12] Match 0     Pattern { stack_slot_count: 1, node: Wildcard }\n"
    );
    assert_eq!(
        disassemble_instruction(chunk, 2, &functions),
        "[line 12] Match 7     {INVALID_PATTERN}\n"
    );
    let listing = disassemble_function(&functions, 0);
    assert!(listing.starts_with("==== f ====\n[line  3] Constant"));
    assert!(listing.ends_with("{INVALID_PATTERN}\n\n"));
}

#[test]
fn line_col_from_pair() {
    let p: LineCol = (3, 7).into();
    assert_eq!(p, LineCol::new(3, 7));
    assert_eq!(LineCol::from((0, 0)), LineCol::unknown());
}

#[test]
fn a_missing_global_is_named_in_the_error() {
    let mut chunk = Chunk::new();
    let module = chunk.write_constant(Value::Symbol("example".to_owned()));
    let name = chunk.write_constant(Value::Symbol("nope".to_owned()));
    chunk.write(Instr::get_global(module, name), LineCol::unknown());
    chunk.write(Instr::return_(), LineCol::unknown());
    let mut vm = dang::vm::VM::new(vec![Function::new(chunk, 0, vec![], "test".to_owned())]);
    match vm.run() {
        Err(e) => assert_eq!(e.message, "Global not found: (\"example\", \"nope\")"),
        Ok(_) => panic!("expected the global to be missing"),
    }
}

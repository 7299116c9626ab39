use dang::ast::{BinOp, ImportKind, Node, NodeId, NodeKind, Source, UNSPECIFIED_NODE_LOCAL_ID};
use dang::compiler::finish_phase::finish_phase;
use dang::compiler::{CompilationState, Compiled, Compiler, Input, Phase};
use dang::exception::Exception;
use dang::module::ModuleName;
use dang::program::Program;
use dang::value::Value;

fn node(kind: NodeKind) -> Node {
    Node {
        id: NodeId { module: ModuleName::new(""), local_id: UNSPECIFIED_NODE_LOCAL_ID },
        kind,
        source: Source { file: "(test)".to_owned(), line: 1, col: 1 },
    }
}

fn ident(name: &str) -> Node {
    node(NodeKind::Identifier(name.to_owned()))
}

fn var(name: &str) -> Node {
    node(NodeKind::VariableRef { identifier: Box::new(ident(name)) })
}

fn pat(name: &str) -> Node {
    node(NodeKind::PatternIdentifier { identifier: Box::new(ident(name)) })
}

fn integer(i: i64) -> Node {
    node(NodeKind::IntegerLiteral(i))
}

fn string(s: &str) -> Node {
    node(NodeKind::StringLiteral(s.to_owned()))
}

fn call(f: Node, args: Vec<Node>) -> Node {
    node(NodeKind::FunctionCall { function: Box::new(f), args })
}

fn bin(op: BinOp, lhs: Node, rhs: Node) -> Node {
    node(NodeKind::BinaryOp { op, lhs: Box::new(lhs), rhs: Box::new(rhs) })
}

fn body(stmts: Vec<Node>) -> Node {
    node(NodeKind::Body(stmts))
}

fn for_print(items: Vec<Node>) -> Node {
    node(NodeKind::For {
        pattern: Box::new(pat("x")),
        enumerable: Box::new(node(NodeKind::ListLiteral(items))),
        body: Box::new(body(vec![call(var("print"), vec![var("x")])])),
    })
}

fn let_(name: &str, expr: Node) -> Node {
    node(NodeKind::Let { pattern: Box::new(pat(name)), expr: Box::new(expr) })
}

fn var_(name: &str, expr: Node) -> Node {
    node(NodeKind::Var { pattern: Box::new(pat(name)), expr: Box::new(expr) })
}

fn assert_eq_call(lhs: Node, rhs: Node) -> Node {
    call(var("assert"), vec![bin(BinOp::Eq, lhs, rhs)])
}

fn func(arg: &str, stmts: Vec<Node>) -> Node {
    node(NodeKind::FunctionLiteral { arg_names: vec![pat(arg)], body: Box::new(body(stmts)) })
}

/// Runs the phases up to `phase`, compiling (as empty modules) each module that is imported
/// and not yet in the program, as a caller of the compiler does.
fn run_until(phase: Phase, make: &dyn Fn() -> Node) -> CompilationState {
    let mut program = Program::new();
    let compiler = Compiler::new();
    let input = Input::SourceCode { text: String::new(), name: "(test)".to_owned() };
    loop {
        let r: Result<Compiled, Vec<Exception>> =
            compiler.run_until(&input, make(), phase, &program);
        match r {
            Ok(Compiled::Reached(state)) => return state,
            Ok(Compiled::NeedsModule(name)) => {
                finish_phase(&ModuleName::new(&name), 0, vec![], None, &mut program)
            }
            Ok(Compiled::Rejected) => panic!("tree rejected"),
            Err(es) => panic!("errors: {:?}", es),
        }
    }
}

#[test]
fn node_ids_pass() {
    let program = || node(NodeKind::SourceFile(vec![
        for_print(vec![integer(1), integer(2), integer(3)]),
        for_print(vec![string("a"), string("b"), string("c")]),
        var_("y", integer(1)),
        node(NodeKind::If {
            condition: Box::new(node(NodeKind::BoolLiteral(true))),
            body: Box::new(body(vec![
                var_("y", integer(5)),
                node(NodeKind::Assignment {
                    pattern: Box::new(pat("y")),
                    expr: Box::new(bin(BinOp::Add, var("y"), integer(1))),
                }),
                assert_eq_call(var("y"), integer(6)),
            ])),
            else_branch: None,
        }),
        assert_eq_call(var("y"), integer(1)),
        let_("curry_add", func("a", vec![func("b", vec![bin(BinOp::Add, var("a"), var("b"))])])),
        let_("add3", call(var("curry_add"), vec![integer(3)])),
        let_("add5", call(var("curry_add"), vec![integer(5)])),
        assert_eq_call(call(var("add3"), vec![integer(1)]), integer(4)),
        assert_eq_call(call(var("add5"), vec![integer(8)]), integer(13)),
    ]));
    let compilation_state = run_until(Phase::NodeIds, &program);

    for (i, node) in compilation_state.ast.iter().iter().enumerate() {
        assert_eq!(node.id.raw_id().1, i as u32);
    }
}

#[test]
fn struct_info_phase() {
    let program = || node(NodeKind::SourceFile(vec![
        node(NodeKind::Module("Point".to_owned())),
        node(NodeKind::StructDef {
            fields: vec![(ident("x"), None), (ident("y"), None), (ident("z"), Some(integer(0)))],
        }),
    ]));
    let compilation_state = run_until(Phase::StructInfo, &program);

    assert_eq!(compilation_state.errors.len(), 0);

    let struct_info = compilation_state.struct_info.expect("struct_info to be set");

    assert_eq!(struct_info.fields, vec!["x", "y", "z"]);
    assert_eq!(struct_info.required_fields, vec!["x".to_owned(), "y".to_owned()]);
    assert_eq!(struct_info.default_values, vec![("z".to_owned(), Value::Integer(0))]);
}

#[test]
fn imports_wait_for_their_modules_and_are_resolved() {
    let program = || {
        node(NodeKind::SourceFile(vec![node(NodeKind::Import(ImportKind::Module {
            module_name: "Geo/Point".to_owned(),
        }))]))
    };
    let compiler = Compiler { implicit_imports: vec![] };
    let input = Input::SourceCode { text: String::new(), name: "(test)".to_owned() };
    let mut p = Program::new();
    match compiler.run_until(&input, program(), Phase::ResolveImports, &p) {
        Ok(Compiled::NeedsModule(name)) => assert_eq!(name, "Geo/Point"),
        _ => panic!("expected the imported module to be asked for"),
    }
    finish_phase(&ModuleName::new("Geo/Point"), 0, vec![], None, &mut p);
    match compiler.run_until(&input, program(), Phase::ResolveImports, &p) {
        Ok(Compiled::Reached(state)) => {
            assert_eq!(state.imports.len(), 1);
            assert_eq!(state.imports[0].module_name.0, "Geo/Point");
        }
        _ => panic!("expected the phases to run"),
    }
}

#[test]
fn a_bad_pipe_stops_the_phases_with_its_errors() {
    let program = node(NodeKind::SourceFile(vec![node(NodeKind::Pipe {
        lhs: Box::new(integer(1)),
        rhs: Box::new(integer(2)),
    })]));
    let compiler = Compiler { implicit_imports: vec![] };
    let input = Input::SourceCode { text: String::new(), name: "(test)".to_owned() };
    let p = Program::new();
    match compiler.run_until(&input, program, Phase::ResolveImports, &p) {
        Err(es) => {
            assert_eq!(es.len(), 2);
            assert_eq!(es[1].message, "Failed to desugar pipe operator");
        }
        _ => panic!("expected errors"),
    }
}

#[test]
fn phases_before_the_prelude_leave_the_tree_alone() {
    let program = || node(NodeKind::SourceFile(vec![integer(1)]));
    let state = run_until(Phase::ParseAst, &program);
    match &state.ast.kind {
        NodeKind::SourceFile(stmts) => assert_eq!(stmts.len(), 1),
        _ => panic!("expected a source file"),
    }
    let with_prelude = run_until(Phase::InsertPrelude, &program);
    match &with_prelude.ast.kind {
        NodeKind::SourceFile(stmts) => assert_eq!(stmts.len(), 1 + Compiler::new().implicit_imports.len()),
        _ => panic!("expected a source file"),
    }
}

#[test]
fn compile_time_values_need_literals_all_the_way_down() {
    let literal = node(NodeKind::ListLiteral(vec![
        integer(1),
        node(NodeKind::TupleLiteral(vec![string("a"), node(NodeKind::NilLiteral)])),
        node(NodeKind::DictLiteral(vec![(integer(2), node(NodeKind::BoolLiteral(true)))])),
    ]));
    assert_eq!(
        literal.compile_time_value(),
        Some(Value::List(vec![
            Value::Integer(1),
            Value::Tuple(vec![Value::String("a".to_owned()), Value::Nil]),
            Value::Dict(vec![(Value::Integer(2), Value::Bool(true))]),
        ]))
    );
    // [one()]
    let with_call = node(NodeKind::ListLiteral(vec![call(var("one"), vec![])]));
    assert_eq!(with_call.compile_time_value(), None);
    // add(1, 1)
    assert_eq!(call(var("add"), vec![integer(1), integer(1)]).compile_time_value(), None);
    // {1: x}
    let with_var = node(NodeKind::DictLiteral(vec![(integer(1), var("x"))]));
    assert_eq!(with_var.compile_time_value(), None);
}

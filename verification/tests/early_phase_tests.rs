use dang::ast::{ImportKind, Node, NodeId, NodeKind, Source, UNSPECIFIED_NODE_LOCAL_ID};
use dang::compiler::compile_dependencies_phase::{dependencies, dependency_failed};
use dang::compiler::desugar_pipe_phase::desugar_pipe_phase;
use dang::compiler::read_file_phase::{read_file_phase, SourceText};
use dang::compiler::Input;
use dang::compiler::finish_phase::finish_phase;
use dang::compiler::insert_prelude_phase::{default_implicit_imports, insert_prelude_phase};
use dang::exception::Exception;
use dang::module::ModuleName;
use dang::program::Program;
use dang::vm::flamegraph::Flamegraph;

fn node(kind: NodeKind) -> Node {
    Node {
        id: NodeId { module: ModuleName::new("test"), local_id: 7 },
        kind,
        source: Source { file: "test.dang".to_owned(), line: 3, col: 5 },
    }
}

fn var_ref(name: &str) -> Node {
    node(NodeKind::VariableRef { identifier: Box::new(node(NodeKind::Identifier(name.to_owned()))) })
}

fn call(function: Node, args: Vec<Node>) -> Node {
    node(NodeKind::FunctionCall { function: Box::new(function), args })
}

fn pipe(lhs: Node, rhs: Node) -> Node {
    node(NodeKind::Pipe { lhs: Box::new(lhs), rhs: Box::new(rhs) })
}

fn integer(i: i64) -> Node {
    node(NodeKind::IntegerLiteral(i))
}

fn args_of(n: &Node) -> Vec<i64> {
    match &n.kind {
        NodeKind::FunctionCall { args, .. } => args
            .iter()
            .map(|a| match &a.kind {
                NodeKind::IntegerLiteral(i) => *i,
                _ => -1,
            })
            .collect(),
        other => panic!("expected a call, got {:?}", other),
    }
}

#[test]
fn a_pipe_becomes_a_call_with_the_left_side_first() {
    // 1 |> f(2, 3)
    let mut ast = node(NodeKind::SourceFile(vec![pipe(integer(1), call(var_ref("f"), vec![integer(2), integer(3)]))]));
    let mut errors: Vec<Exception> = Vec::new();
    assert!(desugar_pipe_phase(&mut ast, &mut errors).is_ok());
    let stmts = match &ast.kind {
        NodeKind::SourceFile(s) => s,
        _ => unreachable!(),
    };
    assert_eq!(args_of(&stmts[0]), vec![1, 2, 3]);
    // the call keeps the pipe's place and location
    assert_eq!(stmts[0].id.local_id, 7);
    assert_eq!(stmts[0].source.line, 3);
}

#[test]
fn chained_pipes_are_all_desugared() {
    // (1 |> f()) |> g(2)  becomes  g(f(1), 2)
    let inner = pipe(integer(1), call(var_ref("f"), vec![]));
    let mut ast = pipe(inner, call(var_ref("g"), vec![integer(2)]));
    let mut errors: Vec<Exception> = Vec::new();
    assert!(desugar_pipe_phase(&mut ast, &mut errors).is_ok());
    match &ast.kind {
        NodeKind::FunctionCall { function, args } => {
            assert!(matches!(&function.kind, NodeKind::VariableRef { .. }));
            assert_eq!(args.len(), 2);
            assert_eq!(args_of(&args[0]), vec![1]);
            assert!(matches!(&args[1].kind, NodeKind::IntegerLiteral(2)));
        }
        other => panic!("expected a call, got {:?}", other),
    }
}

#[test]
fn a_pipe_into_something_else_is_an_error() {
    let mut ast = node(NodeKind::SourceFile(vec![pipe(integer(1), integer(2))]));
    let mut errors: Vec<Exception> = Vec::new();
    let r = desugar_pipe_phase(&mut ast, &mut errors);
    assert_eq!(r.unwrap_err().message, "Failed to desugar pipe operator");
    assert_eq!(errors.len(), 1);
    assert_eq!(errors[0].message, "Pipe operator must be followed by a function call");
    assert_eq!(errors[0].source.as_ref().unwrap().line, 3);
    assert_eq!(errors[0].source.as_ref().unwrap().col, 5);
}

#[test]
fn earlier_errors_fail_the_desugar_phase() {
    let mut ast = node(NodeKind::SourceFile(vec![integer(1)]));
    let mut errors = vec![Exception::new("earlier".to_owned())];
    assert!(desugar_pipe_phase(&mut ast, &mut errors).is_err());
    assert_eq!(errors.len(), 1);
}

fn import_names(ast: &Node) -> Vec<String> {
    match &ast.kind {
        NodeKind::SourceFile(stmts) => stmts
            .iter()
            .map(|s| match &s.kind {
                NodeKind::Import(k) => k.module_name().to_owned(),
                NodeKind::Module(m) => format!("module {}", m),
                _ => "other".to_owned(),
            })
            .collect(),
        _ => unreachable!(),
    }
}

#[test]
fn the_prelude_follows_the_module_statement() {
    let mut ast = node(NodeKind::SourceFile(vec![node(NodeKind::Module("App".to_owned())), integer(1)]));
    let imports = vec![
        ImportKind::Module { module_name: "Std".to_owned() },
        ImportKind::AllFields { module_name: "Std/Enum".to_owned() },
    ];
    insert_prelude_phase(&ModuleName::new("App"), &imports, &mut ast);
    assert_eq!(import_names(&ast), vec!["module App", "Std", "Std/Enum", "other"]);
    match &ast.kind {
        NodeKind::SourceFile(stmts) => {
            assert_eq!(stmts[1].id.local_id, UNSPECIFIED_NODE_LOCAL_ID);
            assert_eq!(stmts[1].source.file, "<prelude>");
        }
        _ => unreachable!(),
    }
}

#[test]
fn the_prelude_leads_a_module_without_a_module_statement() {
    let mut ast = node(NodeKind::SourceFile(vec![integer(1)]));
    insert_prelude_phase(&ModuleName::new("App"), &default_implicit_imports(), &mut ast);
    assert_eq!(
        import_names(&ast),
        vec!["Std", "Std/Assert", "Std/Builtins", "Std/Enum", "Std/Range", "Std/Set", "Std/Stream", "other"]
    );
}

#[test]
fn the_standard_library_and_empty_modules_get_no_prelude() {
    let mut ast = node(NodeKind::SourceFile(vec![integer(1)]));
    insert_prelude_phase(&ModuleName::new("Std/Enum"), &default_implicit_imports(), &mut ast);
    assert_eq!(import_names(&ast), vec!["other"]);
    let mut empty = node(NodeKind::SourceFile(vec![]));
    insert_prelude_phase(&ModuleName::new("App"), &default_implicit_imports(), &mut empty);
    assert!(import_names(&empty).is_empty());
}

#[test]
fn finishing_adds_the_module_to_the_program() {
    let mut program = Program::new();
    finish_phase(&ModuleName::new("App"), 3, vec!["main".to_owned()], None, &mut program);
    let m = program.get_module("App").unwrap();
    assert_eq!(m.function, 3);
    assert_eq!(m.exports, vec!["main".to_owned()]);
    assert!(m.struct_info.is_none());
    assert_eq!(program.module_names(), vec!["App".to_owned()]);
}

#[test]
fn flame_graph_counts_each_stack_and_lists_the_busiest_first() {
    let mut g = Flamegraph::new();
    g.increment(vec![0, 1]);
    g.increment(vec![0]);
    g.increment(vec![0, 1]);
    g.increment(vec![0, 2]);
    g.increment(vec![0]);
    g.increment(vec![0, 1]);
    let rows = g.rows_by_count();
    assert_eq!(rows, vec![(vec![0, 1], 3), (vec![0], 2), (vec![0, 2], 1)]);
    let names = vec!["main".to_owned(), "f".to_owned(), "g".to_owned()];
    assert_eq!(g.folded_lines(&names), vec!["main;f 3", "main 2", "main;g 1"]);
}

#[test]
fn flame_graph_rows_that_count_the_same_keep_their_order() {
    let mut g = Flamegraph::new();
    g.increment(vec![2]);
    g.increment(vec![1]);
    g.increment(vec![3]);
    g.increment(vec![3]);
    let rows = g.rows_by_count();
    assert_eq!(rows, vec![(vec![3], 2), (vec![2], 1), (vec![1], 1)]);
}

fn stdlib() -> Vec<(String, String)> {
    vec![
        ("Std/Enum.dang".to_owned(), "let map = 1".to_owned()),
        ("Std/Set.dang".to_owned(), "let set = 2".to_owned()),
    ]
}

#[test]
fn given_source_text_is_used_as_it_is() {
    let input = Input::SourceCode { text: "1 + 2".to_owned(), name: "(run)".to_owned() };
    assert!(matches!(read_file_phase(&input, &stdlib()), Ok(SourceText::Found(t)) if t == "1 + 2"));
}

#[test]
fn standard_library_modules_come_from_the_embedded_files() {
    let input = Input::ModuleName("Std/Set".to_owned());
    assert!(matches!(read_file_phase(&input, &stdlib()), Ok(SourceText::Found(t)) if t == "let set = 2"));
    let missing = Input::ModuleName("Std/Nothing".to_owned());
    let e = read_file_phase(&missing, &stdlib()).unwrap_err();
    assert_eq!(e.message, "unable to find module: Std/Nothing");
}

#[test]
fn other_modules_are_read_from_the_search_paths() {
    let input = Input::ModuleName("App/Main".to_owned());
    assert!(matches!(
        read_file_phase(&input, &stdlib()),
        Ok(SourceText::InSearchPaths(p)) if p == "App/Main.dang"
    ));
}

#[test]
fn dependencies_are_the_imported_modules_in_order() {
    let ast = node(NodeKind::SourceFile(vec![
        node(NodeKind::Import(ImportKind::Module { module_name: "Std/Enum".to_owned() })),
        integer(1),
        node(NodeKind::Import(ImportKind::Field {
            module_name: "App/Util".to_owned(),
            field_name: "f".to_owned(),
        })),
    ]));
    let deps: Vec<String> = dependencies(&ast)
        .into_iter()
        .map(|i| match i {
            Input::ModuleName(m) => m,
            Input::SourceCode { .. } => panic!("a dependency is a module name"),
        })
        .collect();
    assert_eq!(deps, vec!["Std/Enum".to_owned(), "App/Util".to_owned()]);
    assert_eq!(dependency_failed("App/Util").message, "Failed to load dependency: App/Util");
}

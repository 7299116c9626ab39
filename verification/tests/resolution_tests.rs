use dang::ast::{BinOp, Node, NodeId, NodeKind, Source};
use dang::compiler::emission::EmitContext;
use dang::compiler::emit_bytecode_phase::emit_bytecode_phase;
use dang::compiler::function_names_phase::function_names_phase;
use dang::compiler::resolution::ResolveContext;
use dang::compiler::resolve_variables_phase::{resolve_variables_phase, Resolution};
use dang::compiler::tag_return_exprs_phase::tag_return_exprs_phase;
use dang::compiler::tags::{TagTable, Tags};
use dang::compiler::variable::VariableAllocation;
use dang::module::ModuleName;
use dang::program::Program;
use dang::value::Value;
use dang::vm::chunk::Chunk;
use dang::vm::function::{Function, UpvalueSource};
use dang::vm::{RunOutcome, VM};

/// Builds the nodes of one module, numbering them in creation order.
struct Builder {
    next: u32,
}

impl Builder {
    fn new() -> Builder {
        Builder { next: 0 }
    }

    fn node(&mut self, kind: NodeKind) -> Node {
        let id = self.next;
        self.next += 1;
        Node {
            id: NodeId { module: ModuleName::new("test"), local_id: id },
            kind,
            source: Source { file: "test".to_owned(), line: id as usize, col: 0 },
        }
    }

    fn integer(&mut self, i: i64) -> Node {
        self.node(NodeKind::IntegerLiteral(i))
    }

    fn ident(&mut self, name: &str) -> Node {
        self.node(NodeKind::Identifier(name.to_owned()))
    }

    fn var_ref(&mut self, name: &str) -> Node {
        let id = self.ident(name);
        self.node(NodeKind::VariableRef { identifier: Box::new(id) })
    }

    fn pattern(&mut self, name: &str) -> Node {
        let id = self.ident(name);
        self.node(NodeKind::PatternIdentifier { identifier: Box::new(id) })
    }

    fn let_(&mut self, name: &str, expr: Node) -> Node {
        let p = self.pattern(name);
        self.node(NodeKind::Let { pattern: Box::new(p), expr: Box::new(expr) })
    }

    fn body(&mut self, statements: Vec<Node>) -> Node {
        self.node(NodeKind::Body(statements))
    }

    fn func(&mut self, args: &[&str], statements: Vec<Node>) -> Node {
        let arg_names = args.iter().map(|a| self.ident(a)).collect();
        let body = self.body(statements);
        self.node(NodeKind::FunctionLiteral { arg_names, body: Box::new(body) })
    }

    fn call(&mut self, function: Node, args: Vec<Node>) -> Node {
        self.node(NodeKind::FunctionCall { function: Box::new(function), args })
    }

    fn source_file(&mut self, statements: Vec<Node>) -> Node {
        self.node(NodeKind::SourceFile(statements))
    }
}

fn context() -> ResolveContext {
    ResolveContext { module_name: ModuleName::new("test"), imports: Vec::new(), program: Program::new() }
}

fn resolve(root: &Node) -> (Resolution, Result<(), String>) {
    let mut out = Resolution::new(Tags::new());
    let r = resolve_variables_phase(&context(), root, &mut out);
    (out, r.map_err(|e| e.message))
}

fn allocation(res: &Resolution, id: u32) -> &VariableAllocation {
    &res.tags.variable_refs.get(id).expect("no variable reference").allocation
}

/// Resolves, names and tags the module, generates its code and runs it.
fn compile_and_run(root: Node) -> Value {
    match run_program(root) {
        Ok(v) => v,
        Err(message) => panic!("program raised: {}", message),
    }
}

/// Like `compile_and_run`, giving the message of an exception the program raises.
fn run_program(root: Node) -> Result<Value, String> {
    let (mut res, r) = resolve(&root);
    assert_eq!(r, Ok(()));
    tag_return_exprs_phase(&root, &mut res.tags);
    let refs = std::mem::replace(&mut res.tags.variable_refs, TagTable::new());
    function_names_phase("test", &refs, &root, &mut res.tags.function_names);
    res.tags.variable_refs = refs;
    let ctx = EmitContext {
        module_name: ModuleName::new("test"),
        root: root.id.local_id,
        constants: res.constants,
        tags: res.tags,
        program: Program::new(),
    };
    let mut functions = vec![Function::new(Chunk::new(), 0, vec![], "(entry)".to_owned())];
    let main = emit_bytecode_phase(&ctx, &root, &mut functions);
    functions[0] = main;
    let mut vm = VM::new(functions);
    match vm.run() {
        Ok(RunOutcome::Finished(v)) => Ok(v),
        Err(e) => Err(e.message),
        other => panic!("program did not finish: {:?}", other),
    }
}

#[test]
fn top_level_names_are_globals_and_exported() {
    // let x = 1; x
    let mut b = Builder::new();
    let one = b.integer(1);
    let let_x = b.let_("x", one);
    let x = b.var_ref("x");
    let x_id = x.id.local_id;
    let root = b.source_file(vec![let_x, x]);
    let (res, r) = resolve(&root);
    assert_eq!(r, Ok(()));
    assert_eq!(res.exports, vec!["x".to_owned()]);
    match allocation(&res, x_id) {
        VariableAllocation::Global { module, name } => {
            assert_eq!(module.0, "test");
            assert_eq!(name, "x");
        }
        other => panic!("expected a global, got {:?}", other),
    }
    assert!(res.errors.is_empty());
    assert!(res.scopes.is_empty());
    assert!(res.tags.scopes.get(root.id.local_id).is_some());
}

#[test]
fn parameters_and_block_locals_take_frame_slots() {
    // fn(a) { let y = a; y }
    let mut b = Builder::new();
    let a = b.var_ref("a");
    let a_id = a.id.local_id;
    let let_y = b.let_("y", a);
    let y = b.var_ref("y");
    let y_id = y.id.local_id;
    let f = b.func(&["a"], vec![let_y, y]);
    let param = match &f.kind {
        NodeKind::FunctionLiteral { arg_names, .. } => arg_names[0].id.local_id,
        _ => unreachable!(),
    };
    let root = b.source_file(vec![f]);
    let (res, r) = resolve(&root);
    assert_eq!(r, Ok(()));
    assert!(matches!(allocation(&res, a_id), VariableAllocation::Local { index: 0 }));
    assert!(matches!(allocation(&res, y_id), VariableAllocation::Local { index: 1 }));
    assert!(matches!(allocation(&res, param), VariableAllocation::Local { index: 0 }));
    // nothing inside a function is exported
    assert!(res.exports.is_empty());
}

#[test]
fn a_let_does_not_see_its_own_name() {
    // fn() { let z = z }
    let mut b = Builder::new();
    let z = b.var_ref("z");
    let let_z = b.let_("z", z);
    let f = b.func(&[], vec![let_z]);
    let root = b.source_file(vec![f]);
    let (res, r) = resolve(&root);
    assert_eq!(r, Err("unable to resolve all variables".to_owned()));
    assert_eq!(res.errors.len(), 1);
    assert_eq!(res.errors[0].message, "cannot find value 'z' in this scope");
}

#[test]
fn closures_capture_locals_of_enclosing_functions() {
    // fn() { let x = 1; fn() { x } }
    let mut b = Builder::new();
    let one = b.integer(1);
    let let_x = b.let_("x", one);
    let x = b.var_ref("x");
    let x_id = x.id.local_id;
    let pattern = match &let_x.kind {
        NodeKind::Let { pattern, .. } => pattern.id.local_id,
        _ => unreachable!(),
    };
    let inner = b.func(&[], vec![x]);
    let inner_id = inner.id.local_id;
    let outer = b.func(&[], vec![let_x, inner]);
    let root = b.source_file(vec![outer]);
    let (res, r) = resolve(&root);
    assert_eq!(r, Ok(()));
    match allocation(&res, x_id) {
        VariableAllocation::Upvalue { source, upvalue_index } => {
            assert_eq!(*source, UpvalueSource::Local { stack_index_relative_to_base: 0 });
            assert_eq!(*upvalue_index, 0);
        }
        other => panic!("expected an upvalue, got {:?}", other),
    }
    assert!(res.tags.variables.get(pattern).unwrap().closed_over);
    let inner_scope = res.tags.scopes.get(inner_id).unwrap();
    assert_eq!(
        inner_scope.get_upvalue_sources(),
        vec![UpvalueSource::Local { stack_index_relative_to_base: 0 }]
    );
}

#[test]
fn a_name_defined_twice_in_a_scope_is_an_error() {
    // let a = 1; let a = 2
    let mut b = Builder::new();
    let one = b.integer(1);
    let first = b.let_("a", one);
    let two = b.integer(2);
    let second = b.let_("a", two);
    let root = b.source_file(vec![first, second]);
    let (res, r) = resolve(&root);
    assert_eq!(r, Err("unable to resolve all variables".to_owned()));
    assert_eq!(res.errors.len(), 1);
    assert_eq!(res.errors[0].message, "a already defined");
    assert_eq!(res.exports, vec!["a".to_owned()]);
}

#[test]
fn an_unknown_name_is_an_error_at_its_reference() {
    let mut b = Builder::new();
    let r = b.var_ref("nowhere");
    let line = r.source.line;
    let root = b.source_file(vec![r]);
    let (res, result) = resolve(&root);
    assert!(result.is_err());
    assert_eq!(res.errors[0].message, "cannot find value 'nowhere' in this scope");
    assert_eq!(res.errors[0].source.as_ref().unwrap().line, line);
}

#[test]
fn the_module_name_is_a_constant_symbol() {
    let mut b = Builder::new();
    let m = b.node(NodeKind::Module("lib/test".to_owned()));
    let r = b.var_ref("test");
    let r_id = r.id.local_id;
    let root = b.source_file(vec![m, r]);
    let (res, result) = resolve(&root);
    assert_eq!(result, Ok(()));
    assert_eq!(res.constants.len(), 1);
    assert_eq!(res.constants[0].0, "test");
    assert!(matches!(&res.constants[0].1, Value::Symbol(s) if s == "test"));
    assert_eq!(res.tags.module_refs.get(r_id).unwrap().module_name.0, "test");
}

#[test]
fn resolved_recursion_runs() {
    // let countdown = fn(n) { if n == 0 { 0 } else { countdown(n - 1) } }; countdown(5)
    let mut b = Builder::new();
    let n1 = b.var_ref("n");
    let zero = b.integer(0);
    let cond = b.node(NodeKind::BinaryOp { op: BinOp::Eq, lhs: Box::new(n1), rhs: Box::new(zero) });
    let zero2 = b.integer(0);
    let then_body = b.body(vec![zero2]);
    let callee = b.var_ref("countdown");
    let n2 = b.var_ref("n");
    let one = b.integer(1);
    let minus = b.node(NodeKind::BinaryOp { op: BinOp::Sub, lhs: Box::new(n2), rhs: Box::new(one) });
    let call = b.call(callee, vec![minus]);
    let else_body = b.body(vec![call]);
    let if_node = b.node(NodeKind::If {
        condition: Box::new(cond),
        body: Box::new(then_body),
        else_branch: Some(Box::new(else_body)),
    });
    let f = b.func(&["n"], vec![if_node]);
    let let_f = b.let_("countdown", f);
    let callee2 = b.var_ref("countdown");
    let five = b.integer(5);
    let main_call = b.call(callee2, vec![five]);
    let root = b.source_file(vec![let_f, main_call]);
    assert!(matches!(compile_and_run(root), Value::Integer(0)));
}

#[test]
fn resolved_closure_runs() {
    // let make = fn(n) { fn() { n + 1 } }; make(41)()
    let mut b = Builder::new();
    let n = b.var_ref("n");
    let one = b.integer(1);
    let plus = b.node(NodeKind::BinaryOp { op: BinOp::Add, lhs: Box::new(n), rhs: Box::new(one) });
    let inner = b.func(&[], vec![plus]);
    let make = b.func(&["n"], vec![inner]);
    let let_make = b.let_("make", make);
    let callee = b.var_ref("make");
    let arg = b.integer(41);
    let made = b.call(callee, vec![arg]);
    let call = b.call(made, vec![]);
    let root = b.source_file(vec![let_make, call]);
    assert!(matches!(compile_and_run(root), Value::Integer(42)));
}

fn string(b: &mut Builder, s: &str) -> Node {
    b.node(NodeKind::StringLiteral(s.to_owned()))
}

fn var_(b: &mut Builder, name: &str, expr: Node) -> Node {
    let p = b.pattern(name);
    b.node(NodeKind::Var { pattern: Box::new(p), expr: Box::new(expr) })
}

fn assign(b: &mut Builder, name: &str, expr: Node) -> Node {
    let p = b.pattern(name);
    b.node(NodeKind::Assignment { pattern: Box::new(p), expr: Box::new(expr) })
}

fn add(b: &mut Builder, lhs: Node, rhs: Node) -> Node {
    b.node(NodeKind::BinaryOp { op: BinOp::Add, lhs: Box::new(lhs), rhs: Box::new(rhs) })
}

fn list(b: &mut Builder, items: Vec<Node>) -> Node {
    b.node(NodeKind::ListLiteral(items))
}

fn items(v: Value) -> Vec<Value> {
    match v {
        Value::List(items) => items,
        other => panic!("expected a list, got {:?}", other),
    }
}

#[test]
fn a_closure_sees_the_global_its_scope_could_see_when_it_was_made() {
    // var a = "hello"
    // let edge_case = fn () {
    //     let r = fn () { let prev = a; a = "world"; prev }
    //     var a = 123
    //     r
    // }
    // [edge_case()(), a]
    let mut b = Builder::new();
    let hello = string(&mut b, "hello");
    let var_a = var_(&mut b, "a", hello);
    let a_ref = b.var_ref("a");
    let let_prev = b.let_("prev", a_ref);
    let world = string(&mut b, "world");
    let set_a = assign(&mut b, "a", world);
    let prev = b.var_ref("prev");
    let r_fn = b.func(&[], vec![let_prev, set_a, prev]);
    let let_r = b.let_("r", r_fn);
    let n123 = b.integer(123);
    let inner_a = var_(&mut b, "a", n123);
    let r = b.var_ref("r");
    let edge_fn = b.func(&[], vec![let_r, inner_a, r]);
    let let_edge = b.let_("edge_case", edge_fn);
    let callee = b.var_ref("edge_case");
    let made = b.call(callee, vec![]);
    let called = b.call(made, vec![]);
    let a_after = b.var_ref("a");
    let result = list(&mut b, vec![called, a_after]);
    let root = b.source_file(vec![var_a, let_edge, result]);
    let v = items(compile_and_run(root));
    assert!(matches!(&v[0], Value::String(s) if s == "hello"));
    assert!(matches!(&v[1], Value::String(s) if s == "world"));
}

#[test]
fn an_inner_var_shadows_and_closures_keep_their_arguments() {
    // var y = 1
    // let inner = if true { var y = 5; y = y + 1; y }
    // let curry_add = fn(a) { fn(b) { a + b } }
    // let add3 = curry_add(3)
    // let add5 = curry_add(5)
    // [inner, y, add3(1), add5(8)]
    let mut b = Builder::new();
    let one = b.integer(1);
    let var_y = var_(&mut b, "y", one);
    let five = b.integer(5);
    let inner_y = var_(&mut b, "y", five);
    let y1 = b.var_ref("y");
    let one2 = b.integer(1);
    let sum = add(&mut b, y1, one2);
    let set_y = assign(&mut b, "y", sum);
    let y2 = b.var_ref("y");
    let if_body = b.body(vec![inner_y, set_y, y2]);
    let cond = b.node(NodeKind::BoolLiteral(true));
    let if_node =
        b.node(NodeKind::If { condition: Box::new(cond), body: Box::new(if_body), else_branch: None });
    let let_inner = b.let_("inner", if_node);
    let a = b.var_ref("a");
    let b_ref = b.var_ref("b");
    let a_plus_b = add(&mut b, a, b_ref);
    let adder = b.func(&["b"], vec![a_plus_b]);
    let curry = b.func(&["a"], vec![adder]);
    let let_curry = b.let_("curry_add", curry);
    let c1 = b.var_ref("curry_add");
    let three = b.integer(3);
    let call3 = b.call(c1, vec![three]);
    let let_add3 = b.let_("add3", call3);
    let c2 = b.var_ref("curry_add");
    let five2 = b.integer(5);
    let call5 = b.call(c2, vec![five2]);
    let let_add5 = b.let_("add5", call5);
    let inner = b.var_ref("inner");
    let y3 = b.var_ref("y");
    let f3 = b.var_ref("add3");
    let one3 = b.integer(1);
    let r3 = b.call(f3, vec![one3]);
    let f5 = b.var_ref("add5");
    let eight = b.integer(8);
    let r5 = b.call(f5, vec![eight]);
    let result = list(&mut b, vec![inner, y3, r3, r5]);
    let root =
        b.source_file(vec![var_y, let_inner, let_curry, let_add3, let_add5, result]);
    let v = items(compile_and_run(root));
    assert!(matches!(v[..], [Value::Integer(6), Value::Integer(1), Value::Integer(4), Value::Integer(13)]));
}

#[test]
fn for_loops_define_their_variable_in_their_own_scope() {
    // var s = 0
    // for x in [1, 2, 3] { s = s + x }
    // for x in [10, 20] { s = s + x }
    // s
    let mut b = Builder::new();
    let zero = b.integer(0);
    let var_s = var_(&mut b, "s", zero);
    let mut loops = Vec::new();
    for values in [vec![1, 2, 3], vec![10, 20]] {
        let p = b.pattern("x");
        let elems = values.iter().map(|v| b.integer(*v)).collect();
        let l = list(&mut b, elems);
        let s = b.var_ref("s");
        let x = b.var_ref("x");
        let sum = add(&mut b, s, x);
        let set = assign(&mut b, "s", sum);
        let body = b.body(vec![set]);
        loops.push(b.node(NodeKind::For { pattern: Box::new(p), enumerable: Box::new(l), body: Box::new(body) }));
    }
    let s = b.var_ref("s");
    let mut stmts = vec![var_s];
    stmts.extend(loops);
    stmts.push(s);
    let root = b.source_file(stmts);
    assert!(matches!(compile_and_run(root), Value::Integer(36)));
}

#[test]
fn a_desugared_pipe_calls_with_the_left_side_first() {
    // builtin str_reverse
    // "abc" |> str_reverse()
    let mut b = Builder::new();
    let name = b.ident("str_reverse");
    let builtin = b.node(NodeKind::Builtin { identifier: Box::new(name) });
    let abc = string(&mut b, "abc");
    let f = b.var_ref("str_reverse");
    let call = b.call(f, vec![]);
    let pipe = b.node(NodeKind::Pipe { lhs: Box::new(abc), rhs: Box::new(call) });
    let mut root = b.source_file(vec![builtin, pipe]);
    let mut errors = Vec::new();
    assert!(dang::compiler::desugar_pipe_phase::desugar_pipe_phase(&mut root, &mut errors).is_ok());
    assert!(matches!(compile_and_run(root), Value::String(s) if s == "cba"));
}

#[test]
fn calling_with_the_wrong_number_of_arguments_raises() {
    // let f = fn(x, y) { x + y }
    // f(1)
    let mut b = Builder::new();
    let x = b.var_ref("x");
    let y = b.var_ref("y");
    let sum = add(&mut b, x, y);
    let f = b.func(&["x", "y"], vec![sum]);
    let let_f = b.let_("f", f);
    let callee = b.var_ref("f");
    let one = b.integer(1);
    let call = b.call(callee, vec![one]);
    let root = b.source_file(vec![let_f, call]);
    assert_eq!(run_program(root), Err("expected 2 arguments, got 1".to_owned()));
}

#[test]
fn empty_functions_return_nil() {
    // let f = fn() {}
    // f()
    let mut b = Builder::new();
    let f = b.func(&[], vec![]);
    let let_f = b.let_("f", f);
    let callee = b.var_ref("f");
    let call = b.call(callee, vec![]);
    let root = b.source_file(vec![let_f, call]);
    assert!(matches!(compile_and_run(root), Value::Nil));
}

#[test]
fn arithmetic_follows_precedence_as_parsed() {
    // let x = 1 + 2 * 3 * (5 - 1) / 2
    // x
    let mut b = Builder::new();
    let n1 = b.integer(1);
    let n2 = b.integer(2);
    let n3 = b.integer(3);
    let n5 = b.integer(5);
    let n1b = b.integer(1);
    let n2b = b.integer(2);
    let two_three = b.node(NodeKind::BinaryOp { op: BinOp::Mul, lhs: Box::new(n2), rhs: Box::new(n3) });
    let five_minus = b.node(NodeKind::BinaryOp { op: BinOp::Sub, lhs: Box::new(n5), rhs: Box::new(n1b) });
    let prod = b.node(NodeKind::BinaryOp { op: BinOp::Mul, lhs: Box::new(two_three), rhs: Box::new(five_minus) });
    let quot = b.node(NodeKind::BinaryOp { op: BinOp::Div, lhs: Box::new(prod), rhs: Box::new(n2b) });
    let total = add(&mut b, n1, quot);
    let let_x = b.let_("x", total);
    let x = b.var_ref("x");
    let root = b.source_file(vec![let_x, x]);
    assert!(matches!(compile_and_run(root), Value::Integer(13)));
}

#[test]
fn logical_operators_give_an_operand() {
    // [5 || 2, nil || 2, nil || false, 5 && 2, nil && 2, false && nil]
    let mut b = Builder::new();
    let mut items_ = Vec::new();
    let cases: Vec<(BinOp, NodeKind, NodeKind)> = vec![
        (BinOp::LogicalOr, NodeKind::IntegerLiteral(5), NodeKind::IntegerLiteral(2)),
        (BinOp::LogicalOr, NodeKind::NilLiteral, NodeKind::IntegerLiteral(2)),
        (BinOp::LogicalOr, NodeKind::NilLiteral, NodeKind::BoolLiteral(false)),
        (BinOp::LogicalAnd, NodeKind::IntegerLiteral(5), NodeKind::IntegerLiteral(2)),
        (BinOp::LogicalAnd, NodeKind::NilLiteral, NodeKind::IntegerLiteral(2)),
        (BinOp::LogicalAnd, NodeKind::BoolLiteral(false), NodeKind::NilLiteral),
    ];
    for (op, l, r) in cases {
        let lhs = b.node(l);
        let rhs = b.node(r);
        items_.push(b.node(NodeKind::BinaryOp { op, lhs: Box::new(lhs), rhs: Box::new(rhs) }));
    }
    let result = list(&mut b, items_);
    let root = b.source_file(vec![result]);
    let v = items(compile_and_run(root));
    assert!(matches!(
        v[..],
        [
            Value::Integer(5),
            Value::Integer(2),
            Value::Bool(false),
            Value::Integer(2),
            Value::Nil,
            Value::Bool(false)
        ]
    ));
}

fn context_with_library() -> ResolveContext {
    let mut program = Program::new();
    program.insert_module(dang::program::Module {
        name: ModuleName::new("Lib"),
        function: 1,
        exports: vec!["f".to_owned(), "g".to_owned()],
        struct_info: None,
    });
    ResolveContext {
        module_name: ModuleName::new("test"),
        imports: vec![
            dang::compiler::ResolvedImport {
                module_name: ModuleName::new("Lib"),
                kind: dang::compiler::ResolvedImportKind::Field("f".to_owned()),
            },
            dang::compiler::ResolvedImport {
                module_name: ModuleName::new("Lib"),
                kind: dang::compiler::ResolvedImportKind::AllFields,
            },
        ],
        program,
    }
}

#[test]
fn imported_names_are_globals_of_their_module() {
    let mut b = Builder::new();
    let f = b.var_ref("f");
    let g = b.var_ref("g");
    let f_id = f.id.local_id;
    let g_id = g.id.local_id;
    let root = b.source_file(vec![f, g]);
    let mut out = Resolution::new(Tags::new());
    let r = resolve_variables_phase(&context_with_library(), &root, &mut out);
    assert!(r.is_ok());
    for id in [f_id, g_id] {
        match allocation(&out, id) {
            VariableAllocation::Global { module, .. } => assert_eq!(module.0, "Lib"),
            other => panic!("expected a global of Lib, got {:?}", other),
        }
    }
}

#[test]
fn a_local_definition_hides_an_import() {
    // fn() { let f = 1; f }
    let mut b = Builder::new();
    let one = b.integer(1);
    let let_f = b.let_("f", one);
    let f = b.var_ref("f");
    let f_id = f.id.local_id;
    let func = b.func(&[], vec![let_f, f]);
    let root = b.source_file(vec![func]);
    let mut out = Resolution::new(Tags::new());
    assert!(resolve_variables_phase(&context_with_library(), &root, &mut out).is_ok());
    assert!(matches!(allocation(&out, f_id), VariableAllocation::Local { index: 0 }));
}

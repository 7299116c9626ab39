use dang::ast::{BinOp, Node, NodeId, NodeKind, Source};
use dang::compiler::emission::EmitContext;
use dang::compiler::emit_bytecode_phase::emit_bytecode_phase;
use dang::compiler::function_names_phase::function_names_phase;
use dang::compiler::tag_return_exprs_phase::tag_return_exprs_phase;
use dang::compiler::tags::{TagTable, Tags};
use dang::compiler::variable::{VariableAllocation, VariableRef};
use dang::compiler::{FunctionName, IsReturnExpr, ReferencedStruct};
use dang::module::ModuleName;
use dang::program::{Module, Program};
use dang::scope::Scope;
use dang::struct_info::StructInfo;
use dang::value::Value;
use dang::vm::chunk::Chunk;
use dang::vm::function::Function;
use dang::vm::inst::OpCode;
use dang::vm::{RunOutcome, VM};

/// Builds the nodes of one module, numbering them in creation order, and collects the tags
/// the earlier phases would attach.
struct Builder {
    next: u32,
    tags: Tags,
}

impl Builder {
    fn new() -> Builder {
        Builder { next: 0, tags: Tags::new() }
    }

    fn node(&mut self, kind: NodeKind) -> Node {
        let id = self.next;
        self.next += 1;
        Node {
            id: NodeId { module: ModuleName::new("test"), local_id: id },
            kind,
            source: Source { file: "test".to_owned(), line: id as usize, col: 0 },
        }
    }

    fn integer(&mut self, i: i64) -> Node {
        self.node(NodeKind::IntegerLiteral(i))
    }

    fn ident(&mut self, name: &str) -> Node {
        self.node(NodeKind::Identifier(name.to_owned()))
    }

    fn bin(&mut self, op: BinOp, lhs: Node, rhs: Node) -> Node {
        self.node(NodeKind::BinaryOp { op, lhs: Box::new(lhs), rhs: Box::new(rhs) })
    }

    fn body(&mut self, statements: Vec<Node>) -> Node {
        self.node(NodeKind::Body(statements))
    }

    fn global(&mut self, node: &Node, name: &str) {
        self.tags.variable_refs.insert(
            node.id.local_id,
            VariableRef::new(VariableAllocation::Global {
                module: ModuleName::new("test"),
                name: name.to_owned(),
            }),
        );
    }

    fn local(&mut self, node: &Node, index: usize) {
        self.tags
            .variable_refs
            .insert(node.id.local_id, VariableRef::new(VariableAllocation::Local { index }));
    }

    fn global_ref(&mut self, name: &str) -> Node {
        let id = self.ident(name);
        let r = self.node(NodeKind::VariableRef { identifier: Box::new(id) });
        self.global(&r, name);
        r
    }

    fn local_ref(&mut self, name: &str, index: usize) -> Node {
        let id = self.ident(name);
        let r = self.node(NodeKind::VariableRef { identifier: Box::new(id) });
        self.local(&r, index);
        r
    }

    fn pattern(&mut self, name: &str) -> Node {
        let id = self.ident(name);
        self.node(NodeKind::PatternIdentifier { identifier: Box::new(id) })
    }

    /// The module's top level: the statements, tagged as the module's function.
    fn source_file(&mut self, statements: Vec<Node>) -> Node {
        let root = self.node(NodeKind::SourceFile(statements));
        self.tags.scopes.insert(root.id.local_id, Scope::new_global_scope(root.id.local_id));
        self.tags.function_names.insert(
            root.id.local_id,
            FunctionName { name: "test.(main)".to_owned() },
        );
        root
    }

    fn context(self, root: &Node) -> EmitContext {
        EmitContext {
            module_name: ModuleName::new("test"),
            root: root.id.local_id,
            constants: Vec::new(),
            tags: self.tags,
            program: Program::new(),
        }
    }
}

/// Compiles the module into function 0 of a program and gives the function table.
fn compile(ctx: &EmitContext, root: &Node) -> Vec<Function> {
    let mut functions = vec![Function::new(Chunk::new(), 0, vec![], "(entry)".to_owned())];
    let main = emit_bytecode_phase(ctx, root, &mut functions);
    functions[0] = main;
    functions
}

fn run(b: Builder, root: Node) -> Value {
    let ctx = b.context(&root);
    let mut vm = VM::new(compile(&ctx, &root));
    match vm.run() {
        Ok(RunOutcome::Finished(v)) => v,
        other => panic!("program did not finish: {:?}", other),
    }
}

fn ops(f: &Function) -> Vec<OpCode> {
    f.chunk.code.iter().map(|i| i.op).collect()
}

#[test]
fn compiles_arithmetic() {
    let mut b = Builder::new();
    let one = b.integer(1);
    let two = b.integer(2);
    let sum = b.bin(BinOp::Add, one, two);
    let root = b.source_file(vec![sum]);
    assert_eq!(run(b, root), Value::Integer(3));
}

#[test]
fn module_code_starts_with_the_load_guard() {
    let mut b = Builder::new();
    let one = b.integer(1);
    let root = b.source_file(vec![one]);
    let ctx = b.context(&root);
    let functions = compile(&ctx, &root);
    assert_eq!(
        ops(&functions[0]),
        vec![
            OpCode::GlobalIsDefined,
            OpCode::BranchIfFalse,
            OpCode::Return,
            OpCode::LogicalNeg,
            OpCode::SetGlobal,
            OpCode::Constant,
            OpCode::Return,
        ]
    );
    // the branch skips the early return
    assert_eq!(functions[0].chunk.code[1].wide_arg(), 1);
    assert_eq!(functions[0].debug_name, "test.(main)");
    assert_eq!(functions[0].chunk.source_file, "test");
    assert_eq!(
        functions[0].chunk.constants,
        vec![
            Value::Symbol("test".to_owned()),
            Value::Symbol("<loaded>".to_owned()),
            Value::Integer(1)
        ]
    );
}

#[test]
fn statements_pop_all_but_the_last_value() {
    let mut b = Builder::new();
    let one = b.integer(1);
    let two = b.integer(2);
    let root = b.source_file(vec![one, two]);
    let ctx = b.context(&root);
    let functions = compile(&ctx, &root);
    assert_eq!(
        ops(&functions[0])[5..].to_vec(),
        vec![OpCode::Constant, OpCode::Pop, OpCode::Constant, OpCode::Return]
    );
    let mut vm = VM::new(functions);
    assert!(matches!(vm.run(), Ok(RunOutcome::Finished(Value::Integer(2)))));
}

#[test]
fn equal_constants_share_a_slot() {
    let mut b = Builder::new();
    let x = b.integer(7);
    let y = b.integer(7);
    let sum = b.bin(BinOp::Mul, x, y);
    let root = b.source_file(vec![sum]);
    let ctx = b.context(&root);
    let functions = compile(&ctx, &root);
    assert_eq!(functions[0].chunk.constants.len(), 3);
    let mut vm = VM::new(functions);
    assert!(matches!(vm.run(), Ok(RunOutcome::Finished(Value::Integer(49)))));
}

#[test]
fn compiles_if_else() {
    let mut b = Builder::new();
    let cond = b.node(NodeKind::BoolLiteral(false));
    let one = b.integer(1);
    let then_body = b.body(vec![one]);
    let two = b.integer(2);
    let else_body = b.body(vec![two]);
    let if_node = b.node(NodeKind::If {
        condition: Box::new(cond),
        body: Box::new(then_body),
        else_branch: Some(Box::new(else_body)),
    });
    let root = b.source_file(vec![if_node]);
    assert_eq!(run(b, root), Value::Integer(2));
}

#[test]
fn if_without_else_is_nil() {
    let mut b = Builder::new();
    let cond = b.node(NodeKind::BoolLiteral(false));
    let one = b.integer(1);
    let then_body = b.body(vec![one]);
    let if_node = b.node(NodeKind::If {
        condition: Box::new(cond),
        body: Box::new(then_body),
        else_branch: None,
    });
    let root = b.source_file(vec![if_node]);
    assert_eq!(run(b, root), Value::Nil);
}

#[test]
fn logical_operators_short_circuit() {
    let mut b = Builder::new();
    let t = b.node(NodeKind::BoolLiteral(true));
    let five = b.integer(5);
    let and = b.bin(BinOp::LogicalAnd, t, five);
    let root = b.source_file(vec![and]);
    assert_eq!(run(b, root), Value::Integer(5));

    let mut b = Builder::new();
    let nil = b.node(NodeKind::NilLiteral);
    let seven = b.integer(7);
    let or = b.bin(BinOp::LogicalOr, nil, seven);
    let root = b.source_file(vec![or]);
    assert_eq!(run(b, root), Value::Integer(7));

    let mut b = Builder::new();
    let f = b.node(NodeKind::BoolLiteral(false));
    // never evaluated: an unknown global would raise
    let missing = b.global_ref("missing");
    let and = b.bin(BinOp::LogicalAnd, f, missing);
    let root = b.source_file(vec![and]);
    assert_eq!(run(b, root), Value::Bool(false));
}

#[test]
fn list_literals() {
    // made only of literals: one constant
    let mut b = Builder::new();
    let one = b.integer(1);
    let two = b.integer(2);
    let list = b.node(NodeKind::ListLiteral(vec![one, two]));
    let root = b.source_file(vec![list]);
    let ctx = b.context(&root);
    let functions = compile(&ctx, &root);
    assert_eq!(ops(&functions[0])[5..].to_vec(), vec![OpCode::Constant, OpCode::Return]);

    // else built at run time
    let mut b = Builder::new();
    let one = b.integer(1);
    let one2 = b.integer(1);
    let sum = b.bin(BinOp::Add, one, one2);
    let three = b.integer(3);
    let list = b.node(NodeKind::ListLiteral(vec![sum, three]));
    let root = b.source_file(vec![list]);
    assert_eq!(run(b, root), Value::List(vec![Value::Integer(2), Value::Integer(3)]));
}

#[test]
fn dict_literal_and_subscript() {
    let mut b = Builder::new();
    let key = b.node(NodeKind::StringLiteral("a".to_owned()));
    let one = b.integer(1);
    let one2 = b.integer(1);
    let sum = b.bin(BinOp::Add, one, one2);
    let dict = b.node(NodeKind::DictLiteral(vec![(key, sum)]));
    let key2 = b.node(NodeKind::StringLiteral("a".to_owned()));
    let sub = b.node(NodeKind::Subscript { object: Box::new(dict), key: Box::new(key2) });
    let root = b.source_file(vec![sub]);
    assert_eq!(run(b, root), Value::Integer(2));
}

#[test]
fn global_let_and_reference() {
    let mut b = Builder::new();
    let pattern = b.pattern("x");
    b.global(&pattern, "x");
    let forty = b.integer(40);
    let let_node = b.node(NodeKind::Let { pattern: Box::new(pattern), expr: Box::new(forty) });
    let x = b.global_ref("x");
    let two = b.integer(2);
    let sum = b.bin(BinOp::Add, x, two);
    let root = b.source_file(vec![let_node, sum]);
    assert_eq!(run(b, root), Value::Integer(42));
}

#[test]
fn function_literal_and_call() {
    let mut b = Builder::new();
    // let add1 = fn(y) { y + 1 }
    let pattern = b.pattern("add1");
    b.global(&pattern, "add1");
    let arg = b.ident("y");
    let y = b.local_ref("y", 0);
    let one = b.integer(1);
    let sum = b.bin(BinOp::Add, y, one);
    let body = b.body(vec![sum]);
    let func = b.node(NodeKind::FunctionLiteral { arg_names: vec![arg], body: Box::new(body) });
    b.tags.scopes.insert(func.id.local_id, Scope::new_function_scope(func.id.local_id));
    b.tags
        .function_names
        .insert(func.id.local_id, FunctionName { name: "test.add1".to_owned() });
    let let_node = b.node(NodeKind::Let { pattern: Box::new(pattern), expr: Box::new(func) });
    // add1(41)
    let callee = b.global_ref("add1");
    let arg41 = b.integer(41);
    let call =
        b.node(NodeKind::FunctionCall { function: Box::new(callee), args: vec![arg41] });
    let root = b.source_file(vec![let_node, call]);
    let ctx = b.context(&root);
    let functions = compile(&ctx, &root);
    // the nested function was added to the table after the entry slot
    assert_eq!(functions.len(), 2);
    assert_eq!(functions[1].arity, 1);
    assert_eq!(functions[1].debug_name, "test.add1");
    assert_eq!(ops(&functions[1]), vec![
        OpCode::GetLocal,
        OpCode::Constant,
        OpCode::Add,
        OpCode::Return,
    ]);
    let mut vm = VM::new(functions);
    assert!(matches!(vm.run(), Ok(RunOutcome::Finished(Value::Integer(42)))));
}

#[test]
fn calls_in_return_position_are_tail_calls() {
    let mut b = Builder::new();
    let callee = b.global_ref("f");
    let call = b.node(NodeKind::FunctionCall { function: Box::new(callee), args: vec![] });
    let call_id = call.id.local_id;
    let body = b.body(vec![call]);
    let func = b.node(NodeKind::FunctionLiteral { arg_names: vec![], body: Box::new(body) });
    b.tags.scopes.insert(func.id.local_id, Scope::new_function_scope(func.id.local_id));
    b.tags.function_names.insert(func.id.local_id, FunctionName { name: "f".to_owned() });
    // the call is what the function literal returns
    b.tags.return_exprs.insert(call_id, IsReturnExpr { function: func.id.local_id });
    let root = b.source_file(vec![func]);
    let ctx = b.context(&root);
    let functions = compile(&ctx, &root);
    assert_eq!(ops(&functions[1]), vec![OpCode::GetGlobal, OpCode::TailCall, OpCode::Return]);
}

#[test]
fn local_let_in_a_block_is_popped() {
    // fn() { let z = 5; z * 2 }()
    let mut b = Builder::new();
    let pattern = b.pattern("z");
    b.local(&pattern, 0);
    let five = b.integer(5);
    let let_node = b.node(NodeKind::Let { pattern: Box::new(pattern), expr: Box::new(five) });
    let z = b.local_ref("z", 0);
    let two = b.integer(2);
    let prod = b.bin(BinOp::Mul, z, two);
    let body = b.body(vec![let_node, prod]);
    let func = b.node(NodeKind::FunctionLiteral { arg_names: vec![], body: Box::new(body) });
    b.tags.scopes.insert(func.id.local_id, Scope::new_function_scope(func.id.local_id));
    b.tags.function_names.insert(func.id.local_id, FunctionName { name: "g".to_owned() });
    let call = b.node(NodeKind::FunctionCall { function: Box::new(func), args: vec![] });
    let root = b.source_file(vec![call]);
    let ctx = b.context(&root);
    let functions = compile(&ctx, &root);
    assert_eq!(ops(&functions[1]), vec![
        OpCode::Constant,
        OpCode::PushNil,
        OpCode::Pop,
        OpCode::GetLocal,
        OpCode::Constant,
        OpCode::Mul,
        OpCode::PopLocals,
        OpCode::Return,
    ]);
    assert_eq!(functions[1].chunk.code[6].wide_arg(), 1);
    let mut vm = VM::new(functions);
    assert!(matches!(vm.run(), Ok(RunOutcome::Finished(Value::Integer(10)))));
}

#[test]
fn builtin_defines_a_native_function() {
    let mut b = Builder::new();
    let name = b.ident("len");
    let builtin = b.node(NodeKind::Builtin { identifier: Box::new(name) });
    b.global(&builtin, "len");
    let callee = b.global_ref("len");
    let one = b.integer(1);
    let two = b.integer(2);
    let three = b.integer(3);
    let list = b.node(NodeKind::ListLiteral(vec![one, two, three]));
    let call = b.node(NodeKind::FunctionCall { function: Box::new(callee), args: vec![list] });
    let root = b.source_file(vec![builtin, call]);
    assert_eq!(run(b, root), Value::Integer(3));
}

#[test]
fn struct_literal_uses_defaults() {
    let mut b = Builder::new();
    let key = b.ident("a");
    let one = b.integer(1);
    let module = b.ident("test");
    let lit = b.node(NodeKind::StructLiteral { module: Box::new(module), fields: vec![(key, one)] });
    let mut info = StructInfo::new(ModuleName::new("test"));
    info.fields = vec!["a".to_owned(), "b".to_owned()];
    info.default_values = vec![("b".to_owned(), Value::Integer(2))];
    b.tags.referenced_structs.insert(lit.id.local_id, ReferencedStruct { struct_info: info });
    let root = b.source_file(vec![lit]);
    match run(b, root) {
        Value::Struct(module, fields) => {
            assert_eq!(module, "test");
            assert_eq!(fields.len(), 2);
            assert_eq!(fields[0].1, Value::Integer(1));
            assert_eq!(fields[1].1, Value::Integer(2));
        },
        other => panic!("not a struct: {:?}", other),
    }
}

#[test]
fn for_loop_sums_a_list() {
    // let total = 0; for x in [1, 2, 3] { total = total + x }; total
    let mut b = Builder::new();
    let pattern = b.pattern("total");
    b.global(&pattern, "total");
    let zero = b.integer(0);
    let let_node = b.node(NodeKind::Let { pattern: Box::new(pattern), expr: Box::new(zero) });
    let x_pattern = b.pattern("x");
    b.local(&x_pattern, 1);
    let one = b.integer(1);
    let two = b.integer(2);
    let three = b.integer(3);
    let list = b.node(NodeKind::ListLiteral(vec![one, two, three]));
    let target = b.pattern("total");
    b.global(&target, "total");
    let total = b.global_ref("total");
    let x = b.local_ref("x", 1);
    let sum = b.bin(BinOp::Add, total, x);
    let assign =
        b.node(NodeKind::Assignment { pattern: Box::new(target), expr: Box::new(sum) });
    let body = b.body(vec![assign]);
    let for_node = b.node(NodeKind::For {
        pattern: Box::new(x_pattern),
        enumerable: Box::new(list),
        body: Box::new(body),
    });
    let result = b.global_ref("total");
    let root = b.source_file(vec![let_node, for_node, result]);
    assert_eq!(run(b, root), Value::Integer(6));
}

#[test]
fn import_calls_the_module_function() {
    let mut b = Builder::new();
    let import = b.node(NodeKind::Import(dang::ast::ImportKind::Module {
        module_name: "other".to_owned(),
    }));
    let root = b.source_file(vec![import]);
    let mut ctx = b.context(&root);
    ctx.program.insert_module(Module {
        name: ModuleName::new("other"),
        function: 7,
        exports: vec![],
        struct_info: None,
    });
    let functions = compile(&ctx, &root);
    assert_eq!(ops(&functions[0])[5..].to_vec(), vec![
        OpCode::Constant,
        OpCode::Call,
        OpCode::Return,
    ]);
    assert_eq!(functions[0].chunk.constants[2], Value::Function(7));
}

#[test]
fn return_expressions_are_tagged_with_their_function() {
    // fn() { if c { a() } else { b } } ; last
    let mut b = Builder::new();
    let cond = b.global_ref("c");
    let callee = b.global_ref("a");
    let call = b.node(NodeKind::FunctionCall { function: Box::new(callee), args: vec![] });
    let call_id = call.id.local_id;
    let then_body = b.body(vec![call]);
    let other = b.global_ref("b");
    let other_id = other.id.local_id;
    let else_body = b.body(vec![other]);
    let if_node = b.node(NodeKind::If {
        condition: Box::new(cond),
        body: Box::new(then_body),
        else_branch: Some(Box::new(else_body)),
    });
    let body = b.body(vec![if_node]);
    let func = b.node(NodeKind::FunctionLiteral { arg_names: vec![], body: Box::new(body) });
    let func_id = func.id.local_id;
    let last = b.integer(1);
    let last_id = last.id.local_id;
    let root = b.source_file(vec![func, last]);
    let root_id = root.id.local_id;
    let mut tags = Tags::new();
    tag_return_exprs_phase(&root, &mut tags);
    assert_eq!(tags.return_exprs.get(call_id).map(|r| r.function), Some(func_id));
    assert_eq!(tags.return_exprs.get(other_id).map(|r| r.function), Some(func_id));
    assert_eq!(tags.return_exprs.get(last_id).map(|r| r.function), Some(root_id));
    assert!(tags.return_exprs.get(func_id).is_none());
    assert_eq!(tags.return_exprs.entries.len(), 3);
}

#[test]
fn functions_are_named_after_their_variables() {
    let mut b = Builder::new();
    // let f = fn() { 1 }   (a global)
    let f_pattern = b.pattern("f");
    b.global(&f_pattern, "f");
    let one = b.integer(1);
    let f_body = b.body(vec![one]);
    let f = b.node(NodeKind::FunctionLiteral { arg_names: vec![], body: Box::new(f_body) });
    let f_id = f.id.local_id;
    let let_f = b.node(NodeKind::Let { pattern: Box::new(f_pattern), expr: Box::new(f) });
    // fn() { let g = fn() { 2 }; fn() { 3 } }  (g local, the inner one anonymous)
    let g_pattern = b.pattern("g");
    b.local(&g_pattern, 0);
    let two = b.integer(2);
    let g_body = b.body(vec![two]);
    let g = b.node(NodeKind::FunctionLiteral { arg_names: vec![], body: Box::new(g_body) });
    let g_id = g.id.local_id;
    let let_g = b.node(NodeKind::Let { pattern: Box::new(g_pattern), expr: Box::new(g) });
    let three = b.integer(3);
    let anon_body = b.body(vec![three]);
    let anon =
        b.node(NodeKind::FunctionLiteral { arg_names: vec![], body: Box::new(anon_body) });
    let anon_id = anon.id.local_id;
    let outer_body = b.body(vec![let_g, anon]);
    let outer =
        b.node(NodeKind::FunctionLiteral { arg_names: vec![], body: Box::new(outer_body) });
    let builtin_name = b.ident("len");
    let builtin = b.node(NodeKind::Builtin { identifier: Box::new(builtin_name) });
    let builtin_id = builtin.id.local_id;
    let root = b.node(NodeKind::SourceFile(vec![let_f, outer, builtin]));
    let mut names = TagTable::new();
    function_names_phase("test", &b.tags.variable_refs, &root, &mut names);
    let name_of = |id: u32| names.get(id).map(|n| n.name.clone());
    assert_eq!(name_of(root.id.local_id), Some("test.(main)".to_owned()));
    assert_eq!(name_of(f_id), Some("test.f".to_owned()));
    // the pattern's identifier node is numbered 1 greater than the pattern's first node
    let g_line = (g_id - 4) as usize;
    assert_eq!(name_of(g_id), Some(format!("test - g (at line {})", g_line)));
    assert_eq!(name_of(anon_id), Some(format!("test.(anonymous at line {})", anon_id)));
    assert_eq!(name_of(builtin_id), Some("test.len".to_owned()));
}

#[test]
fn pipeline_of_tagging_phases_and_code_generation() {
    // let countdown = fn(n) { if n == 0 { 0 } else { countdown(n - 1) } }; countdown(5)
    let mut b = Builder::new();
    let pattern = b.pattern("countdown");
    b.global(&pattern, "countdown");
    let arg = b.ident("n");
    let n1 = b.local_ref("n", 0);
    let zero = b.integer(0);
    let cond = b.bin(BinOp::Eq, n1, zero);
    let zero2 = b.integer(0);
    let then_body = b.body(vec![zero2]);
    let callee = b.global_ref("countdown");
    let n2 = b.local_ref("n", 0);
    let one = b.integer(1);
    let minus = b.bin(BinOp::Sub, n2, one);
    let call = b.node(NodeKind::FunctionCall { function: Box::new(callee), args: vec![minus] });
    let else_body = b.body(vec![call]);
    let if_node = b.node(NodeKind::If {
        condition: Box::new(cond),
        body: Box::new(then_body),
        else_branch: Some(Box::new(else_body)),
    });
    let body = b.body(vec![if_node]);
    let func = b.node(NodeKind::FunctionLiteral { arg_names: vec![arg], body: Box::new(body) });
    b.tags.scopes.insert(func.id.local_id, Scope::new_function_scope(func.id.local_id));
    let let_node = b.node(NodeKind::Let { pattern: Box::new(pattern), expr: Box::new(func) });
    let callee2 = b.global_ref("countdown");
    let five = b.integer(5);
    let main_call =
        b.node(NodeKind::FunctionCall { function: Box::new(callee2), args: vec![five] });
    let root = b.node(NodeKind::SourceFile(vec![let_node, main_call]));
    b.tags.scopes.insert(root.id.local_id, Scope::new_global_scope(root.id.local_id));
    tag_return_exprs_phase(&root, &mut b.tags);
    let refs = std::mem::replace(&mut b.tags.variable_refs, TagTable::new());
    function_names_phase("test", &refs, &root, &mut b.tags.function_names);
    b.tags.variable_refs = refs;
    let ctx = b.context(&root);
    let functions = compile(&ctx, &root);
    assert_eq!(functions[1].debug_name, "test.countdown");
    // the recursive call returns the function's value: a tail call; the module's own call
    // is not one
    assert!(ops(&functions[1]).contains(&OpCode::TailCall));
    assert!(!ops(&functions[0]).contains(&OpCode::TailCall));
    let mut vm = VM::new(functions);
    assert!(matches!(vm.run(), Ok(RunOutcome::Finished(Value::Integer(0)))));
}

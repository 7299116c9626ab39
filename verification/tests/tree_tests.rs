use dang::ast::{BinOp, Node, NodeId, NodeKind, Source};
use dang::compiler::node_ids_phase::node_ids_phase;
use dang::module::ModuleName;
use dang::program::{Module, Program};
use dang::scope::Scope;
use dang::value::Value;
use dang::vm::function::UpvalueSource;

fn node(kind: NodeKind) -> Node {
    Node {
        id: NodeId { module: ModuleName::new(""), local_id: u32::MAX },
        kind,
        source: Source { file: "t.dang".to_owned(), line: 1, col: 1 },
    }
}

fn lit(i: i64) -> Node {
    node(NodeKind::IntegerLiteral(i))
}

/// `(1 + 2) * 3; [4]`
fn sample() -> Node {
    let sum = node(NodeKind::BinaryOp { op: BinOp::Add, lhs: Box::new(lit(1)), rhs: Box::new(lit(2)) });
    let prod = node(NodeKind::BinaryOp { op: BinOp::Mul, lhs: Box::new(sum), rhs: Box::new(lit(3)) });
    let list = node(NodeKind::ListLiteral(vec![lit(4)]));
    node(NodeKind::SourceFile(vec![prod, list]))
}

#[test]
fn child_at_index_mut_replaces_one_child() {
    let mut root = sample();
    match root.child_at_index_mut(1) {
        Some(child) => *child = lit(9),
        None => panic!("no child 1"),
    }
    match &root.kind {
        NodeKind::SourceFile(nodes) => {
            assert_eq!(nodes.len(), 2);
            assert!(matches!(nodes[0].kind, NodeKind::BinaryOp { op: BinOp::Mul, .. }));
            assert!(matches!(nodes[1].kind, NodeKind::IntegerLiteral(9)));
        },
        _ => panic!("not a source file"),
    }
    assert!(root.child_at_index_mut(2).is_none());
}

#[test]
fn child_at_index_mut_reaches_struct_default_values() {
    let name_a = node(NodeKind::Identifier("a".to_owned()));
    let name_b = node(NodeKind::Identifier("b".to_owned()));
    let mut def = node(NodeKind::StructDef { fields: vec![(name_a, Some(lit(1))), (name_b, None)] });
    // children: a, 1, b
    match def.child_at_index_mut(1) {
        Some(child) => *child = lit(5),
        None => panic!("no child 1"),
    }
    assert!(matches!(def.child_at_index(1).unwrap().kind, NodeKind::IntegerLiteral(5)));
    assert!(matches!(&def.child_at_index(2).unwrap().kind, NodeKind::Identifier(b) if b == "b"));
    assert!(def.child_at_index_mut(3).is_none());
}

#[test]
fn nodes_are_numbered_in_preorder() {
    let mut root = sample();
    node_ids_phase(&ModuleName::new("m"), &mut root);
    let ids: Vec<u32> = root.iter().iter().map(|n| n.id.local_id).collect();
    assert_eq!(ids, vec![0, 1, 2, 3, 4, 5, 6, 7]);
    assert!(root.iter().iter().all(|n| n.id.module.0 == "m"));
    // the pre-order: file, product, sum, 1, 2, 3, list, 4
    let kinds: Vec<bool> = root
        .iter()
        .iter()
        .map(|n| matches!(n.kind, NodeKind::IntegerLiteral(_)))
        .collect();
    assert_eq!(kinds, vec![false, false, false, true, true, true, false, true]);
}

#[test]
fn find_by_id_finds_numbered_nodes() {
    let mut root = sample();
    node_ids_phase(&ModuleName::new("m"), &mut root);
    let four = root.find_by_id(&NodeId { module: ModuleName::new("m"), local_id: 7 }).unwrap();
    assert!(matches!(four.kind, NodeKind::IntegerLiteral(4)));
    assert!(root.find_by_id(&NodeId { module: ModuleName::new("m"), local_id: 8 }).is_none());
    assert!(root.find_by_id(&NodeId { module: ModuleName::new("other"), local_id: 7 }).is_none());
}

#[test]
fn value_helpers() {
    assert_eq!(Value::String("abc".to_owned()).unwrap_string(), "abc");
    assert_eq!(Value::Symbol("s".to_owned()).unwrap_symbol(), "s");
    let d = Value::dict(vec![
        (Value::Integer(2), Value::Integer(20)),
        (Value::Integer(1), Value::Integer(10)),
        (Value::Integer(2), Value::Integer(30)),
    ]);
    assert_eq!(
        d,
        Value::Dict(vec![
            (Value::Integer(1), Value::Integer(10)),
            (Value::Integer(2), Value::Integer(30))
        ])
    );
    let s = Value::struct_(
        ModuleName::new("m"),
        vec![("y".to_owned(), Value::Integer(2)), ("x".to_owned(), Value::Integer(1))],
    );
    assert_eq!(
        s,
        Value::Struct(
            "m".to_owned(),
            vec![
                (Value::String("x".to_owned()), Value::Integer(1)),
                (Value::String("y".to_owned()), Value::Integer(2))
            ]
        )
    );
    assert_eq!(
        Value::List(vec![Value::Integer(1)]).ensure_enumerable("len").unwrap(),
        Value::List(vec![Value::Integer(1)])
    );
    let e = Value::Integer(3).ensure_enumerable("len").unwrap_err();
    assert_eq!(e.message, "len: Integer(3) is not enumerable");
}

#[test]
fn value_iteration() {
    let items = Value::String("ab".to_owned()).iter().unwrap();
    assert_eq!(items, vec![Value::String("a".to_owned()), Value::String("b".to_owned())]);
    let d = Value::Dict(vec![(Value::Integer(1), Value::Nil)]);
    assert_eq!(
        d.into_iter().unwrap(),
        vec![Value::Tuple(vec![Value::Integer(1), Value::Nil])]
    );
    assert!(Value::Integer(1).iter().is_none());
}

#[test]
fn scopes_allocate_slots_after_their_parent() {
    let mut f = Scope::new_function_scope(3);
    f.define("a", 4);
    f.define("b", 5);
    assert_eq!(f.get_index("b"), Some(1));
    assert_eq!(f.get_node_id("a"), Some(4));
    assert!(f.is_defined("a"));
    assert!(!f.is_defined("c"));
    let mut child = Scope::new_child_scope(&f);
    assert_eq!(child.allocate_anonymous_local(), 2);
    child.define("c", 6);
    assert_eq!(child.get_index("c"), Some(3));
    assert_eq!(child.get_function(), 3);
    assert!(!child.is_function_or_global());
    // under the top level, a block's slots start at the frame's base
    let global = Scope::new_global_scope(0);
    assert_eq!(Scope::new_child_scope(&global).base_offset, 0);
}

#[test]
fn upvalues_are_allocated_once_per_definition() {
    let mut f = Scope::new_function_scope(1);
    let a = f.get_or_allocate_upvalue(10, &UpvalueSource::Local { stack_index_relative_to_base: 2 });
    let b = f.get_or_allocate_upvalue(11, &UpvalueSource::Upvalue { upvalue_index: 0 });
    let c = f.get_or_allocate_upvalue(10, &UpvalueSource::Upvalue { upvalue_index: 7 });
    assert_eq!((a, b, c), (0, 1, 0));
    assert_eq!(
        f.get_upvalue_sources(),
        vec![
            UpvalueSource::Local { stack_index_relative_to_base: 2 },
            UpvalueSource::Upvalue { upvalue_index: 0 }
        ]
    );
}

#[test]
fn program_finds_modules_by_name() {
    let mut program = Program::new();
    program.insert_module(Module { name: ModuleName::new("a"), function: 1, exports: vec![], struct_info: None });
    program.insert_module(Module { name: ModuleName::new("b"), function: 2, exports: vec![], struct_info: None });
    assert_eq!(program.get_module("b").unwrap().function, 2);
    assert!(program.get_module("c").is_none());
    assert_eq!(program.module_names(), vec!["a".to_owned(), "b".to_owned()]);
}

use dang::ast::{BinOp, ImportKind, Node, NodeId, NodeKind, Source};
use dang::compiler::resolve_imports_phase::resolve_imports_phase;
use dang::compiler::resolve_structs_phase::{resolve_structs_phase, StructScope};
use dang::compiler::struct_info_phase::struct_info_phase;
use dang::compiler::tags::TagTable;
use dang::compiler::validate_struct_fields_phase::validate_struct_fields_phase;
use dang::compiler::variable::{VariableAllocation, VariableRef};
use dang::compiler::{ReferencedStruct, ResolvedImportKind};
use dang::module::ModuleName;
use dang::program::Program;
use dang::struct_info::StructInfo;
use dang::value::Value;

struct Nodes {
    next: u32,
}

impl Nodes {
    fn node(&mut self, kind: NodeKind) -> Node {
        let id = self.next;
        self.next += 1;
        Node {
            id: NodeId { module: ModuleName::new("test"), local_id: id },
            kind,
            source: Source { file: "test.dang".to_owned(), line: id as usize, col: 0 },
        }
    }

    fn ident(&mut self, name: &str) -> Node {
        self.node(NodeKind::Identifier(name.to_owned()))
    }

    fn integer(&mut self, i: i64) -> Node {
        self.node(NodeKind::IntegerLiteral(i))
    }
}

fn struct_def(n: &mut Nodes, fields: Vec<(&str, Option<Node>)>) -> Node {
    let fields = fields.into_iter().map(|(name, d)| (n.ident(name), d)).collect();
    n.node(NodeKind::StructDef { fields })
}

fn module_node(n: &mut Nodes) -> Node {
    n.node(NodeKind::Module("test".to_owned()))
}

#[test]
fn struct_info_lists_fields_required_and_defaults() {
    let mut n = Nodes { next: 0 };
    let m = module_node(&mut n);
    let two = n.integer(2);
    let def = struct_def(&mut n, vec![("a", None), ("b", Some(two))]);
    let root = n.node(NodeKind::SourceFile(vec![m, def]));
    let info = struct_info_phase(ModuleName::new("test"), &root).unwrap().unwrap();
    assert_eq!(info.module_name.0, "test");
    assert_eq!(info.fields, vec!["a".to_owned(), "b".to_owned()]);
    assert_eq!(info.required_fields, vec!["a".to_owned()]);
    assert_eq!(info.default_values, vec![("b".to_owned(), Value::Integer(2))]);
}

#[test]
fn struct_info_without_a_struct_is_none() {
    let mut n = Nodes { next: 0 };
    let one = n.integer(1);
    let root = n.node(NodeKind::SourceFile(vec![one]));
    assert!(struct_info_phase(ModuleName::new("test"), &root).unwrap().is_none());
}

#[test]
fn struct_info_rejects_duplicate_fields() {
    let mut n = Nodes { next: 0 };
    let m = module_node(&mut n);
    let def = struct_def(&mut n, vec![("a", None), ("a", None)]);
    let root = n.node(NodeKind::SourceFile(vec![m, def]));
    let e = struct_info_phase(ModuleName::new("test"), &root).unwrap_err();
    assert_eq!(e.message, "duplicate field `a` in struct");
}

#[test]
fn struct_info_rejects_computed_defaults() {
    let mut n = Nodes { next: 0 };
    let m = module_node(&mut n);
    let one = n.integer(1);
    let two = n.integer(2);
    let sum = n.node(NodeKind::BinaryOp { op: BinOp::Add, lhs: Box::new(one), rhs: Box::new(two) });
    let def = struct_def(&mut n, vec![("b", Some(sum))]);
    let root = n.node(NodeKind::SourceFile(vec![m, def]));
    let e = struct_info_phase(ModuleName::new("test"), &root).unwrap_err();
    assert_eq!(e.message, "field `b` in struct not a compile time constant");
}

#[test]
fn structs_must_stand_in_a_module() {
    let mut n = Nodes { next: 0 };
    let def = struct_def(&mut n, vec![("a", None)]);
    let root = n.node(NodeKind::SourceFile(vec![def]));
    let e = struct_info_phase(ModuleName::new("test"), &root).unwrap_err();
    assert_eq!(e.message, "structs must be defined in a module");
}

#[test]
fn imports_are_resolved_in_order() {
    let mut n = Nodes { next: 0 };
    let a = n.node(NodeKind::Import(ImportKind::Module { module_name: "Std/Enum".to_owned() }));
    let b = n.node(NodeKind::Import(ImportKind::Field {
        module_name: "Std/Range".to_owned(),
        field_name: "range".to_owned(),
    }));
    let one = n.integer(1);
    let c = n.node(NodeKind::Import(ImportKind::AllFields {
        module_name: "Std/Assert".to_owned(),
    }));
    let root = n.node(NodeKind::SourceFile(vec![a, b, one, c]));
    let imports = resolve_imports_phase(&root);
    assert_eq!(imports.len(), 3);
    assert_eq!(imports[0].module_name.0, "Std/Enum");
    assert!(matches!(imports[0].kind, ResolvedImportKind::Module));
    assert_eq!(imports[0].short_name(), "Enum");
    assert_eq!(imports[1].module_name.0, "Std/Range");
    assert!(matches!(&imports[1].kind, ResolvedImportKind::Field(f) if f == "range"));
    assert_eq!(imports[2].module_name.0, "Std/Assert");
    assert!(matches!(imports[2].kind, ResolvedImportKind::AllFields));
}

fn point_info() -> StructInfo {
    let mut info = StructInfo::new(ModuleName::new("test"));
    info.fields = vec!["a".to_owned(), "b".to_owned()];
    info.required_fields = vec!["a".to_owned()];
    info.default_values = vec![("b".to_owned(), Value::Integer(2))];
    info
}

/// `test{...}`: a struct literal whose module is named by the global `test`.
fn literal(n: &mut Nodes, refs: &mut TagTable<VariableRef>, fields: Vec<&str>) -> Node {
    let id = n.ident("test");
    let module = n.node(NodeKind::VariableRef { identifier: Box::new(id) });
    refs.insert(
        module.id.local_id,
        VariableRef::new(VariableAllocation::Global {
            module: ModuleName::new("test"),
            name: "test".to_owned(),
        }),
    );
    let fields = fields.into_iter().map(|f| (n.ident(f), n.integer(1))).collect();
    n.node(NodeKind::StructLiteral { module: Box::new(module), fields })
}

#[test]
fn struct_literals_are_tagged_with_their_struct() {
    let mut n = Nodes { next: 0 };
    let mut refs = TagTable::new();
    let lit = literal(&mut n, &mut refs, vec!["a"]);
    let lit_id = lit.id.local_id;
    let root = n.node(NodeKind::SourceFile(vec![lit]));
    let module_name = ModuleName::new("test");
    let constants = vec![("test".to_owned(), Value::Symbol("test".to_owned()))];
    let own = Some(point_info());
    let program = Program::new();
    let scope = StructScope {
        module_name: &module_name,
        constants: &constants,
        own: &own,
        program: &program,
        refs: &refs,
    };
    let mut structs = TagTable::new();
    let mut errors = Vec::new();
    assert!(resolve_structs_phase(&scope, &root, &mut structs, &mut errors).is_ok());
    assert!(errors.is_empty());
    let tagged = structs.get(lit_id).unwrap();
    assert_eq!(tagged.struct_info.fields, vec!["a".to_owned(), "b".to_owned()]);
}

#[test]
fn unknown_struct_names_are_reported() {
    let mut n = Nodes { next: 0 };
    let mut refs = TagTable::new();
    let lit = literal(&mut n, &mut refs, vec!["a"]);
    let line = lit.source.line;
    let root = n.node(NodeKind::SourceFile(vec![lit]));
    let module_name = ModuleName::new("test");
    // no constant names the module
    let constants = vec![];
    let own = Some(point_info());
    let program = Program::new();
    let scope = StructScope {
        module_name: &module_name,
        constants: &constants,
        own: &own,
        program: &program,
        refs: &refs,
    };
    let mut structs = TagTable::new();
    let mut errors = Vec::new();
    let e = resolve_structs_phase(&scope, &root, &mut structs, &mut errors).unwrap_err();
    assert_eq!(e.message, "failed to resolve structs");
    assert_eq!(errors.len(), 1);
    assert_eq!(errors[0].message, "struct names must be known at compile time");
    assert_eq!(errors[0].source.as_ref().unwrap().line, line);
}

fn validate(fields: Vec<&str>) -> (Result<(), dang::exception::Exception>, Vec<dang::exception::Exception>) {
    let mut n = Nodes { next: 0 };
    let mut refs = TagTable::new();
    let lit = literal(&mut n, &mut refs, fields);
    let mut structs = TagTable::new();
    structs.insert(lit.id.local_id, ReferencedStruct { struct_info: point_info() });
    let root = n.node(NodeKind::SourceFile(vec![lit]));
    let mut errors = Vec::new();
    let r = validate_struct_fields_phase(&root, &structs, &mut errors);
    (r, errors)
}

#[test]
fn complete_struct_literals_are_valid() {
    let (r, errors) = validate(vec!["a"]);
    assert!(r.is_ok());
    assert!(errors.is_empty());
    let (r, errors) = validate(vec!["b", "a"]);
    assert!(r.is_ok());
    assert!(errors.is_empty());
}

#[test]
fn missing_required_field_is_reported() {
    let (r, errors) = validate(vec!["b"]);
    assert_eq!(r.unwrap_err().message, "errors validating struct fields");
    assert_eq!(errors.len(), 1);
    assert_eq!(errors[0].message, "required struct field `a` not provided");
}

#[test]
fn unknown_field_is_reported() {
    let (r, errors) = validate(vec!["a", "c"]);
    assert!(r.is_err());
    assert_eq!(errors[0].message, "unknown field `c` provided for struct `test`");
}

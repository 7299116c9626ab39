use dang::ast::{ImportKind, Source};
use dang::compiler::{Input, ResolvedImport, ResolvedImportKind};
use dang::dict::{dict_from_pairs, dict_get, dict_insert};
use dang::exception::Exception;
use dang::interpreter;
use dang::line_col::LineCol;
use dang::module::{module_name_to_file_path, ModuleName};
use dang::numbers::{int_to_string, parse_int};
use dang::stdlib::load_stdlib_file;
use dang::string_utils::byte_to_char_index;
use dang::types::Type;
use dang::value::Value;
use dang::vm::inst::OpCode;
use dang::vm::stats::StatsCollector;

fn s(x: &str) -> Value {
    Value::String(x.to_owned())
}

#[test]
fn dict_insert_then_get() {
    let mut d: Vec<(Value, Value)> = Vec::new();
    dict_insert(&mut d, s("b"), Value::Integer(2));
    dict_insert(&mut d, s("a"), Value::Integer(1));
    dict_insert(&mut d, s("b"), Value::Integer(3));
    assert_eq!(d.len(), 2);
    assert_eq!(dict_get(&d, &s("a")), Some(&Value::Integer(1)));
    assert_eq!(dict_get(&d, &s("b")), Some(&Value::Integer(3)));
    assert_eq!(dict_get(&d, &s("c")), None);
    assert_eq!(d[0].0, s("a"));
}

#[test]
fn dict_from_pairs_last_wins() {
    let d = dict_from_pairs(vec![
        (s("x"), Value::Integer(1)),
        (s("y"), Value::Integer(2)),
        (s("x"), Value::Integer(3)),
    ]);
    assert_eq!(d, vec![(s("x"), Value::Integer(3)), (s("y"), Value::Integer(2))]);
}

#[test]
fn integers_print_and_parse() {
    assert_eq!(int_to_string(0), "0");
    assert_eq!(int_to_string(-1234), "-1234");
    assert_eq!(int_to_string(i64::MIN), "-9223372036854775808");
    assert_eq!(parse_int("9223372036854775807"), Some(i64::MAX));
    assert_eq!(parse_int("-9223372036854775808"), Some(i64::MIN));
    assert_eq!(parse_int("9223372036854775808"), None);
    assert_eq!(parse_int("+12"), Some(12));
    assert_eq!(parse_int(""), None);
    assert_eq!(parse_int("1a"), None);
    assert_eq!(parse_int(&int_to_string(-987)), Some(-987));
}

#[test]
fn byte_offsets_to_char_indices() {
    assert_eq!(byte_to_char_index("héllo", 0), Some(0));
    assert_eq!(byte_to_char_index("héllo", 1), Some(1));
    assert_eq!(byte_to_char_index("héllo", 2), None);
    assert_eq!(byte_to_char_index("héllo", 3), Some(2));
    assert_eq!(byte_to_char_index("abc", 3), None);
}

#[test]
fn module_paths_and_names() {
    assert_eq!(module_name_to_file_path("Std/Enum"), "Std/Enum.dang");
    let m = ModuleName::new("Std/Enum");
    assert!(m.is_std());
    assert!(!m.is_unspecified());
    assert_eq!(m.short_name(), "Enum");
    assert_eq!(ModuleName::new("Main").short_name(), "Main");
    assert!(ModuleName::new("").is_unspecified());
    assert!(!ModuleName::new("Tests/Std").is_std());
}

#[test]
fn inputs_and_imports() {
    assert_eq!(Input::ModuleName("A/B".to_owned()).module_name(), "A/B");
    let input = Input::SourceCode { text: "1".to_owned(), name: "(run)".to_owned() };
    assert_eq!(input.module_name(), "(run)");
    let import = ImportKind::Field { module_name: "Std/Enum".to_owned(), field_name: "map".to_owned() };
    assert_eq!(import.module_name(), "Std/Enum");
    let resolved = ResolvedImport::new(&import);
    assert_eq!(resolved.short_name(), "Enum");
    match resolved.kind {
        ResolvedImportKind::Field(f) => assert_eq!(f, "map"),
        other => panic!("{:?}", other),
    }
}

#[test]
fn source_locations_are_described() {
    let short = Source { file: "main.dang".to_owned(), line: 3, col: 1 };
    assert_eq!(short.describe(), "main.dang:3");
    let long = Source { file: "/home/me/proj/main.dang".to_owned(), line: 12, col: 4 };
    assert_eq!(long.describe(), ".../proj/main.dang:12");
    let two = Source { file: "a/b".to_owned(), line: 1, col: 1 };
    assert_eq!(two.describe(), "a/b:1");
}

#[test]
fn exceptions_and_locations() {
    let e = Exception::new("bad".to_owned());
    assert!(e.source.is_none());
    assert_eq!(e.message, "bad");
    let i = interpreter::Exception::new("worse".to_owned());
    assert_eq!(i.message, "worse");
    let lc = LineCol::new(2, 5);
    assert_eq!((lc.line, lc.col), (2, 5));
    assert_eq!(LineCol::unknown(), LineCol::new(0, 0));
}

#[test]
fn type_names() {
    assert_eq!(Value::Integer(1).get_type(), Type::Int);
    assert_eq!(Type::Struct.as_str(), "struct");
    assert_eq!(Value::Nil.get_type().as_str(), "nil");
}

#[test]
fn stdlib_files_are_looked_up_by_path() {
    let files = vec![
        ("Std/Enum.dang".to_owned(), "enum".to_owned()),
        ("Std/Str.dang".to_owned(), "str".to_owned()),
    ];
    assert_eq!(load_stdlib_file(&files, "Std/Str.dang").map(|s| s.as_str()), Some("str"));
    assert_eq!(load_stdlib_file(&files, "Std/Nope.dang"), None);
}

#[test]
fn stats_rows_are_ordered_by_time() {
    let mut stats = StatsCollector::new();
    stats.record(OpCode::Add, 10);
    stats.record(OpCode::Pop, 50);
    stats.record(OpCode::Add, 5);
    stats.record(OpCode::Call, 50);
    let rows = stats.rows();
    assert_eq!(
        rows,
        vec![
            (OpCode::Call.index(), 1, 50),
            (OpCode::Pop.index(), 1, 50),
            (OpCode::Add.index(), 2, 15),
        ]
    );
}

#[test]
fn exceptions_are_shown_with_their_location() {
    let source = Source { file: "lib/test.dang".to_owned(), line: 12, col: 4 };
    let e = Exception::at_source(&source, "boom");
    assert_eq!(e.describe(), "exception at lib/test.dang:12:4: boom");
    assert_eq!(Exception::new("boom".to_owned()).describe(), "exception: boom");
}

#[test]
fn interpreter_exceptions_are_shown_like_compiler_ones() {
    let mut e = interpreter::Exception::new("bad".to_owned());
    assert_eq!(e.describe(), "exception: bad");
    e.source = Some(Source { file: "a.dang".to_owned(), line: 1, col: 2 });
    assert_eq!(e.describe(), "exception at a.dang:1:2: bad");
}

#[test]
fn index_errors_name_the_index_and_the_length() {
    let t = Value::Tuple(vec![Value::Integer(1), Value::Integer(2)]);
    assert_eq!(t.at(&Value::Integer(5)).unwrap_err().message, "index 5 out of bounds for tuple of size 2");
    let l = Value::List(vec![Value::Integer(1), Value::Integer(2)]);
    // a list reports its length the way a string does
    assert_eq!(l.at(&Value::Integer(3)).unwrap_err().message, "index 3 out of bounds for string of length 2");
    let s = Value::String("ab".to_owned());
    assert_eq!(s.at(&Value::Integer(2)).unwrap_err().message, "index 2 out of bounds for string of length 2");
    let mut l2 = Value::List(vec![Value::Integer(1)]);
    assert_eq!(
        l2.set_at(&Value::Integer(4), Value::Nil).unwrap_err().message,
        "index 4 out of bounds for list of length 1"
    );
}

#[test]
fn missing_struct_fields_name_the_field_and_the_struct() {
    let mut note = Value::struct_(ModuleName::new("Tests/Note"), vec![("text".to_owned(), Value::Nil)]);
    assert_eq!(note.at_field("foo").unwrap_err().message, "field `foo` not found in struct `Tests/Note`");
    assert_eq!(
        note.set_field("foo", Value::Nil).unwrap_err().message,
        "field `foo` not found in struct `Tests/Note`"
    );
}

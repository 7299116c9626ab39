use dang::doc::{Doc, Style};
use dang::module::ModuleName;
use dang::native_funcs::NativeFunc;
use dang::value::Value;

/// The document laid out on one line, styles shown as `<style:...>`.
fn flat(d: &Doc) -> String {
    match d {
        Doc::Text(s) => s.clone(),
        Doc::Line => " ".to_owned(),
        Doc::LineOrNothing => String::new(),
        Doc::Space => " ".to_owned(),
        Doc::Append(a, b) => flat(a) + &flat(b),
        Doc::Nest(_, a) => flat(a),
        Doc::Group(a) => flat(a),
        Doc::Annotated(style, a) => {
            let name = match style {
                Style::Keyword => "kw",
                Style::Symbol => "sym",
                Style::Str => "str",
                Style::Number => "num",
            };
            format!("<{}:{}>", name, flat(a))
        }
        Doc::Intersperse(items, sep) => {
            items.iter().map(flat).collect::<Vec<_>>().join(&flat(sep))
        }
    }
}

fn shown(v: &Value) -> String {
    flat(&v.to_doc(&vec!["main".to_owned(), "helper".to_owned()]))
}

#[test]
fn literals_are_shown_in_their_style() {
    assert_eq!(shown(&Value::Nil), "<kw:nil>");
    assert_eq!(shown(&Value::Bool(true)), "<kw:true>");
    assert_eq!(shown(&Value::Integer(-42)), "<num:-42>");
    assert_eq!(shown(&Value::Symbol("ok".to_owned())), "<sym::ok>");
    assert_eq!(shown(&Value::String("hi".to_owned())), "<str:\"hi\">");
}

#[test]
fn strings_are_escaped_as_in_json() {
    let s = Value::String("a\"b\\c\nd\u{1}".to_owned());
    assert_eq!(shown(&s), "<str:\"a\\\"b\\\\c\\nd\\u0001\">");
}

#[test]
fn collections_are_bracketed_and_separated() {
    let list = Value::List(vec![Value::Integer(1), Value::Integer(2)]);
    assert_eq!(shown(&list), "[<num:1>, <num:2>]");
    let one = Value::Tuple(vec![Value::Integer(1)]);
    assert_eq!(shown(&one), "(<num:1>,)");
    let pair = Value::Tuple(vec![Value::Integer(1), Value::Nil]);
    assert_eq!(shown(&pair), "(<num:1>, <kw:nil>)");
    let dict = Value::Dict(vec![(Value::Integer(1), Value::Bool(false))]);
    assert_eq!(shown(&dict), "{<num:1> => <kw:false>}");
    let s = Value::struct_(ModuleName::new("Tests/Note"), vec![("text".to_owned(), Value::Integer(3))]);
    assert_eq!(shown(&s), "Note{<sym:text:> <num:3>}");
}

#[test]
fn functions_are_shown_by_name() {
    assert_eq!(shown(&Value::Function(1)), "<Func(helper)>");
    assert_eq!(shown(&Value::Function(9)), "<Func(?)>");
    assert_eq!(shown(&Value::Closure(3)), "<Func(closure 3)>");
    assert_eq!(shown(&Value::NativeFunc(NativeFunc::Len)), "<NativeFunc(len)>");
}

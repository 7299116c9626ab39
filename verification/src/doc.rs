use vstd::prelude::*;

use crate::module::{last_component, ModuleName};
use crate::numbers::{decimal, digits, int_to_string, usize_to_string};
use crate::string_utils::concat_str;
use crate::value::Value;

verus! {

/// How a piece of text is coloured on a terminal.
#[derive(Debug, Clone, Copy, PartialEq, Eq, Structural)]
pub enum Style {
    Keyword,
    Symbol,
    Str,
    Number,
}

/// A document to lay out within a line width: texts, places where a line may break, and
/// groups laid out on one line where they fit.
#[derive(Debug)]
pub enum Doc {
    Text(String),
    /// A line break, or a space where the enclosing group fits on one line.
    Line,
    /// A line break, or nothing where the enclosing group fits on one line.
    LineOrNothing,
    /// A space.
    Space,
    Append(Box<Doc>, Box<Doc>),
    /// The document with its line breaks indented by the given width more.
    Nest(usize, Box<Doc>),
    /// The document laid out on one line if it fits.
    Group(Box<Doc>),
    /// The document shown in a style.
    Annotated(Style, Box<Doc>),
    /// The documents one after the other, the separator between each two.
    Intersperse(Vec<Doc>, Box<Doc>),
}

/// The model of a document: texts as sequences of characters.
pub enum DocView {
    Text(Seq<char>),
    Line,
    LineOrNothing,
    Space,
    Append(Box<DocView>, Box<DocView>),
    Nest(nat, Box<DocView>),
    Group(Box<DocView>),
    Annotated(Style, Box<DocView>),
    Intersperse(Seq<DocView>, Box<DocView>),
}

pub open spec fn doc_view(d: Doc) -> DocView
    decreases d,
{
    match d {
        Doc::Text(s) => DocView::Text(s@),
        Doc::Line => DocView::Line,
        Doc::LineOrNothing => DocView::LineOrNothing,
        Doc::Space => DocView::Space,
        Doc::Append(a, b) => DocView::Append(Box::new(doc_view(*a)), Box::new(doc_view(*b))),
        Doc::Nest(n, a) => DocView::Nest(n as nat, Box::new(doc_view(*a))),
        Doc::Group(a) => DocView::Group(Box::new(doc_view(*a))),
        Doc::Annotated(s, a) => DocView::Annotated(s, Box::new(doc_view(*a))),
        Doc::Intersperse(items, sep) => {
            proof {
                broadcast use vstd::std_specs::vec::axiom_vec_decreases_to_view;
            }
            DocView::Intersperse(doc_views(items@), Box::new(doc_view(*sep)))
        },
    }
}

pub open spec fn doc_views(s: Seq<Doc>) -> Seq<DocView>
    decreases s,
{
    if s.len() == 0 {
        Seq::empty()
    } else {
        doc_views(s.drop_last()).push(doc_view(s.last()))
    }
}

impl View for Doc {
    type V = DocView;

    open spec fn view(&self) -> DocView {
        doc_view(*self)
    }
}

/// Whether `c` may stand in a JSON string as it is.
pub open spec fn is_safe_char(c: char) -> bool {
    let n = c as u32;
    (0x20 <= n && n <= 0x21) || (0x23 <= n && n <= 0x5B) || 0x5D <= n
}

/// The lowercase hexadecimal digit of `d` (below 16).
pub open spec fn hex_digit(d: int) -> char {
    if d < 10 {
        (d + 48) as char
    } else {
        (d + 87) as char
    }
}

/// How a character stands in a JSON string: as it is where it may, else a backslash escape,
/// the ASCII control characters without a short escape as `\u00XX`.
pub open spec fn escaped_char(c: char) -> Seq<char> {
    let n = c as u32;
    if is_safe_char(c) {
        seq![c]
    } else if n == 0x08 {
        seq!['\\', 'b']
    } else if n == 0x09 {
        seq!['\\', 't']
    } else if n == 0x0A {
        seq!['\\', 'n']
    } else if n == 0x0C {
        seq!['\\', 'f']
    } else if n == 0x0D {
        seq!['\\', 'r']
    } else if n == 0x22 {
        seq!['\\', '"']
    } else if n == 0x5C {
        seq!['\\', '\\']
    } else {
        seq!['\\', 'u', '0', '0', hex_digit(n as int / 16), hex_digit(n as int % 16)]
    }
}

/// `s` escaped for a JSON string, character by character.
pub open spec fn escaped(s: Seq<char>) -> Seq<char>
    decreases s.len(),
{
    if s.len() == 0 {
        Seq::empty()
    } else {
        escaped(s.drop_last()) + escaped_char(s.last())
    }
}

/// Escapes `s` with `escape8259::escape`, which follows RFC 8259: the quotation mark, the
/// backslash and the control characters become escapes, every other character stays.  The
/// contract states that character mapping, as the crate's source shows it.
#[verifier::external_body]
fn json_escape(s: &str) -> (r: String)
    ensures
        r@ == escaped(s@),
{
    escape8259::escape(s)
}

/// The name of the function at `i` of the table, or `?`.
pub open spec fn function_name(names: Seq<Seq<char>>, i: usize) -> Seq<char> {
    if i < names.len() {
        names[i as int]
    } else {
        "?"@
    }
}

/// `,` and a line break (or a space): what separates the items of a collection.
pub open spec fn item_separator() -> DocView {
    DocView::Append(Box::new(DocView::Text(","@)), Box::new(DocView::Line))
}

/// The items between brackets, broken over lines (indented by two) where they do not fit.
pub open spec fn bracketed(open: Seq<char>, items: Seq<DocView>, close: Seq<char>) -> DocView {
    DocView::Append(
        Box::new(
            DocView::Append(
                Box::new(DocView::Text(open)),
                Box::new(
                    DocView::Group(
                        Box::new(
                            DocView::Nest(
                                2,
                                Box::new(
                                    DocView::Append(
                                        Box::new(DocView::LineOrNothing),
                                        Box::new(
                                            DocView::Append(
                                                Box::new(
                                                    DocView::Intersperse(
                                                        items,
                                                        Box::new(item_separator()),
                                                    ),
                                                ),
                                                Box::new(DocView::LineOrNothing),
                                            ),
                                        ),
                                    ),
                                ),
                            ),
                        ),
                    ),
                ),
            ),
        ),
        Box::new(DocView::Text(close)),
    )
}

/// A text in a style.
pub open spec fn styled(style: Style, text: Seq<char>) -> DocView {
    DocView::Annotated(style, Box::new(DocView::Text(text)))
}

/// The document that shows a value: literals in their style, collections between brackets;
/// compiled functions are named from `names`, the debug names of the function table.
pub open spec fn value_doc(v: Value, names: Seq<Seq<char>>) -> DocView
    decreases v,
{
    match v {
        Value::Nil => styled(Style::Keyword, "nil"@),
        Value::Symbol(s) => styled(Style::Symbol, ":"@ + s@),
        Value::Bool(b) => styled(
            Style::Keyword,
            if b {
                "true"@
            } else {
                "false"@
            },
        ),
        Value::String(s) => styled(Style::Str, "\""@ + escaped(s@) + "\""@),
        Value::Integer(i) => styled(Style::Number, decimal(i as int)),
        Value::NativeFunc(f) => DocView::Text("<NativeFunc("@ + f.spec_name() + ")>"@),
        Value::NativeClosure(i) => DocView::Text(
            "<NativeFunc(iterator "@ + digits(i as nat) + ")>"@,
        ),
        Value::Function(i) => DocView::Text("<Func("@ + function_name(names, i) + ")>"@),
        Value::Closure(i) => DocView::Text("<Func(closure "@ + digits(i as nat) + ")>"@),
        Value::Tuple(items) => {
            proof {
                broadcast use vstd::std_specs::vec::axiom_vec_decreases_to_view;
            }
            if items@.len() == 1 {
                proof {
                    assert(decreases_to!(v => items@[0]));
                }
                DocView::Append(
                    Box::new(
                        DocView::Append(
                            Box::new(
                                DocView::Append(
                                    Box::new(DocView::Text("("@)),
                                    Box::new(value_doc(items@[0], names)),
                                ),
                            ),
                            Box::new(DocView::Text(","@)),
                        ),
                    ),
                    Box::new(DocView::Text(")"@)),
                )
            } else {
                DocView::Append(
                    Box::new(
                        DocView::Append(
                            Box::new(DocView::Text("("@)),
                            Box::new(
                                DocView::Group(
                                    Box::new(
                                        DocView::Nest(
                                            1,
                                            Box::new(
                                                DocView::Intersperse(
                                                    value_docs(items@, names),
                                                    Box::new(item_separator()),
                                                ),
                                            ),
                                        ),
                                    ),
                                ),
                            ),
                        ),
                    ),
                    Box::new(DocView::Text(")"@)),
                )
            }
        },
        Value::List(items) => {
            proof {
                broadcast use vstd::std_specs::vec::axiom_vec_decreases_to_view;
            }
            bracketed("["@, value_docs(items@, names), "]"@)
        },
        Value::Dict(entries) => {
            proof {
                broadcast use vstd::std_specs::vec::axiom_vec_decreases_to_view;
            }
            bracketed("{"@, entry_docs(entries@, names), "}"@)
        },
        Value::Struct(module, fields) => {
            proof {
                broadcast use vstd::std_specs::vec::axiom_vec_decreases_to_view;
            }
            DocView::Append(
                Box::new(DocView::Text(last_component(module@))),
                Box::new(bracketed("{"@, field_docs(fields@, names), "}"@)),
            )
        },
    }
}

/// The documents of values, in order.
pub open spec fn value_docs(s: Seq<Value>, names: Seq<Seq<char>>) -> Seq<DocView>
    decreases s,
{
    if s.len() == 0 {
        Seq::empty()
    } else {
        value_docs(s.drop_last(), names).push(value_doc(s.last(), names))
    }
}

/// The documents of dictionary entries: the key, ` => `, the value.
pub open spec fn entry_docs(s: Seq<(Value, Value)>, names: Seq<Seq<char>>) -> Seq<DocView>
    decreases s,
{
    if s.len() == 0 {
        Seq::empty()
    } else {
        entry_docs(s.drop_last(), names).push(
            DocView::Append(
                Box::new(
                    DocView::Append(
                        Box::new(value_doc(s.last().0, names)),
                        Box::new(DocView::Text(" => "@)),
                    ),
                ),
                Box::new(value_doc(s.last().1, names)),
            ),
        )
    }
}

/// The name of a struct field (a string value), or `?`.
pub open spec fn field_name(k: Value) -> Seq<char> {
    match k {
        Value::String(s) => s@,
        _ => "?"@,
    }
}

/// The documents of struct fields: the name and `:` as a symbol, a space, the value.
pub open spec fn field_docs(s: Seq<(Value, Value)>, names: Seq<Seq<char>>) -> Seq<DocView>
    decreases s,
{
    if s.len() == 0 {
        Seq::empty()
    } else {
        field_docs(s.drop_last(), names).push(
            DocView::Append(
                Box::new(
                    DocView::Append(
                        Box::new(
                            DocView::Annotated(
                                Style::Symbol,
                                Box::new(
                                    DocView::Append(
                                        Box::new(DocView::Text(field_name(s.last().0))),
                                        Box::new(DocView::Text(":"@)),
                                    ),
                                ),
                            ),
                        ),
                        Box::new(DocView::Space),
                    ),
                ),
                Box::new(value_doc(s.last().1, names)),
            ),
        )
    }
}

/// The models of a table's names.
pub open spec fn name_views(names: Seq<String>) -> Seq<Seq<char>> {
    Seq::new(names.len(), |i: int| names[i]@)
}

/// A text.
fn text(s: &str) -> (r: Doc)
    ensures
        r@ == DocView::Text(s@),
{
    Doc::Text(s.to_owned())
}

/// A text in a style.
fn styled_text(style: Style, s: &str) -> (r: Doc)
    ensures
        r@ == styled(style, s@),
{
    let t = text(s);
    Doc::Annotated(style, Box::new(t))
}

fn line() -> (r: Doc)
    ensures
        r@ == DocView::Line,
{
    Doc::Line
}

fn line_or_nothing() -> (r: Doc)
    ensures
        r@ == DocView::LineOrNothing,
{
    Doc::LineOrNothing
}

fn space() -> (r: Doc)
    ensures
        r@ == DocView::Space,
{
    Doc::Space
}

fn append(a: Doc, b: Doc) -> (r: Doc)
    ensures
        r@ == DocView::Append(Box::new(a@), Box::new(b@)),
{
    Doc::Append(Box::new(a), Box::new(b))
}

fn group(a: Doc) -> (r: Doc)
    ensures
        r@ == DocView::Group(Box::new(a@)),
{
    Doc::Group(Box::new(a))
}

fn nest(n: usize, a: Doc) -> (r: Doc)
    ensures
        r@ == DocView::Nest(n as nat, Box::new(a@)),
{
    Doc::Nest(n, Box::new(a))
}

fn annotated(style: Style, a: Doc) -> (r: Doc)
    ensures
        r@ == DocView::Annotated(style, Box::new(a@)),
{
    Doc::Annotated(style, Box::new(a))
}

fn intersperse(items: Vec<Doc>, sep: Doc) -> (r: Doc)
    ensures
        r@ == DocView::Intersperse(doc_views(items@), Box::new(sep@)),
{
    Doc::Intersperse(items, Box::new(sep))
}

fn item_sep() -> (r: Doc)
    ensures
        r@ == item_separator(),
{
    proof {
        reveal_strlit(",");
    }
    append(text(","), line())
}

fn bracketed_doc(open: &str, items: Vec<Doc>, close: &str) -> (r: Doc)
    ensures
        r@ == bracketed(open@, doc_views(items@), close@),
{
    let inner = append(line_or_nothing(), append(intersperse(items, item_sep()), line_or_nothing()));
    append(append(text(open), group(nest(2, inner))), text(close))
}

proof fn lemma_doc_views_push(s: Seq<Doc>, d: Doc)
    ensures
        doc_views(s.push(d)) == doc_views(s).push(d@),
{
    assert(s.push(d).drop_last() =~= s);
}

impl Value {
    /// The document that shows the value (see `value_doc`); compiled functions are named from
    /// `names`, the debug names of the function table.
    pub fn to_doc(&self, names: &Vec<String>) -> (r: Doc)
        ensures
            r@ == value_doc(*self, name_views(names@)),
        decreases self, 1nat,
    {
        let ghost nm = name_views(names@);
        proof {
            reveal_strlit("nil");
            reveal_strlit(":");
            reveal_strlit("true");
            reveal_strlit("false");
            reveal_strlit("\"");
            reveal_strlit("<NativeFunc(");
            reveal_strlit(")>");
            reveal_strlit("<NativeFunc(iterator ");
            reveal_strlit("<Func(");
            reveal_strlit("<Func(closure ");
            reveal_strlit("?");
            reveal_strlit("(");
            reveal_strlit(",");
            reveal_strlit(")");
            reveal_strlit("[");
            reveal_strlit("]");
            reveal_strlit("{");
            reveal_strlit("}");
            reveal_strlit(" => ");
        }
        match self {
            Value::Nil => styled_text(Style::Keyword, "nil"),
            Value::Symbol(s) => {
                let t = concat_str(":", s.as_str());
                styled_text(Style::Symbol, t.as_str())
            },
            Value::Bool(b) => {
                if *b {
                    styled_text(Style::Keyword, "true")
                } else {
                    styled_text(Style::Keyword, "false")
                }
            },
            Value::String(s) => {
                let e = json_escape(s.as_str());
                let a = concat_str("\"", e.as_str());
                let t = concat_str(a.as_str(), "\"");
                styled_text(Style::Str, t.as_str())
            },
            Value::Integer(i) => {
                let t = int_to_string(*i);
                styled_text(Style::Number, t.as_str())
            },
            Value::NativeFunc(f) => {
                let a = concat_str("<NativeFunc(", f.name());
                let t = concat_str(a.as_str(), ")>");
                text(t.as_str())
            },
            Value::NativeClosure(i) => {
                let n = usize_to_string(*i);
                let a = concat_str("<NativeFunc(iterator ", n.as_str());
                let t = concat_str(a.as_str(), ")>");
                text(t.as_str())
            },
            Value::Function(i) => {
                let name = if *i < names.len() {
                    names[*i].as_str()
                } else {
                    "?"
                };
                let a = concat_str("<Func(", name);
                let t = concat_str(a.as_str(), ")>");
                text(t.as_str())
            },
            Value::Closure(i) => {
                let n = usize_to_string(*i);
                let a = concat_str("<Func(closure ", n.as_str());
                let t = concat_str(a.as_str(), ")>");
                text(t.as_str())
            },
            Value::Tuple(items) => {
                proof {
                    broadcast use vstd::std_specs::vec::axiom_vec_decreases_to_view;
                }
                if items.len() == 1 {
                    proof {
                        assert(decreases_to!(self => items@[0]));
                    }
                    let first = items[0].to_doc(names);
                    append(append(append(text("("), first), text(",")), text(")"))
                } else {
                    let docs = docs_of(self, items, names);
                    let body = group(nest(1, intersperse(docs, item_sep())));
                    append(append(text("("), body), text(")"))
                }
            },
            Value::List(items) => {
                let docs = docs_of(self, items, names);
                bracketed_doc("[", docs, "]")
            },
            Value::Dict(entries) => {
                let docs = entry_docs_of(self, entries, names);
                bracketed_doc("{", docs, "}")
            },
            Value::Struct(module, fields) => {
                let m = ModuleName(module.clone()).short_name();
                let docs = field_docs_of(self, fields, names);
                append(text(m.as_str()), bracketed_doc("{", docs, "}"))
            },
        }
    }
}

/// The documents of `items`, the elements of `owner`.
fn docs_of(owner: &Value, items: &Vec<Value>, names: &Vec<String>) -> (r: Vec<Doc>)
    requires
        forall|j: int| 0 <= j < items@.len() ==> decreases_to!(*owner => #[trigger] items@[j]),
    ensures
        doc_views(r@) == value_docs(items@, name_views(names@)),
    decreases *owner, 0nat,
{
    let ghost nm = name_views(names@);
    let mut docs: Vec<Doc> = Vec::new();
    let mut j: usize = 0;
    assert(items@.take(0) =~= Seq::<Value>::empty());
    while j < items.len()
        invariant
            j <= items@.len(),
            nm == name_views(names@),
            forall|k: int| 0 <= k < items@.len() ==> decreases_to!(*owner => #[trigger] items@[k]),
            doc_views(docs@) == value_docs(items@.take(j as int), nm),
        decreases items.len() - j,
    {
        assert(decreases_to!(*owner => items@[j as int]));
        let d = items[j].to_doc(names);
        proof {
            lemma_doc_views_push(docs@, d);
            assert(items@.take(j + 1).drop_last() =~= items@.take(j as int));
        }
        docs.push(d);
        j = j + 1;
    }
    assert(items@.take(items@.len() as int) =~= items@);
    docs
}

/// The documents of dictionary entries, the entries of `owner`.
fn entry_docs_of(owner: &Value, entries: &Vec<(Value, Value)>, names: &Vec<String>) -> (r: Vec<
    Doc,
>)
    requires
        forall|j: int|
            0 <= j < entries@.len() ==> decreases_to!(*owner => (#[trigger] entries@[j]).0)
                && decreases_to!(*owner => entries@[j].1),
    ensures
        doc_views(r@) == entry_docs(entries@, name_views(names@)),
    decreases *owner, 0nat,
{
    let ghost nm = name_views(names@);
    let mut docs: Vec<Doc> = Vec::new();
    let mut j: usize = 0;
    assert(entries@.take(0) =~= Seq::<(Value, Value)>::empty());
    while j < entries.len()
        invariant
            j <= entries@.len(),
            nm == name_views(names@),
            forall|k: int|
                0 <= k < entries@.len() ==> decreases_to!(*owner => (#[trigger] entries@[k]).0)
                    && decreases_to!(*owner => entries@[k].1),
            doc_views(docs@) == entry_docs(entries@.take(j as int), nm),
        decreases entries.len() - j,
    {
        proof {
            reveal_strlit(" => ");
        }
        let ghost e = entries@[j as int];
        assert(decreases_to!(*owner => e.0));
        assert(decreases_to!(*owner => e.1));
        let k = entries[j].0.to_doc(names);
        let v = entries[j].1.to_doc(names);
        let d = append(append(k, text(" => ")), v);
        proof {
            lemma_doc_views_push(docs@, d);
            assert(entries@.take(j + 1).drop_last() =~= entries@.take(j as int));
        }
        docs.push(d);
        j = j + 1;
    }
    assert(entries@.take(entries@.len() as int) =~= entries@);
    docs
}

/// The documents of struct fields, the fields of `owner`.
fn field_docs_of(owner: &Value, fields: &Vec<(Value, Value)>, names: &Vec<String>) -> (r: Vec<
    Doc,
>)
    requires
        forall|j: int|
            0 <= j < fields@.len() ==> decreases_to!(*owner => (#[trigger] fields@[j]).1),
    ensures
        doc_views(r@) == field_docs(fields@, name_views(names@)),
    decreases *owner, 0nat,
{
    let ghost nm = name_views(names@);
    let mut docs: Vec<Doc> = Vec::new();
    let mut j: usize = 0;
    assert(fields@.take(0) =~= Seq::<(Value, Value)>::empty());
    while j < fields.len()
        invariant
            j <= fields@.len(),
            nm == name_views(names@),
            forall|k: int|
                0 <= k < fields@.len() ==> decreases_to!(*owner => (#[trigger] fields@[k]).1),
            doc_views(docs@) == field_docs(fields@.take(j as int), nm),
        decreases fields.len() - j,
    {
        proof {
            reveal_strlit(":");
            reveal_strlit("?");
        }
        let ghost e = fields@[j as int];
        assert(decreases_to!(*owner => e.1));
        let name = match &fields[j].0 {
            Value::String(s) => s.as_str(),
            _ => "?",
        };
        let label = annotated(Style::Symbol, append(text(name), text(":")));
        let v = fields[j].1.to_doc(names);
        let d = append(append(label, space()), v);
        proof {
            lemma_doc_views_push(docs@, d);
            assert(fields@.take(j + 1).drop_last() =~= fields@.take(j as int));
        }
        docs.push(d);
        j = j + 1;
    }
    assert(fields@.take(fields@.len() as int) =~= fields@);
    docs
}

} // verus!

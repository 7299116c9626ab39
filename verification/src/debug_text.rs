use vstd::prelude::*;

use crate::native_funcs::NativeFunc;
use crate::numbers::{decimal, digits, int_to_string, usize_to_string};
use crate::string_utils::{concat_str, string_from_chars, to_chars};
use crate::value::{lemma_pair_views, lemma_views, pair_views, views, Val, Value};
use crate::vm::pattern::{Pattern, PatternNode};

verus! {

/// The lowercase hexadecimal digits of `n` (below 256), without leading zeros.
pub open spec fn small_hex(n: int) -> Seq<char> {
    if n < 16 {
        seq![hex_char(n)]
    } else {
        seq![hex_char(n / 16), hex_char(n % 16)]
    }
}

pub open spec fn hex_char(d: int) -> char {
    if d < 10 {
        (d + 48) as char
    } else {
        (d + 87) as char
    }
}

/// How a character stands between the quotes of a quoted text: the quote, the backslash and
/// the ASCII control characters are escaped (`\n`, `\r`, `\t`, `\0`, else `\u{..}` in
/// lowercase hexadecimal); every other character stands as it is.
pub open spec fn debug_char(c: char) -> Seq<char> {
    let n = c as u32;
    if c == '"' {
        seq!['\\', '"']
    } else if c == '\\' {
        seq!['\\', '\\']
    } else if c == '\n' {
        seq!['\\', 'n']
    } else if c == '\r' {
        seq!['\\', 'r']
    } else if c == '\t' {
        seq!['\\', 't']
    } else if n == 0 {
        seq!['\\', '0']
    } else if n < 0x20 || n == 0x7f {
        seq!['\\', 'u', '{'] + small_hex(n as int) + seq!['}']
    } else {
        seq![c]
    }
}

/// The characters of `s`, each as `debug_char` shows it.
pub open spec fn debug_chars(s: Seq<char>) -> Seq<char>
    decreases s.len(),
{
    if s.len() == 0 {
        Seq::empty()
    } else {
        debug_chars(s.drop_last()) + debug_char(s.last())
    }
}

/// `s` between double quotes, escaped.
pub open spec fn quoted(s: Seq<char>) -> Seq<char> {
    seq!['"'] + debug_chars(s) + seq!['"']
}

/// The debug text of a value: its variant's name and, in round brackets, what it holds;
/// texts quoted, sequences in square brackets, dictionary and struct entries in braces as
/// `key: value`, items separated by `, `.  Functions, closures and native closures show the
/// number that identifies them, native functions their name.
pub open spec fn value_debug(v: Val) -> Seq<char>
    decreases v, 0nat,
{
    match v {
        Val::Nil => "Nil"@,
        Val::Symbol(s) => "Symbol("@ + quoted(s) + ")"@,
        Val::Bool(b) => "Bool("@ + (if b {
            "true"@
        } else {
            "false"@
        }) + ")"@,
        Val::Str(s) => "String("@ + quoted(s) + ")"@,
        Val::Int(i) => "Integer("@ + decimal(i as int) + ")"@,
        Val::NativeFunc(f) => "NativeFunc("@ + f.spec_name() + ")"@,
        Val::NativeClosure(i) => "NativeClosure("@ + digits(i as nat) + ")"@,
        Val::Function(i) => "Function("@ + digits(i as nat) + ")"@,
        Val::Closure(i) => "Closure("@ + digits(i as nat) + ")"@,
        Val::Tuple(items) => "Tuple(["@ + items_debug(items) + "])"@,
        Val::List(items) => "List(["@ + items_debug(items) + "])"@,
        Val::Dict(es) => "Dict({"@ + entries_debug(es) + "})"@,
        Val::Struct(m, es) => "Struct(ModuleName("@ + quoted(m) + "), {"@ + entries_debug(es)
            + "})"@,
    }
}

/// The debug texts of the items, separated by `, `.
pub open spec fn items_debug(s: Seq<Val>) -> Seq<char>
    decreases s, 0nat,
{
    if s.len() == 0 {
        Seq::empty()
    } else if s.len() == 1 {
        value_debug(s.last())
    } else {
        items_debug(s.drop_last()) + ", "@ + value_debug(s.last())
    }
}

/// The debug text of an entry `(key, value)`: `key: value`.
pub open spec fn entry_debug(e: Val) -> Seq<char>
    decreases e, 1nat,
{
    match e {
        Val::Tuple(kv) => if kv.len() == 2 {
            value_debug(kv[0]) + ": "@ + value_debug(kv[1])
        } else {
            value_debug(e)
        },
        _ => value_debug(e),
    }
}

/// The debug texts of the entries, separated by `, `.
pub open spec fn entries_debug(s: Seq<Val>) -> Seq<char>
    decreases s, 0nat,
{
    if s.len() == 0 {
        Seq::empty()
    } else if s.len() == 1 {
        entry_debug(s.last())
    } else {
        entries_debug(s.drop_last()) + ", "@ + entry_debug(s.last())
    }
}

fn hex_char_of(d: u32) -> (c: char)
    requires
        d < 16,
    ensures
        c == hex_char(d as int),
{
    let digits = to_chars("0123456789abcdef");
    proof {
        reveal_strlit("0123456789abcdef");
    }
    digits[d as usize]
}

/// `s` between double quotes, escaped (see `debug_char`).
pub fn quote(s: &str) -> (r: String)
    ensures
        r@ == quoted(s@),
{
    let cs = to_chars(s);
    let mut out: Vec<char> = Vec::new();
    out.push('"');
    let mut i: usize = 0;
    assert(cs@.take(0) =~= Seq::<char>::empty());
    while i < cs.len()
        invariant
            i <= cs@.len(),
            cs@ == s@,
            out@ == seq!['"'] + debug_chars(cs@.take(i as int)),
        decreases cs.len() - i,
    {
        let c = cs[i];
        let n = c as u32;
        let ghost before = out@;
        if c == '"' {
            out.push('\\');
            out.push('"');
        } else if c == '\\' {
            out.push('\\');
            out.push('\\');
        } else if c == '\n' {
            out.push('\\');
            out.push('n');
        } else if c == '\r' {
            out.push('\\');
            out.push('r');
        } else if c == '\t' {
            out.push('\\');
            out.push('t');
        } else if n == 0 {
            out.push('\\');
            out.push('0');
        } else if n < 0x20 || n == 0x7f {
            out.push('\\');
            out.push('u');
            out.push('{');
            if n >= 16 {
                out.push(hex_char_of(n / 16));
            }
            out.push(hex_char_of(n % 16));
            out.push('}');
        } else {
            out.push(c);
        }
        assert(out@ =~= before + debug_char(c));
        assert(cs@.take(i + 1).drop_last() =~= cs@.take(i as int));
        i = i + 1;
    }
    out.push('"');
    assert(cs@.take(cs@.len() as int) =~= cs@);
    string_from_chars(&out)
}

proof fn lemma_views_take_push(s: Seq<Value>, i: int)
    requires
        0 <= i < s.len(),
    ensures
        views(s.take(i + 1)) == views(s.take(i)).push(s[i]@),
        views(s.take(i + 1)).len() == i + 1,
{
    lemma_views(s.take(i + 1));
    lemma_views(s.take(i));
    assert(views(s.take(i + 1)) =~= views(s.take(i)).push(s[i]@));
}

proof fn lemma_pair_views_take_push(s: Seq<(Value, Value)>, i: int)
    requires
        0 <= i < s.len(),
    ensures
        pair_views(s.take(i + 1)) == pair_views(s.take(i)).push(
            Val::Tuple(seq![s[i].0@, s[i].1@]),
        ),
        pair_views(s.take(i + 1)).len() == i + 1,
{
    lemma_pair_views(s.take(i + 1));
    lemma_pair_views(s.take(i));
    assert(pair_views(s.take(i + 1)) =~= pair_views(s.take(i)).push(
        Val::Tuple(seq![s[i].0@, s[i].1@]),
    ));
}

impl Value {
    /// The debug text of the value (see `value_debug`).
    pub fn debug_text(&self) -> (r: String)
        ensures
            r@ == value_debug(self@),
        decreases self, 1nat,
    {
        proof {
            reveal_strlit("Nil");
            reveal_strlit("Symbol(");
            reveal_strlit(")");
            reveal_strlit("Bool(");
            reveal_strlit("true");
            reveal_strlit("false");
            reveal_strlit("String(");
            reveal_strlit("Integer(");
            reveal_strlit("NativeFunc(");
            reveal_strlit("NativeClosure(");
            reveal_strlit("Function(");
            reveal_strlit("Closure(");
            reveal_strlit("Tuple([");
            reveal_strlit("List([");
            reveal_strlit("])");
            reveal_strlit("Dict({");
            reveal_strlit("})");
            reveal_strlit("Struct(ModuleName(");
            reveal_strlit("), {");
        }
        match self {
            Value::Nil => "Nil".to_owned(),
            Value::Symbol(s) => wrap("Symbol(", quote(s.as_str()).as_str(), ")"),
            Value::Bool(b) => wrap("Bool(", if *b { "true" } else { "false" }, ")"),
            Value::String(s) => wrap("String(", quote(s.as_str()).as_str(), ")"),
            Value::Integer(i) => wrap("Integer(", int_to_string(*i).as_str(), ")"),
            Value::NativeFunc(f) => wrap("NativeFunc(", f.name(), ")"),
            Value::NativeClosure(i) => wrap("NativeClosure(", usize_to_string(*i).as_str(), ")"),
            Value::Function(i) => wrap("Function(", usize_to_string(*i).as_str(), ")"),
            Value::Closure(i) => wrap("Closure(", usize_to_string(*i).as_str(), ")"),
            Value::Tuple(items) => wrap("Tuple([", items_text(self, items).as_str(), "])"),
            Value::List(items) => wrap("List([", items_text(self, items).as_str(), "])"),
            Value::Dict(es) => wrap("Dict({", entries_text(self, es).as_str(), "})"),
            Value::Struct(m, es) => {
                let a = wrap("Struct(ModuleName(", quote(m.as_str()).as_str(), "), {");
                wrap(a.as_str(), entries_text(self, es).as_str(), "})")
            },
        }
    }
}

/// `a`, `b` and `c` one after the other.
fn wrap(a: &str, b: &str, c: &str) -> (r: String)
    ensures
        r@ == a@ + b@ + c@,
{
    let ab = concat_str(a, b);
    concat_str(ab.as_str(), c)
}

/// The debug texts of `items`, the elements of `owner`, separated by `, `.
fn items_text(owner: &Value, items: &Vec<Value>) -> (r: String)
    requires
        forall|j: int| 0 <= j < items@.len() ==> decreases_to!(*owner => #[trigger] items@[j]),
    ensures
        r@ == items_debug(views(items@)),
    decreases *owner, 0nat,
{
    proof {
        reveal_strlit(", ");
        lemma_views(items@);
        lemma_views(items@.take(0));
    }
    let mut out = String::new();
    let mut i: usize = 0;
    while i < items.len()
        invariant
            i <= items@.len(),
            forall|j: int| 0 <= j < items@.len() ==> decreases_to!(*owner => #[trigger] items@[j]),
            out@ == items_debug(views(items@.take(i as int))),
        decreases items.len() - i,
    {
        proof {
            lemma_views_take_push(items@, i as int);
            let w = views(items@.take(i + 1));
            assert(w.drop_last() =~= views(items@.take(i as int)));
            assert(w.last() == items@[i as int]@);
        }
        assert(decreases_to!(*owner => items@[i as int]));
        let t = items[i].debug_text();
        if i == 0 {
            out = t;
        } else {
            out = wrap(out.as_str(), ", ", t.as_str());
        }
        i = i + 1;
    }
    assert(items@.take(items@.len() as int) =~= items@);
    out
}

/// The debug texts of `entries`, those of `owner`, as `key: value` separated by `, `.
fn entries_text(owner: &Value, entries: &Vec<(Value, Value)>) -> (r: String)
    requires
        forall|j: int|
            0 <= j < entries@.len() ==> decreases_to!(*owner => (#[trigger] entries@[j]).0)
                && decreases_to!(*owner => entries@[j].1),
    ensures
        r@ == entries_debug(pair_views(entries@)),
    decreases *owner, 0nat,
{
    proof {
        reveal_strlit(", ");
        reveal_strlit(": ");
        lemma_pair_views(entries@);
        lemma_pair_views(entries@.take(0));
    }
    let mut out = String::new();
    let mut i: usize = 0;
    while i < entries.len()
        invariant
            i <= entries@.len(),
            forall|j: int|
                0 <= j < entries@.len() ==> decreases_to!(*owner => (#[trigger] entries@[j]).0)
                    && decreases_to!(*owner => entries@[j].1),
            out@ == entries_debug(pair_views(entries@.take(i as int))),
        decreases entries.len() - i,
    {
        proof {
            lemma_pair_views_take_push(entries@, i as int);
            let w = pair_views(entries@.take(i + 1));
            assert(w.drop_last() =~= pair_views(entries@.take(i as int)));
        }
        let ghost e = entries@[i as int];
        assert(decreases_to!(*owner => e.0));
        assert(decreases_to!(*owner => e.1));
        let k = entries[i].0.debug_text();
        let v = entries[i].1.debug_text();
        let t = wrap(k.as_str(), ": ", v.as_str());
        assert(t@ == entry_debug(Val::Tuple(seq![e.0@, e.1@])));
        if i == 0 {
            out = t;
        } else {
            out = wrap(out.as_str(), ", ", t.as_str());
        }
        i = i + 1;
    }
    assert(entries@.take(entries@.len() as int) =~= entries@);
    out
}

/// The debug text of a pattern node: its variant and, as a struct or in round brackets, what
/// it holds (the text `#[derive(Debug)]` gives).
pub open spec fn node_debug(p: PatternNode) -> Seq<char>
    decreases p, 0nat,
{
    match p {
        PatternNode::Variable { stack_slot } => "Variable { stack_slot: "@ + digits(stack_slot as nat)
            + " }"@,
        PatternNode::Wildcard => "Wildcard"@,
        PatternNode::Constant(v) => "Constant("@ + value_debug(v@) + ")"@,
        PatternNode::Tuple(ps) => {
            proof {
                broadcast use vstd::std_specs::vec::axiom_vec_decreases_to_view;
            }
            "Tuple(["@ + nodes_debug(ps@) + "])"@
        },
        PatternNode::List { start, rest, end } => {
            proof {
                broadcast use vstd::std_specs::vec::axiom_vec_decreases_to_view;
            }
            "List { start: ["@ + nodes_debug(start@) + "], rest: "@ + match rest {
                Some(r) => "Some("@ + node_debug(*r) + ")"@,
                None => "None"@,
            } + ", end: ["@ + nodes_debug(end@) + "] }"@
        },
    }
}

/// The debug texts of pattern nodes, separated by `, `.
pub open spec fn nodes_debug(s: Seq<PatternNode>) -> Seq<char>
    decreases s, 0nat,
{
    if s.len() == 0 {
        Seq::empty()
    } else if s.len() == 1 {
        node_debug(s.last())
    } else {
        nodes_debug(s.drop_last()) + ", "@ + node_debug(s.last())
    }
}

/// The debug text of a pattern (the text `#[derive(Debug)]` gives).
pub open spec fn pattern_debug(p: Pattern) -> Seq<char> {
    "Pattern { stack_slot_count: "@ + digits(p.stack_slot_count as nat) + ", node: "@ + node_debug(
        p.node,
    ) + " }"@
}

impl PatternNode {
    /// The debug text of the node (see `node_debug`).
    pub fn debug_text(&self) -> (r: String)
        ensures
            r@ == node_debug(*self),
        decreases self, 1nat,
    {
        proof {
            reveal_strlit("Variable { stack_slot: ");
            reveal_strlit(" }");
            reveal_strlit("Wildcard");
            reveal_strlit("Constant(");
            reveal_strlit(")");
            reveal_strlit("Tuple([");
            reveal_strlit("])");
            reveal_strlit("List { start: [");
            reveal_strlit("], rest: ");
            reveal_strlit("Some(");
            reveal_strlit("None");
            reveal_strlit(", end: [");
            reveal_strlit("] }");
            broadcast use vstd::std_specs::vec::axiom_vec_decreases_to_view;
        }
        match self {
            PatternNode::Variable { stack_slot } => wrap(
                "Variable { stack_slot: ",
                usize_to_string(*stack_slot).as_str(),
                " }",
            ),
            PatternNode::Wildcard => "Wildcard".to_owned(),
            PatternNode::Constant(v) => wrap("Constant(", v.debug_text().as_str(), ")"),
            PatternNode::Tuple(ps) => wrap("Tuple([", nodes_text(self, ps).as_str(), "])"),
            PatternNode::List { start, rest, end } => {
                let a = wrap("List { start: [", nodes_text(self, start).as_str(), "], rest: ");
                let r = match rest {
                    Some(b) => {
                        assert(decreases_to!(self => **b));
                        wrap("Some(", b.debug_text().as_str(), ")")
                    },
                    None => "None".to_owned(),
                };
                let b = wrap(a.as_str(), r.as_str(), ", end: [");
                wrap(b.as_str(), nodes_text(self, end).as_str(), "] }")
            },
        }
    }
}

/// The debug texts of `nodes`, nodes within `owner`, separated by `, `.
fn nodes_text(owner: &PatternNode, nodes: &Vec<PatternNode>) -> (r: String)
    requires
        forall|j: int| 0 <= j < nodes@.len() ==> decreases_to!(*owner => #[trigger] nodes@[j]),
    ensures
        r@ == nodes_debug(nodes@),
    decreases *owner, 0nat,
{
    proof {
        reveal_strlit(", ");
    }
    let mut out = String::new();
    let mut i: usize = 0;
    while i < nodes.len()
        invariant
            i <= nodes@.len(),
            forall|j: int| 0 <= j < nodes@.len() ==> decreases_to!(*owner => #[trigger] nodes@[j]),
            out@ == nodes_debug(nodes@.take(i as int)),
        decreases nodes.len() - i,
    {
        assert(decreases_to!(*owner => nodes@[i as int]));
        assert(nodes@.take(i + 1).drop_last() =~= nodes@.take(i as int));
        let t = nodes[i].debug_text();
        if i == 0 {
            out = t;
        } else {
            out = wrap(out.as_str(), ", ", t.as_str());
        }
        i = i + 1;
    }
    assert(nodes@.take(nodes@.len() as int) =~= nodes@);
    out
}

impl Pattern {
    /// The debug text of the pattern (see `pattern_debug`).
    pub fn debug_text(&self) -> (r: String)
        ensures
            r@ == pattern_debug(*self),
    {
        proof {
            reveal_strlit("Pattern { stack_slot_count: ");
            reveal_strlit(", node: ");
            reveal_strlit(" }");
        }
        let a = wrap(
            "Pattern { stack_slot_count: ",
            usize_to_string(self.stack_slot_count).as_str(),
            ", node: ",
        );
        wrap(a.as_str(), self.node.debug_text().as_str(), " }")
    }
}

} // verus!

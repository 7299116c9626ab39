use vstd::prelude::*;

use crate::numbers::{decimal, digits, int_to_string, usize_to_string};
use crate::string_utils::{concat_str, string_from_chars, to_chars};
use crate::strings::{split_spec, split_values};
use crate::dict::{dict_from_pairs, dict_of};
use crate::module::ModuleName;
use crate::value::{entry, lemma_pair_views, lemma_views, pair_views, views, Val, Value};

verus! {

/// Where a node of the program stands in its source file.
#[derive(Debug, Clone)]
pub struct Source {
    pub file: String,
    pub line: usize,
    pub col: usize,
}

impl Source {
    /// A copy of the location.
    pub fn copy(&self) -> (r: Source)
        ensures
            r.file@ == self.file@,
            r.line == self.line,
            r.col == self.col,
    {
        Source { file: self.file.clone(), line: self.line, col: self.col }
    }

    /// How the location is shown: the file's last two path components (after `.../`) when it
    /// has more than two, else the whole path; then `:` and the line.
    pub fn describe(&self) -> (r: String)
        ensures
            r@ == source_text(self.file@, self.line),
    {
        proof {
            reveal_strlit("/");
            reveal_strlit(":");
            reveal_strlit(".../");
        }
        let parts = split_values(self.file.as_str(), "/");
        let ghost ps = split_spec(self.file@, "/"@);
        proof {
            lemma_views(parts@);
            assert(views(parts@).len() == ps.len());
        }
        let line = usize_to_string(self.line);
        let n = parts.len();
        if n > 2 {
            assert(views(parts@)[n - 2] == Val::Str(ps[n - 2]));
            assert(views(parts@)[n - 1] == Val::Str(ps[n - 1]));
            match (&parts[n - 2], &parts[n - 1]) {
                (Value::String(dir), Value::String(name)) => {
                    let a = concat_str(".../", dir.as_str());
                    let b = concat_str(a.as_str(), "/");
                    let c = concat_str(b.as_str(), name.as_str());
                    let d = concat_str(c.as_str(), ":");
                    concat_str(d.as_str(), line.as_str())
                },
                _ => {
                    assert(false);
                    String::new()
                },
            }
        } else {
            let a = concat_str(self.file.as_str(), ":");
            concat_str(a.as_str(), line.as_str())
        }
    }
}

/// The text of a source location (see `Source::describe`).
pub open spec fn source_text(file: Seq<char>, line: usize) -> Seq<char> {
    let parts = split_spec(file, "/"@);
    if parts.len() > 2 {
        ".../"@ + parts[parts.len() - 2] + "/"@ + parts[parts.len() - 1] + ":"@ + digits(
            line as nat,
        )
    } else {
        file + ":"@ + digits(line as nat)
    }
}


#[derive(Clone, Copy, Debug, PartialEq, Eq, Structural)]
pub enum BinOp {
    Add,
    Sub,
    Mul,
    Div,
    LogicalOr,
    LogicalAnd,
    Eq,
    Neq,
    Gt,
    Gte,
    Lt,
    Lte,
}

#[derive(Clone, Copy, Debug, PartialEq, Eq, Structural)]
pub enum UnaryOp {
    Neg,
    LogicalNeg,
}

#[derive(Clone, Debug)]
pub enum ImportKind {
    Module { module_name: String },
    Field { module_name: String, field_name: String },
    AllFields { module_name: String },
}

impl ImportKind {
    pub open spec fn spec_module_name(&self) -> Seq<char> {
        match self {
            ImportKind::Module { module_name } => module_name@,
            ImportKind::Field { module_name, .. } => module_name@,
            ImportKind::AllFields { module_name } => module_name@,
        }
    }

    /// The module that the import names.
    pub fn module_name(&self) -> (r: &str)
        ensures
            r@ == self.spec_module_name(),
    {
        match self {
            ImportKind::Module { module_name } => module_name.as_str(),
            ImportKind::Field { module_name, field_name: _ } => module_name.as_str(),
            ImportKind::AllFields { module_name } => module_name.as_str(),
        }
    }
}

/// Identifies a node of the syntax tree: its module, and a number within the module.
#[derive(Debug, Clone, PartialEq, Eq)]
pub struct NodeId {
    pub module: ModuleName,
    pub local_id: u32,
}

/// The number a node gets before it is numbered.
pub const UNSPECIFIED_NODE_LOCAL_ID: u32 = 4294967295;

impl NodeId {
    /// The first node of `module`.
    pub fn first_in_module(module: ModuleName) -> (r: NodeId)
        ensures
            r.module == module,
            r.local_id == 0,
    {
        NodeId { module, local_id: 0 }
    }

    /// The node numbered after this one.
    pub fn next_id(&self) -> (r: NodeId)
        requires
            self.local_id < u32::MAX,
        ensures
            r.module.0@ == self.module.0@,
            r.local_id == self.local_id + 1,
    {
        NodeId { module: ModuleName(self.module.0.clone()), local_id: self.local_id + 1 }
    }

    pub fn raw_id(&self) -> (r: (String, u32))
        ensures
            r.0@ == self.module.0@,
            r.1 == self.local_id,
    {
        (self.module.0.clone(), self.local_id)
    }

    pub fn module(&self) -> (r: &ModuleName)
        ensures
            *r == self.module,
    {
        &self.module
    }
}

/// A node of the syntax tree.
#[derive(Debug)]
pub struct Node {
    pub id: NodeId,
    pub kind: NodeKind,
    pub source: Source,
}

#[derive(Debug)]
pub enum NodeKind {
    SourceFile(Vec<Node>),
    Module(String),
    Import(ImportKind),
    StructDef {
        /// field name, and its default value if it has one
        fields: Vec<(Node, Option<Node>)>,
    },
    Body(Vec<Node>),
    Builtin { identifier: Box<Node> },
    Let { pattern: Box<Node>, expr: Box<Node> },
    Var { pattern: Box<Node>, expr: Box<Node> },
    Assignment { pattern: Box<Node>, expr: Box<Node> },
    FieldAssignment { variable_ref: Box<Node>, path: Vec<Node>, expr: Box<Node> },
    /// (...)[key] = ...
    FieldAssignmentPathSubscript { key: Box<Node> },
    /// (...).key = ...
    FieldAssignmentPathField { key: Box<Node> },
    If { condition: Box<Node>, body: Box<Node>, else_branch: Option<Box<Node>> },
    For { pattern: Box<Node>, enumerable: Box<Node>, body: Box<Node> },
    /// object[key]
    Subscript { object: Box<Node>, key: Box<Node> },
    /// object.key
    FieldAccess { object: Box<Node>, key: Box<Node> },
    FunctionLiteral { arg_names: Vec<Node>, body: Box<Node> },
    FunctionCall { function: Box<Node>, args: Vec<Node> },
    VariableRef { identifier: Box<Node> },
    PatternIdentifier { identifier: Box<Node> },
    PatternTuple { elements: Vec<Node> },
    Identifier(String),
    TupleLiteral(Vec<Node>),
    ListLiteral(Vec<Node>),
    DictLiteral(Vec<(Node, Node)>),
    StructLiteral { module: Box<Node>, fields: Vec<(Node, Node)> },
    NilLiteral,
    BoolLiteral(bool),
    StringLiteral(String),
    IntegerLiteral(i64),
    BinaryOp { op: BinOp, lhs: Box<Node>, rhs: Box<Node> },
    UnaryOp { op: UnaryOp, rhs: Box<Node> },
    Pipe { lhs: Box<Node>, rhs: Box<Node> },
}

/// The children of the fields of a struct definition: each name, then its default value if
/// it has one.
pub open spec fn field_def_children(fs: Seq<(Node, Option<Node>)>) -> Seq<Node>
    decreases fs.len(),
{
    if fs.len() == 0 {
        Seq::empty()
    } else {
        field_def_children(fs.drop_last()) + seq![fs.last().0] + match fs.last().1 {
            Some(d) => seq![d],
            None => Seq::empty(),
        }
    }
}

/// The children of key/value pairs: each key, then its value.
pub open spec fn pair_children(ps: Seq<(Node, Node)>) -> Seq<Node> {
    Seq::new(
        2 * ps.len(),
        |i: int|
            if i % 2 == 0 {
                ps[i / 2].0
            } else {
                ps[i / 2].1
            },
    )
}

/// The children of a node, in order.
pub open spec fn children(k: NodeKind) -> Seq<Node> {
    match k {
        NodeKind::SourceFile(nodes) => nodes@,
        NodeKind::Module(_) => Seq::empty(),
        NodeKind::Import(_) => Seq::empty(),
        NodeKind::StructDef { fields } => field_def_children(fields@),
        NodeKind::Body(nodes) => nodes@,
        NodeKind::Builtin { identifier } => seq![*identifier],
        NodeKind::Let { pattern, expr } => seq![*pattern, *expr],
        NodeKind::Var { pattern, expr } => seq![*pattern, *expr],
        NodeKind::Assignment { pattern, expr } => seq![*pattern, *expr],
        NodeKind::FieldAssignment { variable_ref, path, expr } => seq![*variable_ref] + path@
            + seq![*expr],
        NodeKind::FieldAssignmentPathSubscript { key } => seq![*key],
        NodeKind::FieldAssignmentPathField { key } => seq![*key],
        NodeKind::If { condition, body, else_branch } => seq![*condition, *body] + match else_branch {
            Some(e) => seq![*e],
            None => Seq::empty(),
        },
        NodeKind::For { pattern, enumerable, body } => seq![*pattern, *enumerable, *body],
        NodeKind::Subscript { object, key } => seq![*object, *key],
        NodeKind::FieldAccess { object, key } => seq![*object, *key],
        NodeKind::FunctionLiteral { arg_names, body } => arg_names@ + seq![*body],
        NodeKind::FunctionCall { function, args } => seq![*function] + args@,
        NodeKind::VariableRef { identifier } => seq![*identifier],
        NodeKind::PatternIdentifier { identifier } => seq![*identifier],
        NodeKind::PatternTuple { elements } => elements@,
        NodeKind::Identifier(_) => Seq::empty(),
        NodeKind::TupleLiteral(items) => items@,
        NodeKind::ListLiteral(items) => items@,
        NodeKind::DictLiteral(entries) => pair_children(entries@),
        NodeKind::StructLiteral { module, fields } => seq![*module] + pair_children(fields@),
        NodeKind::NilLiteral => Seq::empty(),
        NodeKind::BoolLiteral(_) => Seq::empty(),
        NodeKind::StringLiteral(_) => Seq::empty(),
        NodeKind::IntegerLiteral(_) => Seq::empty(),
        NodeKind::BinaryOp { lhs, rhs, .. } => seq![*lhs, *rhs],
        NodeKind::UnaryOp { rhs, .. } => seq![*rhs],
        NodeKind::Pipe { lhs, rhs } => seq![*lhs, *rhs],
    }
}

/// Each child of a struct definition's fields is the name or the default value of one field.
proof fn lemma_field_def_child(fs: Seq<(Node, Option<Node>)>, i: int)
    requires
        0 <= i < field_def_children(fs).len(),
    ensures
        exists|j: int|
            0 <= j < fs.len() && (fs[j].0 == field_def_children(fs)[i] || fs[j].1 == Some(
                field_def_children(fs)[i],
            )),
    decreases fs.len(),
{
    let t = fs.drop_last();
    let a = field_def_children(t);
    let last = fs.len() - 1;
    if i < a.len() {
        lemma_field_def_child(t, i);
        let j = choose|j: int|
            0 <= j < t.len() && (t[j].0 == a[i] || t[j].1 == Some(a[i]));
        assert(fs[j] == t[j]);
        assert(field_def_children(fs)[i] == a[i]);
    } else if i == a.len() {
        assert(field_def_children(fs)[i] == fs[last].0);
    } else {
        assert(field_def_children(fs)[i] == fs[last].1->Some_0);
    }
}

/// Every child of a node is smaller than the node, so recursion over children terminates.
pub proof fn lemma_child_decreases(n: Node, i: int)
    requires
        0 <= i < children(n.kind).len(),
    ensures
        decreases_to!(n => children(n.kind)[i]),
{
    broadcast use vstd::std_specs::vec::axiom_vec_decreases_to_view;

    let c = children(n.kind)[i];
    match n.kind {
        NodeKind::SourceFile(nodes) => {
            assert(decreases_to!(n => nodes@[i]));
        },
        NodeKind::Body(nodes) => {
            assert(decreases_to!(n => nodes@[i]));
        },
        NodeKind::StructDef { fields } => {
            lemma_field_def_child(fields@, i);
            let j = choose|j: int|
                0 <= j < fields@.len() && (fields@[j].0 == c || fields@[j].1 == Some(c));
            if fields@[j].0 == c {
                assert(decreases_to!(n => fields@[j].0));
            } else {
                assert(decreases_to!(n => fields@[j].1->Some_0));
            }
        },
        NodeKind::FieldAssignment { variable_ref, path, expr } => {
            if i == 0 {
            } else if i <= path@.len() {
                assert(c == path@[i - 1]);
                assert(decreases_to!(n => path@[i - 1]));
            } else {
                assert(c == *expr);
            }
        },
        NodeKind::If { condition, body, else_branch } => {
            if i == 2 {
                assert(decreases_to!(n => else_branch->Some_0));
            }
        },
        NodeKind::FunctionLiteral { arg_names, body } => {
            if i < arg_names@.len() {
                assert(c == arg_names@[i]);
                assert(decreases_to!(n => arg_names@[i]));
            }
        },
        NodeKind::FunctionCall { function, args } => {
            if i > 0 {
                assert(c == args@[i - 1]);
                assert(decreases_to!(n => args@[i - 1]));
            }
        },
        NodeKind::PatternTuple { elements } => {
            assert(decreases_to!(n => elements@[i]));
        },
        NodeKind::TupleLiteral(items) => {
            assert(decreases_to!(n => items@[i]));
        },
        NodeKind::ListLiteral(items) => {
            assert(decreases_to!(n => items@[i]));
        },
        NodeKind::DictLiteral(entries) => {
            if i % 2 == 0 {
                assert(decreases_to!(n => entries@[i / 2].0));
            } else {
                assert(decreases_to!(n => entries@[i / 2].1));
            }
        },
        NodeKind::StructLiteral { module, fields } => {
            if i > 0 {
                let k = i - 1;
                assert(c == pair_children(fields@)[k]);
                if k % 2 == 0 {
                    assert(decreases_to!(n => fields@[k / 2].0));
                } else {
                    assert(decreases_to!(n => fields@[k / 2].1));
                }
            }
        },
        _ => {},
    }
}

/// Every node of the tree has at most `usize::MAX` children, so that they can be counted.
pub open spec fn child_counts_fit(n: Node) -> bool
    decreases n, 1nat, 0nat,
{
    children(n.kind).len() <= usize::MAX && children_counts_fit(n, children(n.kind).len())
}

/// The subtrees of the first `k` children of `n` have their child counts fit.
pub open spec fn children_counts_fit(n: Node, k: nat) -> bool
    decreases n, 0nat, k,
{
    if k == 0 || k > children(n.kind).len() {
        true
    } else {
        proof {
            lemma_child_decreases(n, k - 1);
        }
        children_counts_fit(n, (k - 1) as nat) && child_counts_fit(children(n.kind)[k - 1])
    }
}

/// The children of a node whose child counts fit have theirs fit too.
pub proof fn lemma_children_fit(n: Node, k: nat, i: int)
    requires
        k <= children(n.kind).len(),
        children_counts_fit(n, k),
        0 <= i < k,
    ensures
        child_counts_fit(children(n.kind)[i]),
    decreases k,
{
    if i < k - 1 {
        lemma_children_fit(n, (k - 1) as nat, i);
    }
}

/// The nodes of the tree under `n` in pre-order: `n`, then the subtree of each child in order.
pub open spec fn preorder(n: Node) -> Seq<Node>
    decreases n, 1nat, 0nat,
{
    seq![n] + preorder_children(n, children(n.kind).len())
}

/// The pre-order of the subtrees of the first `k` children of `n`, one after the other.
pub open spec fn preorder_children(n: Node, k: nat) -> Seq<Node>
    decreases n, 0nat, k,
{
    if k == 0 || k > children(n.kind).len() {
        Seq::empty()
    } else {
        proof {
            lemma_child_decreases(n, k - 1);
        }
        preorder_children(n, (k - 1) as nat) + preorder(children(n.kind)[k - 1])
    }
}

/// The references in `s`, dereferenced.
pub open spec fn derefs(s: Seq<&Node>) -> Seq<Node> {
    Seq::new(s.len(), |i: int| *s[i])
}

/// The position of the first node in `s` with the given id.
pub open spec fn first_with_id(s: Seq<Node>, module: Seq<char>, local_id: u32) -> Option<int> {
    if exists|i: int|
        0 <= i < s.len() && s[i].id.module.0@ == module && s[i].id.local_id == local_id {
        Some(
            choose|i: int|
                0 <= i < s.len() && s[i].id.module.0@ == module && s[i].id.local_id == local_id
                    && forall|j: int|
                    0 <= j < i ==> !(s[j].id.module.0@ == module && s[j].id.local_id
                        == local_id),
        )
    } else {
        None
    }
}

/// The children of a prefix of the fields are a prefix of the children of all fields.
proof fn lemma_field_def_children_prefix(fs: Seq<(Node, Option<Node>)>, k: int)
    requires
        0 <= k <= fs.len(),
    ensures
        field_def_children(fs.take(k)).len() <= field_def_children(fs).len(),
        field_def_children(fs).take(field_def_children(fs.take(k)).len() as int)
            == field_def_children(fs.take(k)),
    decreases fs.len(),
{
    if k == fs.len() {
        assert(fs.take(k) =~= fs);
        assert(field_def_children(fs).take(field_def_children(fs).len() as int) =~= field_def_children(fs));
    } else {
        let t = fs.drop_last();
        assert(t.take(k) =~= fs.take(k));
        lemma_field_def_children_prefix(t, k);
        let a = field_def_children(t);
        let c = field_def_children(fs.take(k));
        assert(field_def_children(fs).take(c.len() as int) =~= a.take(c.len() as int));
    }
}

/// The children of `k + 1` fields are those of the first `k`, the name of field `k`, and its
/// default value if it has one.
proof fn lemma_field_def_children_step(fs: Seq<(Node, Option<Node>)>, k: int)
    requires
        0 <= k < fs.len(),
    ensures
        field_def_children(fs.take(k + 1)) == field_def_children(fs.take(k)) + seq![fs[k].0]
            + match fs[k].1 {
            Some(d) => seq![d],
            None => Seq::<Node>::empty(),
        },
{
    assert(fs.take(k + 1).drop_last() =~= fs.take(k));
    assert(fs.take(k + 1).last() == fs[k]);
}

/// The value of a node made only of literals, if it is one: nil, booleans, strings,
/// integers, and lists, tuples and dictionaries of such nodes.
pub open spec fn constant_value(n: Node) -> Option<Val>
    decreases n,
{
    match n.kind {
        NodeKind::ListLiteral(es) => match constant_values(es@) {
            Some(vs) => Some(Val::List(vs)),
            None => None,
        },
        NodeKind::TupleLiteral(es) => match constant_values(es@) {
            Some(vs) => Some(Val::Tuple(vs)),
            None => None,
        },
        NodeKind::DictLiteral(kvs) => match constant_entries(kvs@) {
            Some(es) => Some(Val::Dict(dict_of(es))),
            None => None,
        },
        NodeKind::NilLiteral => Some(Val::Nil),
        NodeKind::BoolLiteral(b) => Some(Val::Bool(b)),
        NodeKind::StringLiteral(t) => Some(Val::Str(t@)),
        NodeKind::IntegerLiteral(i) => Some(Val::Int(i)),
        _ => None,
    }
}

/// `a` and `b` are the same kind of node and agree on everything but their children: the
/// number of each list of children (and which struct fields have a default value), and all
/// data that is not a child.
pub open spec fn same_frame(a: NodeKind, b: NodeKind) -> bool {
    match (a, b) {
        (NodeKind::SourceFile(x), NodeKind::SourceFile(y)) => x@.len() == y@.len(),
        (NodeKind::Module(x), NodeKind::Module(y)) => x == y,
        (NodeKind::Import(x), NodeKind::Import(y)) => x == y,
        (NodeKind::StructDef { fields: x }, NodeKind::StructDef { fields: y }) => x@.len()
            == y@.len() && forall|i: int|
            0 <= i < x@.len() ==> (#[trigger] x@[i]).1.is_some() == y@[i].1.is_some(),
        (NodeKind::Body(x), NodeKind::Body(y)) => x@.len() == y@.len(),
        (NodeKind::Builtin { .. }, NodeKind::Builtin { .. }) => true,
        (NodeKind::Let { .. }, NodeKind::Let { .. }) => true,
        (NodeKind::Var { .. }, NodeKind::Var { .. }) => true,
        (NodeKind::Assignment { .. }, NodeKind::Assignment { .. }) => true,
        (
            NodeKind::FieldAssignment { path: x, .. },
            NodeKind::FieldAssignment { path: y, .. },
        ) => x@.len() == y@.len(),
        (NodeKind::FieldAssignmentPathSubscript { .. }, NodeKind::FieldAssignmentPathSubscript {
            ..
        }) => true,
        (NodeKind::FieldAssignmentPathField { .. }, NodeKind::FieldAssignmentPathField {
            ..
        }) => true,
        (NodeKind::If { else_branch: x, .. }, NodeKind::If { else_branch: y, .. }) => x.is_some()
            == y.is_some(),
        (NodeKind::For { .. }, NodeKind::For { .. }) => true,
        (NodeKind::Subscript { .. }, NodeKind::Subscript { .. }) => true,
        (NodeKind::FieldAccess { .. }, NodeKind::FieldAccess { .. }) => true,
        (
            NodeKind::FunctionLiteral { arg_names: x, .. },
            NodeKind::FunctionLiteral { arg_names: y, .. },
        ) => x@.len() == y@.len(),
        (NodeKind::FunctionCall { args: x, .. }, NodeKind::FunctionCall { args: y, .. }) => x@.len()
            == y@.len(),
        (NodeKind::VariableRef { .. }, NodeKind::VariableRef { .. }) => true,
        (NodeKind::PatternIdentifier { .. }, NodeKind::PatternIdentifier { .. }) => true,
        (NodeKind::PatternTuple { elements: x }, NodeKind::PatternTuple { elements: y }) => x@.len()
            == y@.len(),
        (NodeKind::Identifier(x), NodeKind::Identifier(y)) => x == y,
        (NodeKind::TupleLiteral(x), NodeKind::TupleLiteral(y)) => x@.len() == y@.len(),
        (NodeKind::ListLiteral(x), NodeKind::ListLiteral(y)) => x@.len() == y@.len(),
        (NodeKind::DictLiteral(x), NodeKind::DictLiteral(y)) => x@.len() == y@.len(),
        (NodeKind::StructLiteral { fields: x, .. }, NodeKind::StructLiteral { fields: y, .. }) => x@.len()
            == y@.len(),
        (NodeKind::NilLiteral, NodeKind::NilLiteral) => true,
        (NodeKind::BoolLiteral(x), NodeKind::BoolLiteral(y)) => x == y,
        (NodeKind::StringLiteral(x), NodeKind::StringLiteral(y)) => x == y,
        (NodeKind::IntegerLiteral(x), NodeKind::IntegerLiteral(y)) => x == y,
        (NodeKind::BinaryOp { op: x, .. }, NodeKind::BinaryOp { op: y, .. }) => x == y,
        (NodeKind::UnaryOp { op: x, .. }, NodeKind::UnaryOp { op: y, .. }) => x == y,
        (NodeKind::Pipe { .. }, NodeKind::Pipe { .. }) => true,
        _ => false,
    }
}

/// Replacing a field's name or default value (keeping whether it has one) replaces those
/// children of the fields and no other: the field's name is child `p`, its default value child
/// `p + 1`, where `p` counts the children of the fields before it.
proof fn lemma_field_def_children_update(
    fs: Seq<(Node, Option<Node>)>,
    k: int,
    x: (Node, Option<Node>),
)
    requires
        0 <= k < fs.len(),
        x.1.is_some() == fs[k].1.is_some(),
    ensures
        ({
            let p = field_def_children(fs.take(k)).len() as int;
            let old_c = field_def_children(fs);
            let new_c = field_def_children(fs.update(k, x));
            &&& new_c.len() == old_c.len()
            &&& p + 1 <= old_c.len()
            &&& old_c[p] == fs[k].0
            &&& new_c[p] == x.0
            &&& fs[k].1.is_some() ==> p + 2 <= old_c.len() && old_c[p + 1] == fs[k].1->Some_0
                && new_c[p + 1] == x.1->Some_0
            &&& forall|i: int|
                0 <= i < old_c.len() && i != p && !(fs[k].1.is_some() && i == p + 1)
                    ==> #[trigger] new_c[i] == old_c[i]
        }),
    decreases fs.len(),
{
    let t = fs.drop_last();
    let u = fs.update(k, x);
    if k == fs.len() - 1 {
        assert(u.drop_last() =~= t);
        assert(fs.take(k) =~= t);
    } else {
        lemma_field_def_children_update(t, k, x);
        assert(u.drop_last() =~= t.update(k, x));
        assert(t.take(k) =~= fs.take(k));
        assert(u.last() == fs.last());
        lemma_field_def_children_prefix(t, k);
    }
}

/// Where child `index` of a struct definition's fields stands: the field, and whether the
/// child is the field's default value (else its name).
fn field_def_position(fields: &Vec<(Node, Option<Node>)>, index: usize) -> (r: Option<(usize, bool)>)
    ensures
        match r {
            Some((k, d)) => k < fields@.len() && index < field_def_children(fields@).len()
                && index == field_def_children(fields@.take(k as int)).len() + (if d {
                1int
            } else {
                0
            }) && (d ==> fields@[k as int].1.is_some()),
            None => index >= field_def_children(fields@).len(),
        },
{
    let mut remaining = index;
    let mut k: usize = 0;
    assert(fields@.take(0) =~= Seq::<(Node, Option<Node>)>::empty());
    while k < fields.len()
        invariant
            k <= fields@.len(),
            remaining + field_def_children(fields@.take(k as int)).len() == index,
        decreases fields.len() - k,
    {
        proof {
            lemma_field_def_children_step(fields@, k as int);
            lemma_field_def_children_prefix(fields@, k + 1);
        }
        if remaining == 0 {
            return Some((k, false));
        }
        remaining = remaining - 1;
        if fields[k].1.is_some() {
            if remaining == 0 {
                return Some((k, true));
            }
            remaining = remaining - 1;
        }
        k = k + 1;
    }
    assert(fields@.take(fields@.len() as int) =~= fields@);
    None
}

/// Appends the nodes of the tree under `n` in pre-order.
fn collect_preorder<'a>(n: &'a Node, out: &mut Vec<&'a Node>)
    requires
        child_counts_fit(*n),
    ensures
        derefs(final(out)@) == derefs(old(out)@) + preorder(*n),
    decreases n,
{
    out.push(n);
    assert(derefs(out@) =~= derefs(old(out)@) + seq![*n]);
    let ghost start = derefs(out@);
    let ghost k = children(n.kind).len();
    let mut i: usize = 0;
    loop
        invariant
            i <= k,
            k == children(n.kind).len(),
            child_counts_fit(*n),
            derefs(out@) == start + preorder_children(*n, i as nat),
        ensures
            i == k,
            derefs(out@) == start + preorder_children(*n, i as nat),
        decreases k - i,
    {
        match n.child_at_index(i) {
            Some(child) => {
                proof {
                    lemma_child_decreases(*n, i as int);
                    lemma_children_fit(*n, k, i as int);
                }
                collect_preorder(child, out);
                assert(derefs(out@) =~= start + preorder_children(*n, (i + 1) as nat));
                i = i + 1;
            },
            None => {
                break ;
            },
        }
    }
    assert(derefs(out@) =~= derefs(old(out)@) + preorder(*n));
}

/// The values of the nodes, if each is made only of literals.
pub open spec fn constant_values(es: Seq<Node>) -> Option<Seq<Val>>
    decreases es,
{
    if es.len() == 0 {
        Some(Seq::empty())
    } else {
        match (constant_values(es.drop_last()), constant_value(es.last())) {
            (Some(vs), Some(v)) => Some(vs.push(v)),
            _ => None,
        }
    }
}

/// The `(key, value)` entries of the pairs, if each key and value is made only of literals.
pub open spec fn constant_entries(ps: Seq<(Node, Node)>) -> Option<Seq<Val>>
    decreases ps,
{
    if ps.len() == 0 {
        Some(Seq::empty())
    } else {
        match (
            constant_entries(ps.drop_last()),
            constant_value(ps.last().0),
            constant_value(ps.last().1),
        ) {
            (Some(es), Some(k), Some(v)) => Some(es.push(entry(k, v))),
            _ => None,
        }
    }
}

impl Node {
    /// Child `index` of the node, in the order `children` gives.
    pub fn child_at_index(&self, index: usize) -> (r: Option<&Node>)
        ensures
            match r {
                Some(n) => index < children(self.kind).len() && *n == children(self.kind)[index as int],
                None => index >= children(self.kind).len(),
            },
    {
        match &self.kind {
            NodeKind::SourceFile(nodes) => if index < nodes.len() {
                Some(&nodes[index])
            } else {
                None
            },
            NodeKind::Module(_) => None,
            NodeKind::Import(_) => None,
            NodeKind::StructDef { fields } => {
                let ghost all = field_def_children(fields@);
                let mut remaining = index;
                let mut k: usize = 0;
                assert(fields@.take(0) =~= Seq::<(Node, Option<Node>)>::empty());
                while k < fields.len()
                    invariant
                        k <= fields@.len(),
                        all == field_def_children(fields@),
                        children(self.kind) == all,
                        remaining + field_def_children(fields@.take(k as int)).len() == index,
                    decreases fields.len() - k,
                {
                    proof {
                        lemma_field_def_children_step(fields@, k as int);
                        lemma_field_def_children_prefix(fields@, k + 1);
                    }
                    let ghost before = field_def_children(fields@.take(k as int));
                    let ghost after = field_def_children(fields@.take(k + 1));
                    if remaining == 0 {
                        assert(after[before.len() as int] == fields@[k as int].0);
                        assert(all.take(after.len() as int)[before.len() as int] == all[index as int]);
                        return Some(&fields[k].0);
                    }
                    remaining = remaining - 1;
                    match &fields[k].1 {
                        Some(d) => {
                            if remaining == 0 {
                                assert(after[before.len() as int + 1] == fields@[k as int].1->0);
                                assert(all.take(after.len() as int)[before.len() as int + 1]
                                    == all[index as int]);
                                return Some(d);
                            }
                            remaining = remaining - 1;
                        },
                        None => {},
                    }
                    k = k + 1;
                }
                assert(fields@.take(fields@.len() as int) =~= fields@);
                None
            },
            NodeKind::Body(nodes) => if index < nodes.len() {
                Some(&nodes[index])
            } else {
                None
            },
            NodeKind::Builtin { identifier } => if index == 0 {
                Some(&**identifier)
            } else {
                None
            },
            NodeKind::Let { pattern, expr } | NodeKind::Var { pattern, expr }
            | NodeKind::Assignment { pattern, expr } => if index == 0 {
                Some(&**pattern)
            } else if index == 1 {
                Some(&**expr)
            } else {
                None
            },
            NodeKind::FieldAssignment { variable_ref, path, expr } => {
                if index == 0 {
                    Some(&**variable_ref)
                } else if index - 1 < path.len() {
                    Some(&path[index - 1])
                } else if index - 1 == path.len() {
                    Some(&**expr)
                } else {
                    None
                }
            },
            NodeKind::FieldAssignmentPathSubscript { key }
            | NodeKind::FieldAssignmentPathField { key } => if index == 0 {
                Some(&**key)
            } else {
                None
            },
            NodeKind::If { condition, body, else_branch } => if index == 0 {
                Some(&**condition)
            } else if index == 1 {
                Some(&**body)
            } else if index == 2 {
                match else_branch {
                    Some(e) => Some(&**e),
                    None => None,
                }
            } else {
                None
            },
            NodeKind::For { pattern, enumerable, body } => if index == 0 {
                Some(&**pattern)
            } else if index == 1 {
                Some(&**enumerable)
            } else if index == 2 {
                Some(&**body)
            } else {
                None
            },
            NodeKind::Subscript { object, key } | NodeKind::FieldAccess { object, key } => if index
                == 0 {
                Some(&**object)
            } else if index == 1 {
                Some(&**key)
            } else {
                None
            },
            NodeKind::FunctionLiteral { arg_names, body } => if index < arg_names.len() {
                Some(&arg_names[index])
            } else if index == arg_names.len() {
                Some(&**body)
            } else {
                None
            },
            NodeKind::FunctionCall { function, args } => if index == 0 {
                Some(&**function)
            } else if index - 1 < args.len() {
                Some(&args[index - 1])
            } else {
                None
            },
            NodeKind::VariableRef { identifier } | NodeKind::PatternIdentifier { identifier } =>
                if index == 0 {
                Some(&**identifier)
            } else {
                None
            },
            NodeKind::PatternTuple { elements } => if index < elements.len() {
                Some(&elements[index])
            } else {
                None
            },
            NodeKind::Identifier(_) => None,
            NodeKind::TupleLiteral(items) | NodeKind::ListLiteral(items) => if index < items.len() {
                Some(&items[index])
            } else {
                None
            },
            NodeKind::DictLiteral(entries) => {
                let vec_index = index / 2;
                if vec_index < entries.len() {
                    if index % 2 == 0 {
                        Some(&entries[vec_index].0)
                    } else {
                        Some(&entries[vec_index].1)
                    }
                } else {
                    None
                }
            },
            NodeKind::StructLiteral { module, fields } => {
                if index == 0 {
                    Some(&**module)
                } else {
                    let vec_index = (index - 1) / 2;
                    if vec_index < fields.len() {
                        if (index - 1) % 2 == 0 {
                            Some(&fields[vec_index].0)
                        } else {
                            Some(&fields[vec_index].1)
                        }
                    } else {
                        None
                    }
                }
            },
            NodeKind::NilLiteral => None,
            NodeKind::BoolLiteral(_) => None,
            NodeKind::StringLiteral(_) => None,
            NodeKind::IntegerLiteral(_) => None,
            NodeKind::BinaryOp { op: _, lhs, rhs } | NodeKind::Pipe { lhs, rhs } => if index == 0 {
                Some(&**lhs)
            } else if index == 1 {
                Some(&**rhs)
            } else {
                None
            },
            NodeKind::UnaryOp { op: _, rhs } => if index == 0 {
                Some(&**rhs)
            } else {
                None
            },
        }
    }

    /// Child `index` of the node, in the order `children` gives, to be changed in place: the
    /// node then has that child replaced by what it became, and is otherwise unchanged.
    pub fn child_at_index_mut(&mut self, index: usize) -> (r: Option<&mut Node>)
        ensures
            r is Some ==> index < children(old(self).kind).len()
                && *r->Some_0 == children(old(self).kind)[index as int],
            r is Some ==> children(final(self).kind) == children(old(self).kind).update(
                index as int,
                *final(r->Some_0),
            ),
            r is Some ==> same_frame(old(self).kind, final(self).kind),
            r is Some ==> final(self).id == old(self).id && final(self).source == old(self).source,
            r is None ==> index >= children(old(self).kind).len() && *final(self) == *old(self),
    {
        proof {
            assert(same_frame(self.kind, self.kind));
        }
        match &mut self.kind {
            NodeKind::SourceFile(nodes) => if index < nodes.len() {
                Some(&mut nodes[index])
            } else {
                None
            },
            NodeKind::Body(nodes) => if index < nodes.len() {
                Some(&mut nodes[index])
            } else {
                None
            },
            NodeKind::PatternTuple { elements } => if index < elements.len() {
                Some(&mut elements[index])
            } else {
                None
            },
            NodeKind::TupleLiteral(items) => if index < items.len() {
                Some(&mut items[index])
            } else {
                None
            },
            NodeKind::ListLiteral(items) => if index < items.len() {
                Some(&mut items[index])
            } else {
                None
            },
            NodeKind::Module(_) => None,
            NodeKind::Import(_) => None,
            NodeKind::Identifier(_) => None,
            NodeKind::NilLiteral => None,
            NodeKind::BoolLiteral(_) => None,
            NodeKind::StringLiteral(_) => None,
            NodeKind::IntegerLiteral(_) => None,
            NodeKind::StructDef { fields } => {
                let ghost before = fields@;
                match field_def_position(fields, index) {
                    Some((k, false)) => {
                        let r = &mut fields[k].0;
                        proof {
                            lemma_field_def_children_update(
                                before,
                                k as int,
                                (*final(r), before[k as int].1),
                            );
                        }
                        Some(r)
                    },
                    Some((k, true)) => match &mut fields[k].1 {
                        Some(d) => {
                            proof {
                                lemma_field_def_children_update(
                                    before,
                                    k as int,
                                    (before[k as int].0, Some(*final(d))),
                                );
                            }
                            Some(d)
                        },
                        None => None,
                    },
                    None => None,
                }
            },
            NodeKind::Builtin { identifier } => if index == 0 {
                Some(&mut **identifier)
            } else {
                None
            },
            NodeKind::FieldAssignmentPathSubscript { key } => if index == 0 {
                Some(&mut **key)
            } else {
                None
            },
            NodeKind::FieldAssignmentPathField { key } => if index == 0 {
                Some(&mut **key)
            } else {
                None
            },
            NodeKind::VariableRef { identifier } => if index == 0 {
                Some(&mut **identifier)
            } else {
                None
            },
            NodeKind::PatternIdentifier { identifier } => if index == 0 {
                Some(&mut **identifier)
            } else {
                None
            },
            NodeKind::UnaryOp { op: _, rhs } => if index == 0 {
                Some(&mut **rhs)
            } else {
                None
            },
            NodeKind::Let { pattern, expr } => if index == 0 {
                Some(&mut **pattern)
            } else if index == 1 {
                Some(&mut **expr)
            } else {
                None
            },
            NodeKind::Var { pattern, expr } => if index == 0 {
                Some(&mut **pattern)
            } else if index == 1 {
                Some(&mut **expr)
            } else {
                None
            },
            NodeKind::Assignment { pattern, expr } => if index == 0 {
                Some(&mut **pattern)
            } else if index == 1 {
                Some(&mut **expr)
            } else {
                None
            },
            NodeKind::Subscript { object, key } => if index == 0 {
                Some(&mut **object)
            } else if index == 1 {
                Some(&mut **key)
            } else {
                None
            },
            NodeKind::FieldAccess { object, key } => if index == 0 {
                Some(&mut **object)
            } else if index == 1 {
                Some(&mut **key)
            } else {
                None
            },
            NodeKind::BinaryOp { op: _, lhs, rhs } => if index == 0 {
                Some(&mut **lhs)
            } else if index == 1 {
                Some(&mut **rhs)
            } else {
                None
            },
            NodeKind::Pipe { lhs, rhs } => if index == 0 {
                Some(&mut **lhs)
            } else if index == 1 {
                Some(&mut **rhs)
            } else {
                None
            },
            NodeKind::FieldAssignment { variable_ref, path, expr } => {
                if index == 0 {
                    Some(&mut **variable_ref)
                } else if index - 1 < path.len() {
                    Some(&mut path[index - 1])
                } else if index - 1 == path.len() {
                    Some(&mut **expr)
                } else {
                    None
                }
            },
            NodeKind::If { condition, body, else_branch } => if index == 0 {
                Some(&mut **condition)
            } else if index == 1 {
                Some(&mut **body)
            } else if index == 2 {
                match else_branch {
                    Some(e) => Some(&mut **e),
                    None => None,
                }
            } else {
                None
            },
            NodeKind::For { pattern, enumerable, body } => if index == 0 {
                Some(&mut **pattern)
            } else if index == 1 {
                Some(&mut **enumerable)
            } else if index == 2 {
                Some(&mut **body)
            } else {
                None
            },
            NodeKind::FunctionLiteral { arg_names, body } => if index < arg_names.len() {
                Some(&mut arg_names[index])
            } else if index == arg_names.len() {
                Some(&mut **body)
            } else {
                None
            },
            NodeKind::FunctionCall { function, args } => if index == 0 {
                Some(&mut **function)
            } else if index - 1 < args.len() {
                Some(&mut args[index - 1])
            } else {
                None
            },
            NodeKind::DictLiteral(entries) => {
                let vec_index = index / 2;
                if vec_index < entries.len() {
                    if index % 2 == 0 {
                        Some(&mut entries[vec_index].0)
                    } else {
                        Some(&mut entries[vec_index].1)
                    }
                } else {
                    None
                }
            },
            NodeKind::StructLiteral { module, fields } => {
                if index == 0 {
                    Some(&mut **module)
                } else {
                    let vec_index = (index - 1) / 2;
                    if vec_index < fields.len() {
                        if (index - 1) % 2 == 0 {
                            Some(&mut fields[vec_index].0)
                        } else {
                            Some(&mut fields[vec_index].1)
                        }
                    } else {
                        None
                    }
                }
            },
        }
    }

    /// The value of the node, if it is made only of literals.
    pub fn compile_time_value(&self) -> (r: Option<Value>)
        ensures
            match r {
                Some(v) => constant_value(*self) == Some(v@),
                None => constant_value(*self) is None,
            },
        decreases self,
    {
        proof {
            broadcast use vstd::std_specs::vec::axiom_vec_decreases_to_view;
        }
        match &self.kind {
            NodeKind::ListLiteral(elements) => match constant_values_of(elements) {
                Some(vs) => Some(Value::List(vs)),
                None => None,
            },
            NodeKind::TupleLiteral(elements) => match constant_values_of(elements) {
                Some(vs) => Some(Value::Tuple(vs)),
                None => None,
            },
            NodeKind::DictLiteral(key_values) => match constant_entries_of(key_values) {
                Some(pairs) => Some(Value::Dict(dict_from_pairs(pairs))),
                None => None,
            },
            NodeKind::NilLiteral => Some(Value::Nil),
            NodeKind::BoolLiteral(v) => Some(Value::Bool(*v)),
            NodeKind::StringLiteral(contents) => Some(Value::String(contents.clone())),
            NodeKind::IntegerLiteral(i) => Some(Value::Integer(*i)),
            _ => None,
        }
    }

    /// The name of an identifier node.
    pub fn unwrap_identifier(&self) -> (r: &str)
        requires
            self.kind is Identifier,
        ensures
            r@ == self.kind->Identifier_0@,
    {
        match &self.kind {
            NodeKind::Identifier(name) => name.as_str(),
            _ => "",
        }
    }

    /// The nodes of the tree under this one, in pre-order.
    pub fn iter(&self) -> (r: Vec<&Node>)
        requires
            child_counts_fit(*self),
        ensures
            derefs(r@) == preorder(*self),
    {
        let mut out: Vec<&Node> = Vec::new();
        collect_preorder(self, &mut out);
        assert(derefs(out@) =~= preorder(*self));
        out
    }

    /// The node of the tree under this one with the given id, the first in pre-order; none
    /// when the id belongs to another module.
    pub fn find_by_id(&self, id: &NodeId) -> (r: Option<&Node>)
        requires
            child_counts_fit(*self),
        ensures
            self.id.module.0@ != id.module.0@ ==> r is None,
            self.id.module.0@ == id.module.0@ ==> match first_with_id(
                preorder(*self),
                id.module.0@,
                id.local_id,
            ) {
                Some(i) => r == Some(&preorder(*self)[i]),
                None => r is None,
            },
    {
        if self.id.module.0 != id.module.0 {
            return None;
        }
        let nodes = self.iter();
        let ghost s = preorder(*self);
        let mut i: usize = 0;
        while i < nodes.len()
            invariant
                i <= nodes@.len(),
                self.id.module.0@ == id.module.0@,
                s == preorder(*self),
                derefs(nodes@) == s,
                forall|j: int|
                    0 <= j < i ==> !(s[j].id.module.0@ == id.module.0@ && s[j].id.local_id
                        == id.local_id),
            decreases nodes.len() - i,
        {
            let n = nodes[i];
            assert(*n == s[i as int]);
            if n.id.local_id == id.local_id && n.id.module.0 == id.module.0 {
                proof {
                    let k = choose|k: int|
                        0 <= k < s.len() && s[k].id.module.0@ == id.module.0@ && s[k].id.local_id
                            == id.local_id && forall|j: int|
                            0 <= j < k ==> !(s[j].id.module.0@ == id.module.0@
                                && s[j].id.local_id == id.local_id);
                    assert(k == i) by {
                        if k < i {
                        } else if k > i {
                            assert(s[i as int].id.module.0@ == id.module.0@);
                        }
                    }
                }
                return Some(n);
            }
            i = i + 1;
        }
        None
    }

    pub fn is_function_literal(&self) -> (r: bool)
        ensures
            r == self.kind is FunctionLiteral,
    {
        matches!(self.kind, NodeKind::FunctionLiteral { .. })
    }
}

/// The values of the nodes, if each is made only of literals.
fn constant_values_of(elements: &Vec<Node>) -> (r: Option<Vec<Value>>)
    ensures
        match r {
            Some(vs) => constant_values(elements@) == Some(views(vs@)),
            None => constant_values(elements@) is None,
        },
    decreases elements@, 0nat,
{
    let mut res: Vec<Value> = Vec::new();
    let mut i: usize = 0;
    proof {
        lemma_views(res@);
        assert(elements@.take(0) =~= Seq::<Node>::empty());
    }
    while i < elements.len()
        invariant
            i <= elements@.len(),
            constant_values(elements@.take(i as int)) == Some(views(res@)),
        decreases elements.len() - i,
    {
        proof {
            assert(elements@.take(i + 1).drop_last() =~= elements@.take(i as int));
            assert(elements@.take(i + 1).last() == elements@[i as int]);
        }
        match elements[i].compile_time_value() {
            Some(v) => {
                proof {
                    crate::value::lemma_views_push(res@, v);
                }
                res.push(v);
            },
            None => {
                proof {
                    lemma_constant_values_none(elements@, i + 1);
                }
                return None;
            },
        }
        i = i + 1;
    }
    assert(elements@.take(elements@.len() as int) =~= elements@);
    Some(res)
}

/// The entries of the pairs, if each key and value is made only of literals.
fn constant_entries_of(pairs: &Vec<(Node, Node)>) -> (r: Option<Vec<(Value, Value)>>)
    ensures
        match r {
            Some(es) => constant_entries(pairs@) == Some(pair_views(es@)),
            None => constant_entries(pairs@) is None,
        },
    decreases pairs@, 0nat,
{
    let mut res: Vec<(Value, Value)> = Vec::new();
    let mut i: usize = 0;
    proof {
        lemma_pair_views(res@);
        assert(pair_views(res@) =~= Seq::<Val>::empty());
        assert(pairs@.take(0) =~= Seq::<(Node, Node)>::empty());
    }
    while i < pairs.len()
        invariant
            i <= pairs@.len(),
            constant_entries(pairs@.take(i as int)) == Some(pair_views(res@)),
        decreases pairs.len() - i,
    {
        proof {
            assert(pairs@.take(i + 1).drop_last() =~= pairs@.take(i as int));
            assert(pairs@.take(i + 1).last() == pairs@[i as int]);
        }
        let k = pairs[i].0.compile_time_value();
        let v = pairs[i].1.compile_time_value();
        match (k, v) {
            (Some(k), Some(v)) => {
                let ghost before = res@;
                res.push((k, v));
                proof {
                    assert(res@.drop_last() =~= before);
                }
            },
            _ => {
                proof {
                    lemma_constant_entries_none(pairs@, i + 1);
                }
                return None;
            },
        }
        i = i + 1;
    }
    assert(pairs@.take(pairs@.len() as int) =~= pairs@);
    Some(res)
}

/// Once a prefix of the nodes has a non-literal node, so do all of them.
proof fn lemma_constant_values_none(es: Seq<Node>, k: int)
    requires
        0 <= k <= es.len(),
        constant_values(es.take(k)) is None,
    ensures
        constant_values(es) is None,
    decreases es.len() - k,
{
    if k == es.len() {
        assert(es.take(k) =~= es);
    } else {
        assert(es.take(k + 1).drop_last() =~= es.take(k));
        lemma_constant_values_none(es, k + 1);
    }
}

/// Once a prefix of the pairs has a non-literal node, so do all of them.
proof fn lemma_constant_entries_none(ps: Seq<(Node, Node)>, k: int)
    requires
        0 <= k <= ps.len(),
        constant_entries(ps.take(k)) is None,
    ensures
        constant_entries(ps) is None,
    decreases ps.len() - k,
{
    if k == ps.len() {
        assert(ps.take(k) =~= ps);
    } else {
        assert(ps.take(k + 1).drop_last() =~= ps.take(k));
        lemma_constant_entries_none(ps, k + 1);
    }
}

/// The name of a binary operator, as `{:?}` shows it.
pub open spec fn bin_op_name(op: BinOp) -> Seq<char> {
    match op {
        BinOp::Add => "Add"@,
        BinOp::Sub => "Sub"@,
        BinOp::Mul => "Mul"@,
        BinOp::Div => "Div"@,
        BinOp::LogicalOr => "LogicalOr"@,
        BinOp::LogicalAnd => "LogicalAnd"@,
        BinOp::Eq => "Eq"@,
        BinOp::Neq => "Neq"@,
        BinOp::Gt => "Gt"@,
        BinOp::Gte => "Gte"@,
        BinOp::Lt => "Lt"@,
        BinOp::Lte => "Lte"@,
    }
}

/// The name of a unary operator, as `{:?}` shows it.
pub open spec fn unary_op_name(op: UnaryOp) -> Seq<char> {
    match op {
        UnaryOp::Neg => "Neg"@,
        UnaryOp::LogicalNeg => "LogicalNeg"@,
    }
}

/// The start of a node's line: the indentation, then the label and `: ` if there is a label.
pub open spec fn line_start(indent: Seq<char>, label: Seq<char>) -> Seq<char> {
    if label.len() > 0 {
        indent + label + ": "@
    } else {
        indent
    }
}

/// The tree text of a node: one line for the node (indented, labelled), then its children
/// one level deeper, each under its label.
pub open spec fn tree_text(n: Node, indent: Seq<char>, label: Seq<char>) -> Seq<char>
    decreases n,
{
    line_start(indent, label) + body_text(n.kind, indent + "  "@)
}

/// The node's own line (after its start), then its children at indentation `inner`.
pub open spec fn body_text(k: NodeKind, inner: Seq<char>) -> Seq<char>
    decreases k,
{
    match k {
        NodeKind::SourceFile(nodes) => "SourceFile:\n"@ + tree_texts(nodes@, inner, ""@),
        NodeKind::Module(name) => "Module: "@ + name@ + "\n"@,
        NodeKind::Import(ImportKind::Module { module_name }) => "Import: Module "@ + module_name@
            + "\n"@,
        NodeKind::Import(ImportKind::Field { module_name, field_name }) => "Import: Field "@
            + module_name@ + "."@ + field_name@ + "\n"@,
        NodeKind::Import(ImportKind::AllFields { module_name }) => "Import: AllFields "@
            + module_name@ + ".*\n"@,
        NodeKind::StructDef { fields } => "StructDef\n"@ + field_def_texts(fields@, inner),
        NodeKind::Body(nodes) => "Body:\n"@ + tree_texts(nodes@, inner, ""@),
        NodeKind::Builtin { identifier } => "Builtin:\n"@ + tree_text(
            *identifier,
            inner,
            "identifier"@,
        ),
        NodeKind::Let { pattern, expr } => "Let:\n"@ + tree_text(*pattern, inner, "pattern"@)
            + tree_text(*expr, inner, "value"@),
        NodeKind::Var { pattern, expr } => "Var:\n"@ + tree_text(*pattern, inner, "pattern"@)
            + tree_text(*expr, inner, "value"@),
        NodeKind::Assignment { pattern, expr } => "Assignment:\n"@ + tree_text(
            *pattern,
            inner,
            "pattern"@,
        ) + tree_text(*expr, inner, "value"@),
        NodeKind::FieldAssignment { variable_ref, path, expr } => "FieldAssignment:\n"@
            + tree_text(*variable_ref, inner, "variable_ref"@) + tree_texts(path@, inner, "path"@)
            + tree_text(*expr, inner, "value"@),
        NodeKind::FieldAssignmentPathSubscript { key } => "FieldAssignmentPathSubscript:\n"@
            + tree_text(*key, inner, "key"@),
        NodeKind::FieldAssignmentPathField { key } => "FieldAssignmentPathField:\n"@ + tree_text(
            *key,
            inner,
            "key"@,
        ),
        NodeKind::If { condition, body, else_branch } => "If:\n"@ + tree_text(
            *condition,
            inner,
            "cond"@,
        ) + tree_text(*body, inner, "body"@) + match else_branch {
            Some(e) => tree_text(*e, inner, "else"@),
            None => Seq::empty(),
        },
        NodeKind::For { pattern, enumerable, body } => "For:\n"@ + tree_text(
            *pattern,
            inner,
            "pattern"@,
        ) + tree_text(*enumerable, inner, "enumerable"@) + tree_text(*body, inner, "body"@),
        NodeKind::Subscript { object, key } => "Subscript:\n"@ + tree_text(
            *object,
            inner,
            "object"@,
        ) + tree_text(*key, inner, "key"@),
        NodeKind::FieldAccess { object, key } => "FieldAccess:\n"@ + tree_text(
            *object,
            inner,
            "object"@,
        ) + tree_text(*key, inner, "key"@),
        NodeKind::FunctionLiteral { arg_names, body } => "FunctionLiteral:\n"@ + tree_texts(
            arg_names@,
            inner,
            "arg_name"@,
        ) + tree_text(*body, inner, "body"@),
        NodeKind::FunctionCall { function, args } => "FunctionCall:\n"@ + tree_text(
            *function,
            inner,
            "function"@,
        ) + tree_texts(args@, inner, "arg"@),
        NodeKind::VariableRef { identifier } => "VariableRef:\n"@ + tree_text(
            *identifier,
            inner,
            "identifier"@,
        ),
        NodeKind::PatternIdentifier { identifier } => "PatternIdentifier:\n"@ + tree_text(
            *identifier,
            inner,
            "identifier"@,
        ),
        NodeKind::PatternTuple { elements } => "PatternTuple\n"@ + tree_texts(
            elements@,
            inner,
            "element"@,
        ),
        NodeKind::Identifier(name) => "Identifier("@ + name@ + ")\n"@,
        NodeKind::TupleLiteral(elements) => "TupleLiteral\n"@ + tree_texts(
            elements@,
            inner,
            "element"@,
        ),
        NodeKind::ListLiteral(elements) => "ListLiteral\n"@ + tree_texts(
            elements@,
            inner,
            "element"@,
        ),
        NodeKind::DictLiteral(pairs) => "DictLiteral\n"@ + pair_texts(
            pairs@,
            inner,
            "key"@,
            "value"@,
        ),
        NodeKind::StructLiteral { module, fields } => "StructLiteral\n"@ + tree_text(
            *module,
            inner,
            "module"@,
        ) + pair_texts(fields@, inner, "field"@, "value"@),
        NodeKind::NilLiteral => "NilLiteral(nil)\n"@,
        NodeKind::BoolLiteral(value) => "BoolLiteral("@ + (if value {
            "true"@
        } else {
            "false"@
        }) + ")\n"@,
        NodeKind::StringLiteral(string) => "StringLiteral(\""@ + string@ + "\")\n"@,
        NodeKind::IntegerLiteral(value) => "IntegerLiteral("@ + decimal(value as int) + ")\n"@,
        NodeKind::BinaryOp { op, lhs, rhs } => "BinaryOp("@ + bin_op_name(op) + "):\n"@
            + tree_text(*lhs, inner, ""@) + tree_text(*rhs, inner, ""@),
        NodeKind::UnaryOp { op, rhs } => "UnaryOp("@ + unary_op_name(op) + "):\n"@ + tree_text(
            *rhs,
            inner,
            ""@,
        ),
        NodeKind::Pipe { lhs, rhs } => "Pipe(|>)\n"@ + tree_text(*lhs, inner, "lhs"@) + tree_text(
            *rhs,
            inner,
            "rhs"@,
        ),
    }
}

/// The tree texts of the nodes, one after the other, each under `label`.
pub open spec fn tree_texts(ns: Seq<Node>, indent: Seq<char>, label: Seq<char>) -> Seq<char>
    decreases ns,
{
    if ns.len() == 0 {
        Seq::empty()
    } else {
        tree_texts(ns.drop_last(), indent, label) + tree_text(ns.last(), indent, label)
    }
}

/// The tree texts of pairs: each key under `key_label`, then its value under `value_label`.
pub open spec fn pair_texts(
    ps: Seq<(Node, Node)>,
    indent: Seq<char>,
    key_label: Seq<char>,
    value_label: Seq<char>,
) -> Seq<char>
    decreases ps,
{
    if ps.len() == 0 {
        Seq::empty()
    } else {
        pair_texts(ps.drop_last(), indent, key_label, value_label) + tree_text(
            ps.last().0,
            indent,
            key_label,
        ) + tree_text(ps.last().1, indent, value_label)
    }
}

/// The tree texts of a struct definition's fields: each name, then its default value.
pub open spec fn field_def_texts(fs: Seq<(Node, Option<Node>)>, indent: Seq<char>) -> Seq<char>
    decreases fs,
{
    if fs.len() == 0 {
        Seq::empty()
    } else {
        field_def_texts(fs.drop_last(), indent) + tree_text(fs.last().0, indent, "name"@)
            + match fs.last().1 {
            Some(d) => tree_text(d, indent, "default"@),
            None => Seq::empty(),
        }
    }
}

/// Appends the characters of `s`.
fn put(out: &mut Vec<char>, s: &str)
    ensures
        final(out)@ == old(out)@ + s@,
{
    let cs = to_chars(s);
    let mut i: usize = 0;
    while i < cs.len()
        invariant
            i <= cs@.len(),
            cs@ == s@,
            out@ == old(out)@ + cs@.take(i as int),
        decreases cs.len() - i,
    {
        out.push(cs[i]);
        assert(cs@.take(i + 1) =~= cs@.take(i as int).push(cs@[i as int]));
        assert(old(out)@ + cs@.take(i + 1) =~= (old(out)@ + cs@.take(i as int)).push(cs@[i as int]));
        i = i + 1;
    }
    assert(cs@.take(cs@.len() as int) =~= cs@);
}

fn bin_op_text(op: BinOp) -> (r: &'static str)
    ensures
        r@ == bin_op_name(op),
{
    match op {
        BinOp::Add => {
            proof {
                reveal_strlit("Add");
            }
            "Add"
        },
        BinOp::Sub => {
            proof {
                reveal_strlit("Sub");
            }
            "Sub"
        },
        BinOp::Mul => {
            proof {
                reveal_strlit("Mul");
            }
            "Mul"
        },
        BinOp::Div => {
            proof {
                reveal_strlit("Div");
            }
            "Div"
        },
        BinOp::LogicalOr => {
            proof {
                reveal_strlit("LogicalOr");
            }
            "LogicalOr"
        },
        BinOp::LogicalAnd => {
            proof {
                reveal_strlit("LogicalAnd");
            }
            "LogicalAnd"
        },
        BinOp::Eq => {
            proof {
                reveal_strlit("Eq");
            }
            "Eq"
        },
        BinOp::Neq => {
            proof {
                reveal_strlit("Neq");
            }
            "Neq"
        },
        BinOp::Gt => {
            proof {
                reveal_strlit("Gt");
            }
            "Gt"
        },
        BinOp::Gte => {
            proof {
                reveal_strlit("Gte");
            }
            "Gte"
        },
        BinOp::Lt => {
            proof {
                reveal_strlit("Lt");
            }
            "Lt"
        },
        BinOp::Lte => {
            proof {
                reveal_strlit("Lte");
            }
            "Lte"
        },
    }
}

fn unary_op_text(op: UnaryOp) -> (r: &'static str)
    ensures
        r@ == unary_op_name(op),
{
    match op {
        UnaryOp::Neg => {
            proof {
                reveal_strlit("Neg");
            }
            "Neg"
        },
        UnaryOp::LogicalNeg => {
            proof {
                reveal_strlit("LogicalNeg");
            }
            "LogicalNeg"
        },
    }
}

/// Appends the tree text of `node`.
fn write_tree(node: &Node, indent: &Vec<char>, label: &str, out: &mut Vec<char>)
    ensures
        final(out)@ == old(out)@ + tree_text(*node, indent@, label@),
    decreases node, 0nat,
{
    proof {
        broadcast use vstd::std_specs::vec::axiom_vec_decreases_to_view;
        reveal_strlit("  ");
        reveal_strlit(": ");
    }
    let ghost start = out@;
    let mut i: usize = 0;
    while i < indent.len()
        invariant
            i <= indent@.len(),
            out@ == start + indent@.take(i as int),
        decreases indent.len() - i,
    {
        out.push(indent[i]);
        assert(start + indent@.take(i + 1) =~= (start + indent@.take(i as int)).push(indent@[i as int]));
        i = i + 1;
    }
    assert(indent@.take(indent@.len() as int) =~= indent@);
    if to_chars(label).len() > 0 {
        put(out, label);
        put(out, ": ");
    }
    assert(out@ =~= start + line_start(indent@, label@));
    let ghost body_start = out@;
    let mut inner: Vec<char> = Vec::new();
    let mut j: usize = 0;
    while j < indent.len()
        invariant
            j <= indent@.len(),
            inner@ == indent@.take(j as int),
        decreases indent.len() - j,
    {
        inner.push(indent[j]);
        assert(indent@.take(j + 1) =~= indent@.take(j as int).push(indent@[j as int]));
        j = j + 1;
    }
    inner.push(' ');
    inner.push(' ');
    assert(inner@ =~= indent@ + "  "@);
    match &node.kind {
        NodeKind::SourceFile(..)
        | NodeKind::Module(..)
        | NodeKind::Import(..)
        | NodeKind::StructDef { .. }
        | NodeKind::Body(..)
        | NodeKind::Builtin { .. }
        | NodeKind::Let { .. }
        | NodeKind::Var { .. }
        | NodeKind::Assignment { .. }
        => write_body_1(&node.kind, &inner, out),
        NodeKind::FieldAssignment { .. }
        | NodeKind::FieldAssignmentPathSubscript { .. }
        | NodeKind::FieldAssignmentPathField { .. }
        | NodeKind::If { .. }
        | NodeKind::For { .. }
        | NodeKind::Subscript { .. }
        | NodeKind::FieldAccess { .. }
        => write_body_2(&node.kind, &inner, out),
        NodeKind::FunctionLiteral { .. }
        | NodeKind::FunctionCall { .. }
        | NodeKind::VariableRef { .. }
        | NodeKind::PatternIdentifier { .. }
        | NodeKind::PatternTuple { .. }
        | NodeKind::Identifier(..)
        | NodeKind::TupleLiteral(..)
        | NodeKind::ListLiteral(..)
        => write_body_3(&node.kind, &inner, out),
        NodeKind::DictLiteral(..)
        | NodeKind::StructLiteral { .. }
        | NodeKind::NilLiteral
        | NodeKind::BoolLiteral(..)
        | NodeKind::StringLiteral(..)
        | NodeKind::IntegerLiteral(..)
        | NodeKind::BinaryOp { .. }
        | NodeKind::UnaryOp { .. }
        | NodeKind::Pipe { .. }
        => write_body_4(&node.kind, &inner, out),
    }
    assert(out@ =~= old(out)@ + tree_text(*node, indent@, label@));
}

/// Appends the body text of a node of one of the kinds SourceFile, Module, Import, StructDef, Body,
/// Builtin, Let, Var, Assignment.
#[verifier::rlimit(60)]
fn write_body_1(kind: &NodeKind, inner: &Vec<char>, out: &mut Vec<char>)
    requires
        kind is SourceFile
            || kind is Module
            || kind is Import
            || kind is StructDef
            || kind is Body
            || kind is Builtin
            || kind is Let
            || kind is Var
            || kind is Assignment,
    ensures
        final(out)@ == old(out)@ + body_text(*kind, inner@),
    decreases kind, 0nat,
{
    proof {
        broadcast use vstd::std_specs::vec::axiom_vec_decreases_to_view;
    }
    match kind {
        NodeKind::SourceFile(nodes) => {
            put(out, "SourceFile:\n");
            write_trees(nodes, inner, "", out);
        },
        NodeKind::Module(name) => {
            put(out, "Module: ");
            put(out, name.as_str());
            put(out, "\n");
        },
        NodeKind::Import(ImportKind::Module { module_name }) => {
            put(out, "Import: Module ");
            put(out, module_name.as_str());
            put(out, "\n");
        },
        NodeKind::Import(ImportKind::Field { module_name, field_name }) => {
            put(out, "Import: Field ");
            put(out, module_name.as_str());
            put(out, ".");
            put(out, field_name.as_str());
            put(out, "\n");
        },
        NodeKind::Import(ImportKind::AllFields { module_name }) => {
            put(out, "Import: AllFields ");
            put(out, module_name.as_str());
            put(out, ".*\n");
        },
        NodeKind::StructDef { fields } => {
            put(out, "StructDef\n");
            write_field_defs(fields, inner, out);
        },
        NodeKind::Body(nodes) => {
            put(out, "Body:\n");
            write_trees(nodes, inner, "", out);
        },
        NodeKind::Builtin { identifier } => {
            put(out, "Builtin:\n");
            write_tree(identifier, inner, "identifier", out);
        },
        NodeKind::Let { pattern, expr } => {
            put(out, "Let:\n");
            write_tree(pattern, inner, "pattern", out);
            write_tree(expr, inner, "value", out);
        },
        NodeKind::Var { pattern, expr } => {
            put(out, "Var:\n");
            write_tree(pattern, inner, "pattern", out);
            write_tree(expr, inner, "value", out);
        },
        NodeKind::Assignment { pattern, expr } => {
            put(out, "Assignment:\n");
            write_tree(pattern, inner, "pattern", out);
            write_tree(expr, inner, "value", out);
        },
        _ => {},
    }
    assert(out@ =~= old(out)@ + body_text(*kind, inner@));
}

/// Appends the body text of a node of one of the kinds FieldAssignment,
/// FieldAssignmentPathSubscript, FieldAssignmentPathField, If, For, Subscript, FieldAccess.
#[verifier::rlimit(60)]
fn write_body_2(kind: &NodeKind, inner: &Vec<char>, out: &mut Vec<char>)
    requires
        kind is FieldAssignment
            || kind is FieldAssignmentPathSubscript
            || kind is FieldAssignmentPathField
            || kind is If
            || kind is For
            || kind is Subscript
            || kind is FieldAccess,
    ensures
        final(out)@ == old(out)@ + body_text(*kind, inner@),
    decreases kind, 0nat,
{
    proof {
        broadcast use vstd::std_specs::vec::axiom_vec_decreases_to_view;
    }
    match kind {
        NodeKind::FieldAssignment { variable_ref, path, expr } => {
            put(out, "FieldAssignment:\n");
            write_tree(variable_ref, inner, "variable_ref", out);
            write_trees(path, inner, "path", out);
            write_tree(expr, inner, "value", out);
        },
        NodeKind::FieldAssignmentPathSubscript { key } => {
            put(out, "FieldAssignmentPathSubscript:\n");
            write_tree(key, inner, "key", out);
        },
        NodeKind::FieldAssignmentPathField { key } => {
            put(out, "FieldAssignmentPathField:\n");
            write_tree(key, inner, "key", out);
        },
        NodeKind::If { condition, body, else_branch } => {
            put(out, "If:\n");
            write_tree(condition, inner, "cond", out);
            write_tree(body, inner, "body", out);
            match else_branch {
                Some(e) => write_tree(e, inner, "else", out),
                None => {},
            }
        },
        NodeKind::For { pattern, enumerable, body } => {
            put(out, "For:\n");
            write_tree(pattern, inner, "pattern", out);
            write_tree(enumerable, inner, "enumerable", out);
            write_tree(body, inner, "body", out);
        },
        NodeKind::Subscript { object, key } => {
            put(out, "Subscript:\n");
            write_tree(object, inner, "object", out);
            write_tree(key, inner, "key", out);
        },
        NodeKind::FieldAccess { object, key } => {
            put(out, "FieldAccess:\n");
            write_tree(object, inner, "object", out);
            write_tree(key, inner, "key", out);
        },
        _ => {},
    }
    assert(out@ =~= old(out)@ + body_text(*kind, inner@));
}

/// Appends the body text of a node of one of the kinds FunctionLiteral, FunctionCall, VariableRef,
/// PatternIdentifier, PatternTuple, Identifier, TupleLiteral, ListLiteral.
#[verifier::rlimit(60)]
fn write_body_3(kind: &NodeKind, inner: &Vec<char>, out: &mut Vec<char>)
    requires
        kind is FunctionLiteral
            || kind is FunctionCall
            || kind is VariableRef
            || kind is PatternIdentifier
            || kind is PatternTuple
            || kind is Identifier
            || kind is TupleLiteral
            || kind is ListLiteral,
    ensures
        final(out)@ == old(out)@ + body_text(*kind, inner@),
    decreases kind, 0nat,
{
    proof {
        broadcast use vstd::std_specs::vec::axiom_vec_decreases_to_view;
    }
    match kind {
        NodeKind::FunctionLiteral { arg_names, body } => {
            put(out, "FunctionLiteral:\n");
            write_trees(arg_names, inner, "arg_name", out);
            write_tree(body, inner, "body", out);
        },
        NodeKind::FunctionCall { function, args } => {
            put(out, "FunctionCall:\n");
            write_tree(function, inner, "function", out);
            write_trees(args, inner, "arg", out);
        },
        NodeKind::VariableRef { identifier } => {
            put(out, "VariableRef:\n");
            write_tree(identifier, inner, "identifier", out);
        },
        NodeKind::PatternIdentifier { identifier } => {
            put(out, "PatternIdentifier:\n");
            write_tree(identifier, inner, "identifier", out);
        },
        NodeKind::PatternTuple { elements } => {
            put(out, "PatternTuple\n");
            write_trees(elements, inner, "element", out);
        },
        NodeKind::Identifier(name) => {
            put(out, "Identifier(");
            put(out, name.as_str());
            put(out, ")\n");
        },
        NodeKind::TupleLiteral(elements) => {
            put(out, "TupleLiteral\n");
            write_trees(elements, inner, "element", out);
        },
        NodeKind::ListLiteral(elements) => {
            put(out, "ListLiteral\n");
            write_trees(elements, inner, "element", out);
        },
        _ => {},
    }
    assert(out@ =~= old(out)@ + body_text(*kind, inner@));
}

/// Appends the body text of a node of one of the kinds DictLiteral, StructLiteral, NilLiteral,
/// BoolLiteral, StringLiteral, IntegerLiteral, BinaryOp, UnaryOp, Pipe.
#[verifier::rlimit(60)]
fn write_body_4(kind: &NodeKind, inner: &Vec<char>, out: &mut Vec<char>)
    requires
        kind is DictLiteral
            || kind is StructLiteral
            || kind is NilLiteral
            || kind is BoolLiteral
            || kind is StringLiteral
            || kind is IntegerLiteral
            || kind is BinaryOp
            || kind is UnaryOp
            || kind is Pipe,
    ensures
        final(out)@ == old(out)@ + body_text(*kind, inner@),
    decreases kind, 0nat,
{
    proof {
        broadcast use vstd::std_specs::vec::axiom_vec_decreases_to_view;
    }
    match kind {
        NodeKind::DictLiteral(pairs) => {
            put(out, "DictLiteral\n");
            write_pairs(pairs, inner, "key", "value", out);
        },
        NodeKind::StructLiteral { module, fields } => {
            put(out, "StructLiteral\n");
            write_tree(module, inner, "module", out);
            write_pairs(fields, inner, "field", "value", out);
        },
        NodeKind::NilLiteral => {
            put(out, "NilLiteral(nil)\n");
        },
        NodeKind::BoolLiteral(value) => {
            put(out, "BoolLiteral(");
            if *value {
                put(out, "true");
            } else {
                put(out, "false");
            }
            put(out, ")\n");
        },
        NodeKind::StringLiteral(string) => {
            put(out, "StringLiteral(\"");
            put(out, string.as_str());
            put(out, "\")\n");
        },
        NodeKind::IntegerLiteral(value) => {
            put(out, "IntegerLiteral(");
            let digits = int_to_string(*value);
            put(out, digits.as_str());
            put(out, ")\n");
        },
        NodeKind::BinaryOp { op, lhs, rhs } => {
            put(out, "BinaryOp(");
            put(out, bin_op_text(*op));
            put(out, "):\n");
            write_tree(lhs, inner, "", out);
            write_tree(rhs, inner, "", out);
        },
        NodeKind::UnaryOp { op, rhs } => {
            put(out, "UnaryOp(");
            put(out, unary_op_text(*op));
            put(out, "):\n");
            write_tree(rhs, inner, "", out);
        },
        NodeKind::Pipe { lhs, rhs } => {
            put(out, "Pipe(|>)\n");
            write_tree(lhs, inner, "lhs", out);
            write_tree(rhs, inner, "rhs", out);
        },
        _ => {},
    }
    assert(out@ =~= old(out)@ + body_text(*kind, inner@));
}

/// Appends the tree texts of the nodes, each under `label`.
fn write_trees(nodes: &Vec<Node>, indent: &Vec<char>, label: &str, out: &mut Vec<char>)
    ensures
        final(out)@ == old(out)@ + tree_texts(nodes@, indent@, label@),
    decreases nodes@, 0nat,
{
    let mut i: usize = 0;
    assert(nodes@.take(0) =~= Seq::<Node>::empty());
    assert(old(out)@ + tree_texts(Seq::<Node>::empty(), indent@, label@) =~= old(out)@);
    while i < nodes.len()
        invariant
            i <= nodes@.len(),
            out@ == old(out)@ + tree_texts(nodes@.take(i as int), indent@, label@),
        decreases nodes.len() - i,
    {
        proof {
            assert(nodes@.take(i + 1).drop_last() =~= nodes@.take(i as int));
            assert(nodes@.take(i + 1).last() == nodes@[i as int]);
        }
        let ghost before = out@;
        write_tree(&nodes[i], indent, label, out);
        assert(out@ =~= old(out)@ + tree_texts(nodes@.take(i + 1), indent@, label@));
        i = i + 1;
    }
    assert(nodes@.take(nodes@.len() as int) =~= nodes@);
}

/// Appends the tree texts of the pairs.
fn write_pairs(
    pairs: &Vec<(Node, Node)>,
    indent: &Vec<char>,
    key_label: &str,
    value_label: &str,
    out: &mut Vec<char>,
)
    ensures
        final(out)@ == old(out)@ + pair_texts(pairs@, indent@, key_label@, value_label@),
    decreases pairs@, 0nat,
{
    let mut i: usize = 0;
    assert(pairs@.take(0) =~= Seq::<(Node, Node)>::empty());
    assert(old(out)@ + pair_texts(Seq::<(Node, Node)>::empty(), indent@, key_label@, value_label@)
        =~= old(out)@);
    while i < pairs.len()
        invariant
            i <= pairs@.len(),
            out@ == old(out)@ + pair_texts(pairs@.take(i as int), indent@, key_label@, value_label@),
        decreases pairs.len() - i,
    {
        proof {
            assert(pairs@.take(i + 1).drop_last() =~= pairs@.take(i as int));
            assert(pairs@.take(i + 1).last() == pairs@[i as int]);
        }
        write_tree(&pairs[i].0, indent, key_label, out);
        write_tree(&pairs[i].1, indent, value_label, out);
        assert(out@ =~= old(out)@ + pair_texts(pairs@.take(i + 1), indent@, key_label@, value_label@));
        i = i + 1;
    }
    assert(pairs@.take(pairs@.len() as int) =~= pairs@);
}

/// Appends the tree texts of a struct definition's fields.
fn write_field_defs(fields: &Vec<(Node, Option<Node>)>, indent: &Vec<char>, out: &mut Vec<char>)
    ensures
        final(out)@ == old(out)@ + field_def_texts(fields@, indent@),
    decreases fields@, 0nat,
{
    let mut i: usize = 0;
    assert(fields@.take(0) =~= Seq::<(Node, Option<Node>)>::empty());
    assert(old(out)@ + field_def_texts(Seq::<(Node, Option<Node>)>::empty(), indent@) =~= old(out)@);
    while i < fields.len()
        invariant
            i <= fields@.len(),
            out@ == old(out)@ + field_def_texts(fields@.take(i as int), indent@),
        decreases fields.len() - i,
    {
        proof {
            assert(fields@.take(i + 1).drop_last() =~= fields@.take(i as int));
            assert(fields@.take(i + 1).last() == fields@[i as int]);
        }
        write_tree(&fields[i].0, indent, "name", out);
        match &fields[i].1 {
            Some(d) => write_tree(d, indent, "default", out),
            None => {},
        }
        assert(out@ =~= old(out)@ + field_def_texts(fields@.take(i + 1), indent@));
        i = i + 1;
    }
    assert(fields@.take(fields@.len() as int) =~= fields@);
}

impl Node {
    /// The tree text of the node: the form in which the syntax tree is shown for debugging.
    pub fn tree_string(&self) -> (r: String)
        ensures
            r@ == tree_text(*self, Seq::empty(), ""@),
    {
        let mut out: Vec<char> = Vec::new();
        let indent: Vec<char> = Vec::new();
        write_tree(self, &indent, "", &mut out);
        assert(out@ =~= tree_text(*self, indent@, ""@));
        string_from_chars(&out)
    }
}

/// A literal node: nil, a boolean, a string, an integer, or a list, tuple or dictionary
/// literal.
pub open spec fn is_literal(k: NodeKind) -> bool {
    ||| k is NilLiteral
    ||| k is BoolLiteral
    ||| k is StringLiteral
    ||| k is IntegerLiteral
    ||| k is ListLiteral
    ||| k is TupleLiteral
    ||| k is DictLiteral
}

/// Every node of the tree under `n` is a literal.
pub open spec fn all_literals(n: Node) -> bool {
    forall|j: int| 0 <= j < preorder(n).len() ==> is_literal((#[trigger] preorder(n)[j]).kind)
}

/// The trees under the first `k` children of `n` are all literals exactly when each of them
/// is.
proof fn lemma_literal_children(n: Node, k: nat)
    requires
        k <= children(n.kind).len(),
    ensures
        (forall|j: int|
            0 <= j < preorder_children(n, k).len() ==> is_literal(
                (#[trigger] preorder_children(n, k)[j]).kind,
            )) <==> (forall|i: int| 0 <= i < k ==> all_literals(#[trigger] children(n.kind)[i])),
    decreases k,
{
    if k > 0 {
        lemma_literal_children(n, (k - 1) as nat);
        let before = preorder_children(n, (k - 1) as nat);
        let c = children(n.kind)[k - 1];
        let all = preorder_children(n, k);
        assert(all == before + preorder(c));
        if forall|j: int| 0 <= j < all.len() ==> is_literal((#[trigger] all[j]).kind) {
            assert forall|j: int| 0 <= j < before.len() implies is_literal(
                (#[trigger] before[j]).kind,
            ) by {
                assert(all[j] == before[j]);
            }
            assert forall|j: int| 0 <= j < preorder(c).len() implies is_literal(
                (#[trigger] preorder(c)[j]).kind,
            ) by {
                assert(all[before.len() + j] == preorder(c)[j]);
            }
        }
        if forall|i: int| 0 <= i < k ==> all_literals(#[trigger] children(n.kind)[i]) {
            assert(all_literals(c));
            assert forall|j: int| 0 <= j < all.len() implies is_literal((#[trigger] all[j]).kind) by {
                if j < before.len() {
                    assert(all[j] == before[j]);
                } else {
                    assert(all[j] == preorder(c)[j - before.len()]);
                }
            }
        }
    }
}

/// A tree is all literals exactly when its root is a literal and each child's tree is all
/// literals.
proof fn lemma_all_literals_unfold(n: Node)
    ensures
        all_literals(n) <==> is_literal(n.kind) && forall|i: int|
            0 <= i < children(n.kind).len() ==> all_literals(#[trigger] children(n.kind)[i]),
{
    let k = children(n.kind).len();
    lemma_literal_children(n, k);
    let p = preorder(n);
    let pc = preorder_children(n, k);
    assert(p == seq![n] + pc);
    if all_literals(n) {
        assert(p[0] == n);
        assert forall|j: int| 0 <= j < pc.len() implies is_literal((#[trigger] pc[j]).kind) by {
            assert(pc[j] == p[j + 1]);
        }
    }
    if is_literal(n.kind) && forall|i: int|
        0 <= i < k ==> all_literals(#[trigger] children(n.kind)[i]) {
        assert forall|j: int| 0 <= j < p.len() implies is_literal((#[trigger] p[j]).kind) by {
            if j > 0 {
                assert(p[j] == pc[j - 1]);
            }
        }
    }
}

proof fn lemma_constant_values_some(es: Seq<Node>)
    ensures
        constant_values(es) is Some <==> forall|i: int|
            0 <= i < es.len() ==> constant_value(#[trigger] es[i]) is Some,
    decreases es.len(),
{
    if es.len() > 0 {
        lemma_constant_values_some(es.drop_last());
        assert forall|i: int| 0 <= i < es.len() - 1 implies es.drop_last()[i] == es[i] by {}
    }
}

proof fn lemma_constant_entries_some(ps: Seq<(Node, Node)>)
    ensures
        constant_entries(ps) is Some <==> forall|i: int|
            0 <= i < ps.len() ==> constant_value((#[trigger] ps[i]).0) is Some && constant_value(
                ps[i].1,
            ) is Some,
    decreases ps.len(),
{
    if ps.len() > 0 {
        lemma_constant_entries_some(ps.drop_last());
        assert forall|i: int| 0 <= i < ps.len() - 1 implies ps.drop_last()[i] == ps[i] by {}
    }
}

/// A node has a value at compile time exactly when every node of its tree is a literal: nil,
/// a boolean, a string, an integer, or a list, tuple or dictionary literal.
pub proof fn lemma_constant_value_iff_literals(n: Node)
    ensures
        constant_value(n) is Some <==> all_literals(n),
    decreases n,
{
    lemma_all_literals_unfold(n);
    let cs = children(n.kind);
    assert forall|i: int| 0 <= i < cs.len() implies (constant_value(#[trigger] cs[i]) is Some
        <==> all_literals(cs[i])) by {
        lemma_child_decreases(n, i);
        lemma_constant_value_iff_literals(cs[i]);
    }
    match n.kind {
        NodeKind::ListLiteral(es) => {
            lemma_constant_values_some(es@);
        },
        NodeKind::TupleLiteral(es) => {
            lemma_constant_values_some(es@);
        },
        NodeKind::DictLiteral(kvs) => {
            let ps = kvs@;
            lemma_constant_entries_some(ps);
            assert(cs.len() == 2 * ps.len());
            if all_literals(n) {
                assert forall|i: int| 0 <= i < ps.len() implies constant_value(
                    (#[trigger] ps[i]).0,
                ) is Some && constant_value(ps[i].1) is Some by {
                    assert(cs[2 * i] == ps[i].0);
                    assert(cs[2 * i + 1] == ps[i].1);
                }
            }
            if constant_entries(ps) is Some {
                assert forall|j: int| 0 <= j < cs.len() implies all_literals(#[trigger] cs[j]) by {
                    let i = j / 2;
                    assert(0 <= i < ps.len());
                    if j % 2 == 0 {
                        assert(cs[j] == ps[i].0);
                    } else {
                        assert(cs[j] == ps[i].1);
                    }
                }
            }
        },
        _ => {},
    }
}

/// Whether every node of the tree has at most `usize::MAX` children.
pub fn counts_fit(n: &Node) -> (b: bool)
    ensures
        b == child_counts_fit(*n),
    decreases n,
{
    if n.child_at_index(usize::MAX).is_some() {
        return false;
    }
    let ghost k = children(n.kind).len();
    let mut i: usize = 0;
    loop
        invariant
            i <= k,
            k == children(n.kind).len(),
            k <= usize::MAX,
            children_counts_fit(*n, i as nat),
        decreases k - i,
    {
        match n.child_at_index(i) {
            Some(c) => {
                proof {
                    lemma_child_decreases(*n, i as int);
                }
                if !counts_fit(c) {
                    proof {
                        if child_counts_fit(*n) {
                            lemma_children_fit(*n, k, i as int);
                        }
                    }
                    return false;
                }
                i = i + 1;
            },
            None => {
                return true;
            },
        }
    }
}

} // verus!

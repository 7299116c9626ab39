use vstd::prelude::*;

use crate::ast::{
    child_counts_fit, children, lemma_child_decreases, lemma_children_fit, Node, NodeKind,
};
use crate::numbers::{digits, usize_to_string};
use crate::string_utils::concat_str;

use super::emission::ident;
use super::tags::{last_tag, TagTable};
use super::variable::{VariableAllocation, VariableRef};
use super::FunctionName;

verus! {

/// `module.name`: a name in the module's namespace.
pub open spec fn namespaced(module: Seq<char>, name: Seq<char>) -> Seq<char> {
    module + "."@ + name
}

/// `module - name (at line n)`: the name of a function bound to a local variable.
pub open spec fn local_name(module: Seq<char>, name: Seq<char>, line: usize) -> Seq<char> {
    module + " - "@ + name + " (at line "@ + digits(line as nat) + ")"@
}

/// The name of a function literal bound to no variable.
pub open spec fn anonymous_name(module: Seq<char>, line: usize) -> Seq<char> {
    namespaced(module, "(anonymous at line "@ + digits(line as nat) + ")"@)
}

/// The names in a table of function names, each with its node.
pub open spec fn names_view(t: Seq<(u32, FunctionName)>) -> Seq<(u32, Seq<char>)> {
    Seq::new(t.len(), |i: int| (t[i].0, t[i].1.name@))
}

/// What visiting `n` adds to the names `t`: the module's top level and builtins get names in
/// the module's namespace; a function literal bound by `let` or `var` to a variable gets the
/// variable's name (namespaced for a global, with its line for a local); any other function
/// literal gets an anonymous name.  `None` where the phase cannot name a node: a name that is
/// not an identifier, or a variable the earlier phases did not resolve.
pub open spec fn name_node(
    module: Seq<char>,
    refs: TagTable<VariableRef>,
    n: Node,
    t: Seq<(u32, Seq<char>)>,
) -> Option<Seq<(u32, Seq<char>)>> {
    match n.kind {
        NodeKind::SourceFile(_) => Some(t.push((n.id.local_id, namespaced(module, "(main)"@)))),
        NodeKind::Builtin { identifier } => match ident(*identifier) {
            Some(name) => Some(t.push((n.id.local_id, namespaced(module, name)))),
            None => None,
        },
        NodeKind::Let { pattern, expr } => name_binding(module, refs, *pattern, *expr, t),
        NodeKind::Var { pattern, expr } => name_binding(module, refs, *pattern, *expr, t),
        NodeKind::FunctionLiteral { .. } => if last_tag(t, n.id.local_id) is None {
            Some(t.push((n.id.local_id, anonymous_name(module, n.source.line))))
        } else {
            Some(t)
        },
        _ => Some(t),
    }
}

/// `let name = fn ...`: the function literal gets the variable's name.
pub open spec fn name_binding(
    module: Seq<char>,
    refs: TagTable<VariableRef>,
    pattern: Node,
    expr: Node,
    t: Seq<(u32, Seq<char>)>,
) -> Option<Seq<(u32, Seq<char>)>> {
    match (pattern.kind, expr.kind) {
        (NodeKind::PatternIdentifier { identifier }, NodeKind::FunctionLiteral { .. }) => match (
            refs.tag_of(pattern.id.local_id),
            ident(*identifier),
        ) {
            (Some(r), Some(name)) => Some(
                t.push(
                    (
                        expr.id.local_id,
                        if r.allocation is Global {
                            namespaced(module, name)
                        } else {
                            local_name(module, name, identifier.source.line)
                        },
                    ),
                ),
            ),
            _ => None,
        },
        _ => Some(t),
    }
}

/// The names after visiting `n` and the nodes below it: `n` first, then the subtree of each
/// child in order.
pub open spec fn named(
    module: Seq<char>,
    refs: TagTable<VariableRef>,
    n: Node,
    t: Seq<(u32, Seq<char>)>,
) -> Option<Seq<(u32, Seq<char>)>>
    decreases n, 1nat, 0nat,
{
    match name_node(module, refs, n, t) {
        Some(t1) => named_children(module, refs, n, children(n.kind).len(), t1),
        None => None,
    }
}

/// The names after visiting the subtrees of the first `k` children of `n`.
pub open spec fn named_children(
    module: Seq<char>,
    refs: TagTable<VariableRef>,
    n: Node,
    k: nat,
    t: Seq<(u32, Seq<char>)>,
) -> Option<Seq<(u32, Seq<char>)>>
    decreases n, 0nat, k,
{
    if k == 0 || k > children(n.kind).len() {
        Some(t)
    } else {
        proof {
            lemma_child_decreases(n, k - 1);
        }
        match named_children(module, refs, n, (k - 1) as nat, t) {
            Some(t1) => named(module, refs, children(n.kind)[k - 1], t1),
            None => None,
        }
    }
}

proof fn lemma_names_view_push(t: Seq<(u32, FunctionName)>, id: u32, f: FunctionName)
    ensures
        names_view(t.push((id, f))) == names_view(t).push((id, f.name@)),
{
    assert(names_view(t.push((id, f))) =~= names_view(t).push((id, f.name@)));
}

proof fn lemma_last_tag_view(t: Seq<(u32, FunctionName)>, id: u32)
    ensures
        (last_tag(t, id) is None) == (last_tag(names_view(t), id) is None),
    decreases t.len(),
{
    if t.len() > 0 {
        assert(names_view(t).drop_last() =~= names_view(t.drop_last()));
        lemma_last_tag_view(t.drop_last(), id);
    }
}

proof fn lemma_named_children_prefix(
    module: Seq<char>,
    refs: TagTable<VariableRef>,
    n: Node,
    k: nat,
    t: Seq<(u32, Seq<char>)>,
    j: nat,
)
    requires
        named_children(module, refs, n, k, t) is Some,
        k <= children(n.kind).len(),
        j <= k,
    ensures
        named_children(module, refs, n, j, t) is Some,
    decreases k,
{
    if j < k {
        lemma_named_children_prefix(module, refs, n, (k - 1) as nat, t, j);
    }
}

/// Adds the name of node `id`.
fn add_name(names: &mut TagTable<FunctionName>, id: u32, name: String)
    ensures
        names_view(final(names).entries@) == names_view(old(names).entries@).push((id, name@)),
{
    proof {
        lemma_names_view_push(names.entries@, id, FunctionName { name });
    }
    names.entries.push((id, FunctionName { name }));
}

/// `module.name`.
fn namespaced_name(module: &str, name: &str) -> (r: String)
    ensures
        r@ == namespaced(module@, name@),
{
    proof {
        reveal_strlit(".");
    }
    let a = concat_str(module, ".");
    concat_str(a.as_str(), name)
}

/// Names `n`, as visiting it does (see `name_node`).
fn enter_node(
    module: &str,
    refs: &TagTable<VariableRef>,
    n: &Node,
    names: &mut TagTable<FunctionName>,
)
    requires
        name_node(module@, *refs, *n, names_view(old(names).entries@)) is Some,
    ensures
        name_node(module@, *refs, *n, names_view(old(names).entries@)) == Some(
            names_view(final(names).entries@),
        ),
{
    match &n.kind {
        NodeKind::SourceFile(_) => {
            proof {
                reveal_strlit("(main)");
            }
            add_name(names, n.id.local_id, namespaced_name(module, "(main)"));
        },
        NodeKind::Builtin { identifier } => match &identifier.kind {
            NodeKind::Identifier(name) => {
                add_name(names, n.id.local_id, namespaced_name(module, name.as_str()));
            },
            _ => {},
        },
        NodeKind::Let { pattern, expr } | NodeKind::Var { pattern, expr } => {
            match (&pattern.kind, &expr.kind) {
                (NodeKind::PatternIdentifier { identifier }, NodeKind::FunctionLiteral { .. }) => {
                    match (refs.get(pattern.id.local_id), &identifier.kind) {
                        (Some(r), NodeKind::Identifier(name)) => {
                            let full = match &r.allocation {
                                VariableAllocation::Global { .. } => namespaced_name(
                                    module,
                                    name.as_str(),
                                ),
                                _ => {
                                    proof {
                                        reveal_strlit(" - ");
                                        reveal_strlit(" (at line ");
                                        reveal_strlit(")");
                                    }
                                    let a = concat_str(module, " - ");
                                    let b = concat_str(a.as_str(), name.as_str());
                                    let c = concat_str(b.as_str(), " (at line ");
                                    let line = usize_to_string(identifier.source.line);
                                    let d = concat_str(c.as_str(), line.as_str());
                                    concat_str(d.as_str(), ")")
                                },
                            };
                            add_name(names, expr.id.local_id, full);
                        },
                        _ => {},
                    }
                },
                _ => {},
            }
        },
        NodeKind::FunctionLiteral { .. } => {
            proof {
                lemma_last_tag_view(names.entries@, n.id.local_id);
            }
            if names.get(n.id.local_id).is_none() {
                proof {
                    reveal_strlit("(anonymous at line ");
                    reveal_strlit(")");
                }
                let line = usize_to_string(n.source.line);
                let a = concat_str("(anonymous at line ", line.as_str());
                let b = concat_str(a.as_str(), ")");
                add_name(names, n.id.local_id, namespaced_name(module, b.as_str()));
            }
        },
        _ => {},
    }
}

/// Names `n` and the nodes below it.
fn walk(module: &str, refs: &TagTable<VariableRef>, n: &Node, names: &mut TagTable<FunctionName>)
    requires
        child_counts_fit(*n),
        named(module@, *refs, *n, names_view(old(names).entries@)) is Some,
    ensures
        named(module@, *refs, *n, names_view(old(names).entries@)) == Some(
            names_view(final(names).entries@),
        ),
    decreases n,
{
    enter_node(module, refs, n, names);
    let ghost start = names_view(names.entries@);
    let ghost k = children(n.kind).len();
    let mut i: usize = 0;
    loop
        invariant
            i <= k,
            k == children(n.kind).len(),
            child_counts_fit(*n),
            named_children(module@, *refs, *n, k, start) is Some,
            named_children(module@, *refs, *n, i as nat, start) == Some(
                names_view(names.entries@),
            ),
        ensures
            i == k,
            named_children(module@, *refs, *n, i as nat, start) == Some(
                names_view(names.entries@),
            ),
        decreases k - i,
    {
        match n.child_at_index(i) {
            Some(child) => {
                proof {
                    lemma_child_decreases(*n, i as int);
                    lemma_children_fit(*n, k, i as int);
                    lemma_named_children_prefix(module@, *refs, *n, k, start, (i + 1) as nat);
                }
                walk(module, refs, child, names);
                i = i + 1;
            },
            None => {
                break ;
            },
        }
    }
}

/// Gives each function a name for stack traces: the module's top level, the builtins, the
/// functions bound to variables, and the anonymous ones.
pub fn function_names_phase(
    module: &str,
    refs: &TagTable<VariableRef>,
    ast: &Node,
    names: &mut TagTable<FunctionName>,
)
    requires
        child_counts_fit(*ast),
        named(module@, *refs, *ast, names_view(old(names).entries@)) is Some,
    ensures
        named(module@, *refs, *ast, names_view(old(names).entries@)) == Some(
            names_view(final(names).entries@),
        ),
{
    walk(module, refs, ast, names);
}

} // verus!

use vstd::prelude::*;

use crate::ast::{
    child_counts_fit, children, lemma_child_decreases, lemma_children_fit, Node, NodeKind,
};

use super::tags::{TagTable, Tags};
use super::IsReturnExpr;

verus! {

/// The expressions whose value `function` returns, searched from `node`: the last statement of
/// a module or a block, and for an `if`, those of both branches.
pub open spec fn return_exprs(function: u32, node: Node) -> Seq<(u32, IsReturnExpr)>
    decreases node, 1nat,
{
    match node.kind {
        NodeKind::SourceFile(ns) => if ns@.len() > 0 {
            returned(function, ns@.last())
        } else {
            Seq::empty()
        },
        NodeKind::Body(ns) => if ns@.len() > 0 {
            returned(function, ns@.last())
        } else {
            Seq::empty()
        },
        NodeKind::If { .. } => returned(function, node),
        _ => Seq::empty(),
    }
}

/// `m` is what `function` returns: an `if` passes that on to its branches; any other
/// expression is tagged.
pub open spec fn returned(function: u32, m: Node) -> Seq<(u32, IsReturnExpr)>
    decreases m, 0nat,
{
    match m.kind {
        NodeKind::If { body, else_branch, .. } => return_exprs(function, *body) + match else_branch {
            Some(e) => return_exprs(function, *e),
            None => Seq::empty(),
        },
        _ => seq![(m.id.local_id, IsReturnExpr { function })],
    }
}

/// The tags a module's top level or a function literal adds: the expressions it returns.
pub open spec fn own_return_tags(n: Node) -> Seq<(u32, IsReturnExpr)> {
    match n.kind {
        NodeKind::SourceFile(_) => return_exprs(n.id.local_id, n),
        NodeKind::FunctionLiteral { body, .. } => return_exprs(n.id.local_id, *body),
        _ => Seq::empty(),
    }
}

/// The tags the phase adds for `n` and the nodes below it, in the order it visits them: `n`
/// first, then the subtree of each child in order.
pub open spec fn return_tags(n: Node) -> Seq<(u32, IsReturnExpr)>
    decreases n, 1nat, 0nat,
{
    own_return_tags(n) + return_tags_of_children(n, children(n.kind).len())
}

/// The tags the phase adds for the subtrees of the first `k` children of `n`.
pub open spec fn return_tags_of_children(n: Node, k: nat) -> Seq<(u32, IsReturnExpr)>
    decreases n, 0nat, k,
{
    if k == 0 || k > children(n.kind).len() {
        Seq::empty()
    } else {
        proof {
            lemma_child_decreases(n, k - 1);
        }
        return_tags_of_children(n, (k - 1) as nat) + return_tags(children(n.kind)[k - 1])
    }
}

/// Tags the expressions whose value `function` returns, searched from `node`.
fn tag_return_exprs(function: u32, node: &Node, tags: &mut TagTable<IsReturnExpr>)
    ensures
        final(tags).entries@ == old(tags).entries@ + return_exprs(function, *node),
    decreases node, 1nat,
{
    match &node.kind {
        NodeKind::SourceFile(nodes) => if nodes.len() > 0 {
            tag_returned(function, &nodes[nodes.len() - 1], tags);
        } else {
            assert(tags.entries@ =~= old(tags).entries@ + return_exprs(function, *node));
        },
        NodeKind::Body(nodes) => if nodes.len() > 0 {
            tag_returned(function, &nodes[nodes.len() - 1], tags);
        } else {
            assert(tags.entries@ =~= old(tags).entries@ + return_exprs(function, *node));
        },
        NodeKind::If { .. } => tag_returned(function, node, tags),
        _ => {
            assert(tags.entries@ =~= old(tags).entries@ + return_exprs(function, *node));
        },
    }
}

/// `m` is what `function` returns: tags it, or for an `if`, what its branches return.
fn tag_returned(function: u32, m: &Node, tags: &mut TagTable<IsReturnExpr>)
    ensures
        final(tags).entries@ == old(tags).entries@ + returned(function, *m),
    decreases m, 0nat,
{
    match &m.kind {
        NodeKind::If { condition: _, body, else_branch } => {
            tag_return_exprs(function, body, tags);
            let ghost mid = tags.entries@;
            match else_branch {
                Some(e) => tag_return_exprs(function, e, tags),
                None => {},
            }
            assert(tags.entries@ =~= old(tags).entries@ + returned(function, *m));
        },
        _ => {
            tags.entries.push((m.id.local_id, IsReturnExpr { function }));
            assert(tags.entries@ =~= old(tags).entries@ + returned(function, *m));
        },
    }
}

/// Visits `n` and the nodes below it, tagging what each module top level and function literal
/// returns.
fn walk(n: &Node, tags: &mut TagTable<IsReturnExpr>)
    requires
        child_counts_fit(*n),
    ensures
        final(tags).entries@ == old(tags).entries@ + return_tags(*n),
    decreases n,
{
    match &n.kind {
        NodeKind::SourceFile(_) => tag_return_exprs(n.id.local_id, n, tags),
        NodeKind::FunctionLiteral { arg_names: _, body } => tag_return_exprs(
            n.id.local_id,
            body,
            tags,
        ),
        _ => {},
    }
    assert(tags.entries@ =~= old(tags).entries@ + own_return_tags(*n));
    let ghost start = tags.entries@;
    let mut i: usize = 0;
    loop
        invariant
            i <= children(n.kind).len(),
            child_counts_fit(*n),
            tags.entries@ == start + return_tags_of_children(*n, i as nat),
        ensures
            i == children(n.kind).len(),
            tags.entries@ == start + return_tags_of_children(*n, i as nat),
        decreases children(n.kind).len() - i,
    {
        match n.child_at_index(i) {
            Some(child) => {
                proof {
                    lemma_child_decreases(*n, i as int);
                    lemma_children_fit(*n, children(n.kind).len(), i as int);
                }
                walk(child, tags);
                assert(tags.entries@ =~= start + return_tags_of_children(*n, (i + 1) as nat));
                i = i + 1;
            },
            None => {
                break ;
            },
        }
    }
    assert(tags.entries@ =~= old(tags).entries@ + return_tags(*n));
}

/// Tags every expression whose value a function returns (or the module's top level does), with
/// that function.
pub fn tag_return_exprs_phase(ast: &Node, tags: &mut Tags)
    requires
        child_counts_fit(*ast),
    ensures
        final(tags).return_exprs.entries@ == old(tags).return_exprs.entries@ + return_tags(*ast),
        final(tags).variables == old(tags).variables,
        final(tags).variable_refs == old(tags).variable_refs,
        final(tags).function_names == old(tags).function_names,
        final(tags).scopes == old(tags).scopes,
        final(tags).module_refs == old(tags).module_refs,
        final(tags).referenced_structs == old(tags).referenced_structs,
{
    walk(ast, &mut tags.return_exprs);
}

} // verus!

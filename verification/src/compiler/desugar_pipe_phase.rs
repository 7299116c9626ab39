use vstd::prelude::*;

use crate::ast::{
    child_counts_fit, children, lemma_child_decreases, lemma_children_fit, same_frame, Node,
    NodeKind,
};
use crate::exception::Exception;

use super::resolution::{error_at, error_views, ErrorView};

verus! {

/// A pipe into a call, taken apart in the order the call receives them: the call's function,
/// the pipe's left side (the first argument), then the call's own arguments.
pub open spec fn pipe_call_parts(a: Node) -> Option<Seq<Node>> {
    match a.kind {
        NodeKind::Pipe { lhs, rhs } => match rhs.kind {
            NodeKind::FunctionCall { function, args } => Some(seq![*function, *lhs] + args@),
            _ => None,
        },
        _ => None,
    }
}

/// The nodes desugaring goes on with below `a`, in order: the parts of a pipe into a call,
/// else the children.
pub open spec fn walked(a: Node) -> Seq<Node> {
    match pipe_call_parts(a) {
        Some(parts) => parts,
        None => children(a.kind),
    }
}

/// A pipe whose right side is not a call: an error.
pub open spec fn is_bad_pipe(a: Node) -> bool {
    a.kind is Pipe && pipe_call_parts(a) is None
}

pub open spec fn pipe_message() -> Seq<char> {
    "Pipe operator must be followed by a function call"@
}

/// What desugaring goes on with is smaller than the node.
pub proof fn lemma_walked_decreases(a: Node, i: int)
    requires
        0 <= i < walked(a).len(),
    ensures
        decreases_to!(a => walked(a)[i]),
{
    broadcast use vstd::std_specs::vec::axiom_vec_decreases_to_view;

    match a.kind {
        NodeKind::Pipe { lhs, rhs } => match rhs.kind {
            NodeKind::FunctionCall { function, args } => {
                assert(decreases_to!(a => *rhs));
                assert(decreases_to!(a => *function));
                if i >= 2 {
                    assert(walked(a)[i] == args@[i - 2]);
                    assert(decreases_to!(*rhs => args@[i - 2]));
                }
            },
            _ => {
                lemma_child_decreases(a, i);
            },
        },
        _ => {
            lemma_child_decreases(a, i);
        },
    }
}

/// `b` is `a` with every pipe into a call turned into that call, the pipe's left side
/// becoming its first argument; nothing else changes.
pub open spec fn desugared(a: Node, b: Node) -> bool
    decreases a, 1nat, 0nat,
{
    &&& b.id == a.id
    &&& b.source == a.source
    &&& if pipe_call_parts(a) is Some {
        b.kind is FunctionCall
    } else {
        same_frame(a.kind, b.kind)
    }
    &&& children(b.kind).len() == walked(a).len()
    &&& desugared_children(a, b, walked(a).len())
}

/// The first `k` nodes desugaring goes on with below `a` became the first `k` children of `b`.
pub open spec fn desugared_children(a: Node, b: Node, k: nat) -> bool
    decreases a, 0nat, k,
{
    if k == 0 || k > walked(a).len() {
        true
    } else {
        proof {
            lemma_walked_decreases(a, k - 1);
        }
        desugared_children(a, b, (k - 1) as nat) && desugared(
            walked(a)[k - 1],
            children(b.kind)[k - 1],
        )
    }
}

/// The errors desugaring `a` reports, in the order it meets them.
pub open spec fn pipe_errors(a: Node) -> Seq<ErrorView>
    decreases a, 1nat, 0nat,
{
    (if is_bad_pipe(a) {
        seq![error_at(pipe_message(), a)]
    } else {
        Seq::empty()
    }) + pipe_errors_children(a, walked(a).len())
}

/// The errors reported below the first `k` nodes desugaring goes on with below `a`.
pub open spec fn pipe_errors_children(a: Node, k: nat) -> Seq<ErrorView>
    decreases a, 0nat, k,
{
    if k == 0 || k > walked(a).len() {
        Seq::empty()
    } else {
        proof {
            lemma_walked_decreases(a, k - 1);
        }
        pipe_errors_children(a, (k - 1) as nat) + pipe_errors(walked(a)[k - 1])
    }
}

/// No node of the tree under `n` is a pipe.
pub open spec fn pipe_free(n: Node) -> bool
    decreases n, 1nat, 0nat,
{
    !(n.kind is Pipe) && pipe_free_children(n, children(n.kind).len())
}

/// No node of the subtrees of the first `k` children of `n` is a pipe.
pub open spec fn pipe_free_children(n: Node, k: nat) -> bool
    decreases n, 0nat, k,
{
    if k == 0 || k > children(n.kind).len() {
        true
    } else {
        proof {
            lemma_child_decreases(n, k - 1);
        }
        pipe_free_children(n, (k - 1) as nat) && pipe_free(children(n.kind)[k - 1])
    }
}

/// Desugaring that reports no error leaves no pipe in the tree.
pub proof fn lemma_desugared_pipe_free(a: Node, b: Node)
    requires
        desugared(a, b),
        pipe_errors(a).len() == 0,
    ensures
        pipe_free(b),
    decreases a, 1nat, 0nat,
{
    let head: Seq<ErrorView> = if is_bad_pipe(a) {
        seq![error_at(pipe_message(), a)]
    } else {
        Seq::empty()
    };
    assert(pipe_errors(a) == head + pipe_errors_children(a, walked(a).len()));
    assert(head.len() == 0);
    lemma_desugared_pipe_free_children(a, b, walked(a).len());
}

proof fn lemma_desugared_pipe_free_children(a: Node, b: Node, k: nat)
    requires
        k <= walked(a).len(),
        children(b.kind).len() == walked(a).len(),
        desugared_children(a, b, k),
        pipe_errors_children(a, k).len() == 0,
    ensures
        pipe_free_children(b, k),
    decreases a, 0nat, k,
{
    if k > 0 {
        lemma_walked_decreases(a, k - 1);
        lemma_desugared_pipe_free_children(a, b, (k - 1) as nat);
        lemma_desugared_pipe_free(walked(a)[k - 1], children(b.kind)[k - 1]);
    }
}

proof fn lemma_desugared_children(a: Node, b: Node, k: nat)
    requires
        k <= walked(a).len(),
        k <= children(b.kind).len(),
        forall|j: int| 0 <= j < k ==> desugared(#[trigger] walked(a)[j], children(b.kind)[j]),
    ensures
        desugared_children(a, b, k),
    decreases k,
{
    if k > 0 {
        lemma_desugared_children(a, b, (k - 1) as nat);
    }
}

/// Every part of a pipe into a call has its child counts fit when the pipe has.
proof fn lemma_walked_fit(a: Node, i: int)
    requires
        child_counts_fit(a),
        0 <= i < walked(a).len(),
    ensures
        child_counts_fit(walked(a)[i]),
{
    match a.kind {
        NodeKind::Pipe { lhs, rhs } => {
            lemma_children_fit(a, 2, 0);
            lemma_children_fit(a, 2, 1);
            match rhs.kind {
                NodeKind::FunctionCall { function, args } => {
                    let k = children(rhs.kind).len();
                    if i == 0 {
                        lemma_children_fit(*rhs, k, 0);
                    } else if i >= 2 {
                        lemma_children_fit(*rhs, k, i - 1);
                    }
                },
                _ => {
                    lemma_children_fit(a, 2, i);
                },
            }
        },
        _ => {
            lemma_children_fit(a, children(a.kind).len(), i);
        },
    }
}

/// Desugars the tree under `node`, reporting each pipe that is not into a call.
fn desugar(node: &mut Node, errors: &mut Vec<Exception>)
    requires
        child_counts_fit(*old(node)),
    ensures
        desugared(*old(node), *final(node)),
        error_views(final(errors)@) == error_views(old(errors)@) + pipe_errors(*old(node)),
    decreases *old(node), 0nat,
{
    let ghost orig = *node;
    let ghost errs0 = error_views(errors@);
    let is_call_pipe = match &node.kind {
        NodeKind::Pipe { lhs: _, rhs } => match &rhs.kind {
            NodeKind::FunctionCall { .. } => true,
            _ => false,
        },
        _ => false,
    };
    if is_call_pipe {
        let mut kind = NodeKind::NilLiteral;
        std::mem::swap(&mut kind, &mut node.kind);
        match kind {
            NodeKind::Pipe { mut lhs, rhs } => {
                let call = *rhs;
                match call.kind {
                    NodeKind::FunctionCall { mut function, mut args } => {
                        let ghost parts = walked(orig);
                        assert(parts == seq![*function, *lhs] + args@);
                        proof {
                            lemma_walked_decreases(orig, 0);
                            lemma_walked_decreases(orig, 1);
                            lemma_walked_fit(orig, 0);
                            lemma_walked_fit(orig, 1);
                            assert(parts[0] == *function);
                            assert(parts[1] == *lhs);
                        }
                        let ghost f0 = *function;
                        let ghost l0 = *lhs;
                        desugar(&mut *function, errors);
                        proof {
                            assert(pipe_errors_children(orig, 0) =~= Seq::empty());
                            assert(pipe_errors_children(orig, 1) =~= pipe_errors(f0));
                        }
                        desugar(&mut *lhs, errors);
                        proof {
                            assert(pipe_errors_children(orig, 2) =~= pipe_errors_children(orig, 1)
                                + pipe_errors(l0));
                        }
                        let ghost args0 = args@;
                        let mut j: usize = 0;
                        while j < args.len()
                            invariant
                                j <= args@.len(),
                                args@.len() == args0.len(),
                                parts == seq![f0, l0] + args0,
                                parts == walked(orig),
                                orig == *old(node),
                                child_counts_fit(orig),
                                forall|t: int| 0 <= t < j ==> desugared(
                                    #[trigger] args0[t],
                                    args@[t],
                                ),
                                forall|t: int| j <= t < args@.len() ==> #[trigger] args@[t]
                                    == args0[t],
                                error_views(errors@) == errs0 + pipe_errors_children(
                                    orig,
                                    (j + 2) as nat,
                                ),
                            decreases args0.len() - j,
                        {
                            proof {
                                lemma_walked_decreases(orig, j + 2);
                                lemma_walked_fit(orig, j + 2);
                                assert(parts[j + 2] == args0[j as int]);
                                assert(decreases_to!(*old(node) => args@[j as int]));
                            }
                            desugar(&mut args[j], errors);
                            proof {
                                assert(pipe_errors_children(orig, (j + 3) as nat)
                                    == pipe_errors_children(orig, (j + 2) as nat) + pipe_errors(
                                    args0[j as int],
                                ));
                            }
                            j = j + 1;
                        }
                        args.insert(0, *lhs);
                        node.kind = NodeKind::FunctionCall { function, args };
                        proof {
                            assert(children(node.kind).len() == parts.len());
                            assert forall|t: int| 0 <= t < parts.len() implies desugared(
                                #[trigger] walked(orig)[t],
                                children(node.kind)[t],
                            ) by {
                                if t >= 2 {
                                    assert(children(node.kind)[t] == args@[t - 1]);
                                }
                            }
                            lemma_desugared_children(orig, *node, parts.len());
                            assert(!is_bad_pipe(orig));
                        }
                    },
                    _ => {},
                }
            },
            _ => {},
        }
    } else {
        if let NodeKind::Pipe { .. } = &node.kind {
            let e = Exception::at_node(node, "Pipe operator must be followed by a function call");
            let ghost before = errors@;
            errors.push(e);
            proof {
                reveal_strlit("Pipe operator must be followed by a function call");
                assert(error_views(errors@) =~= error_views(before).push(
                    error_at(pipe_message(), orig),
                ));
            }
        }
        let ghost k = children(orig.kind).len();
        let mut i: usize = 0;
        proof {
            assert(same_frame(orig.kind, node.kind));
            assert(pipe_errors_children(orig, 0) =~= Seq::empty());
        }
        loop
            invariant
                i <= k,
                orig == *old(node),
                k == children(orig.kind).len(),
                k == children(node.kind).len(),
                walked(orig) == children(orig.kind),
                child_counts_fit(orig),
                node.id == orig.id,
                node.source == orig.source,
                same_frame(orig.kind, node.kind),
                forall|j: int| 0 <= j < i ==> desugared(
                    #[trigger] children(orig.kind)[j],
                    children(node.kind)[j],
                ),
                forall|j: int| i <= j < k ==> #[trigger] children(node.kind)[j]
                    == children(orig.kind)[j],
                error_views(errors@) == errs0 + (if is_bad_pipe(orig) {
                    seq![error_at(pipe_message(), orig)]
                } else {
                    Seq::empty()
                }) + pipe_errors_children(orig, i as nat),
            ensures
                i == k,
                node.id == orig.id,
                node.source == orig.source,
                same_frame(orig.kind, node.kind),
                k == children(node.kind).len(),
                forall|j: int| 0 <= j < k ==> desugared(
                    #[trigger] children(orig.kind)[j],
                    children(node.kind)[j],
                ),
                error_views(errors@) == errs0 + pipe_errors(orig),
            decreases k - i,
        {
            match node.child_at_index_mut(i) {
                Some(child) => {
                    proof {
                        lemma_child_decreases(orig, i as int);
                        lemma_children_fit(orig, k, i as int);
                        assert(decreases_to!(*old(node) => *child));
                    }
                    desugar(child, errors);
                    proof {
                        assert(pipe_errors_children(orig, (i + 1) as nat)
                            == pipe_errors_children(orig, i as nat) + pipe_errors(
                            children(orig.kind)[i as int],
                        ));
                    }
                    i = i + 1;
                },
                None => {
                    proof {
                        assert(pipe_errors_children(orig, k) == pipe_errors_children(
                            orig,
                            i as nat,
                        ));
                    }
                    break ;
                },
            }
        }
        proof {
            lemma_desugared_children(orig, *node, k);
        }
    }
}

/// Turns every pipe `lhs |> f(args)` of the module into the call `f(lhs, args)`.  A pipe into
/// anything other than a call is an error; the errors are added to `errors`, and the phase
/// fails if any error has been reported, by it or before it.
pub fn desugar_pipe_phase(ast: &mut Node, errors: &mut Vec<Exception>) -> (r: Result<(), Exception>)
    requires
        child_counts_fit(*old(ast)),
    ensures
        desugared(*old(ast), *final(ast)),
        error_views(final(errors)@) == error_views(old(errors)@) + pipe_errors(*old(ast)),
        match r {
            Ok(()) => final(errors)@.len() == 0 && pipe_free(*final(ast)),
            Err(e) => final(errors)@.len() > 0 && e.message@ == "Failed to desugar pipe operator"@,
        },
{
    desugar(ast, errors);
    let ghost before = *old(ast);
    if errors.len() > 0 {
        proof {
            reveal_strlit("Failed to desugar pipe operator");
        }
        return Err(Exception::new("Failed to desugar pipe operator".to_owned()));
    }
    proof {
        assert(error_views(errors@).len() == 0);
        lemma_desugared_pipe_free(before, *ast);
    }
    Ok(())
}

} // verus!

use vstd::prelude::*;

use crate::ast::{
    child_counts_fit, children, lemma_child_decreases, lemma_children_fit, preorder,
    preorder_children, same_frame, Node, NodeId,
};
use crate::module::ModuleName;

verus! {

/// `b` is `a` with other ids: the same kinds of nodes, with the same data and sources, and
/// children alike.
pub open spec fn same_but_ids(a: Node, b: Node) -> bool
    decreases a, 1nat, 0nat,
{
    &&& a.source == b.source
    &&& same_frame(a.kind, b.kind)
    &&& children(a.kind).len() == children(b.kind).len()
    &&& same_children_but_ids(a, b, children(a.kind).len())
}

/// The first `k` children of `a` and `b` are alike but for their ids.
pub open spec fn same_children_but_ids(a: Node, b: Node, k: nat) -> bool
    decreases a, 0nat, k,
{
    if k == 0 || k > children(a.kind).len() {
        true
    } else {
        proof {
            lemma_child_decreases(a, k - 1);
        }
        same_children_but_ids(a, b, (k - 1) as nat) && same_but_ids(
            children(a.kind)[k - 1],
            children(b.kind)[k - 1],
        )
    }
}

/// The nodes of the tree under `n` are numbered `start`, `start + 1`, ... in pre-order, as
/// nodes of module `m`.
pub open spec fn numbered(n: Node, m: Seq<char>, start: nat) -> bool
    decreases n, 1nat, 0nat,
{
    &&& n.id.module.0@ == m
    &&& n.id.local_id == start
    &&& numbered_children(n, m, children(n.kind).len(), start + 1)
}

/// The subtrees of the first `k` children of `n` are numbered one after the other from
/// `start`.
pub open spec fn numbered_children(n: Node, m: Seq<char>, k: nat, start: nat) -> bool
    decreases n, 0nat, k,
{
    if k == 0 || k > children(n.kind).len() {
        true
    } else {
        proof {
            lemma_child_decreases(n, k - 1);
        }
        numbered_children(n, m, (k - 1) as nat, start) && numbered(
            children(n.kind)[k - 1],
            m,
            start + preorder_children(n, (k - 1) as nat).len(),
        )
    }
}

/// What the first `k` children of a node say of its subtrees depends on those children alone.
proof fn lemma_children_frame(a: Node, b: Node, o: Node, m: Seq<char>, s: nat, k: nat)
    requires
        k <= children(a.kind).len(),
        k <= children(b.kind).len(),
        k <= children(o.kind).len(),
        forall|j: int| 0 <= j < k ==> #[trigger] children(a.kind)[j] == children(b.kind)[j],
    ensures
        preorder_children(a, k) == preorder_children(b, k),
        numbered_children(a, m, k, s) == numbered_children(b, m, k, s),
        same_children_but_ids(o, a, k) == same_children_but_ids(o, b, k),
    decreases k,
{
    if k > 0 {
        lemma_children_frame(a, b, o, m, s, (k - 1) as nat);
        assert(children(a.kind)[k - 1] == children(b.kind)[k - 1]);
    }
}

/// Trees alike but for their ids have as many nodes.
proof fn lemma_same_size(a: Node, b: Node)
    requires
        same_but_ids(a, b),
    ensures
        preorder(a).len() == preorder(b).len(),
    decreases a, 1nat, 0nat,
{
    lemma_same_children_size(a, b, children(a.kind).len());
}

proof fn lemma_same_children_size(a: Node, b: Node, k: nat)
    requires
        k <= children(a.kind).len(),
        children(a.kind).len() == children(b.kind).len(),
        same_children_but_ids(a, b, k),
    ensures
        preorder_children(a, k).len() == preorder_children(b, k).len(),
    decreases a, 0nat, k,
{
    if k > 0 {
        lemma_child_decreases(a, k - 1);
        lemma_same_children_size(a, b, (k - 1) as nat);
        lemma_same_size(children(a.kind)[k - 1], children(b.kind)[k - 1]);
    }
}

/// Numbered nodes are numbered by their position in pre-order: the `j`-th node of the tree
/// has number `start + j`, and all belong to the module.
pub proof fn lemma_numbered_preorder(n: Node, m: Seq<char>, start: nat)
    requires
        numbered(n, m, start),
    ensures
        forall|j: int|
            0 <= j < preorder(n).len() ==> (#[trigger] preorder(n)[j]).id.local_id == start + j
                && preorder(n)[j].id.module.0@ == m,
    decreases n, 1nat, 0nat,
{
    let k = children(n.kind).len();
    lemma_numbered_children_preorder(n, m, k, start + 1);
    let p = preorder(n);
    let pc = preorder_children(n, k);
    assert forall|j: int| 0 <= j < p.len() implies (#[trigger] p[j]).id.local_id == start + j
        && p[j].id.module.0@ == m by {
        if j > 0 {
            assert(p[j] == pc[j - 1]);
        }
    }
}

proof fn lemma_numbered_children_preorder(n: Node, m: Seq<char>, k: nat, start: nat)
    requires
        k <= children(n.kind).len(),
        numbered_children(n, m, k, start),
    ensures
        forall|j: int|
            0 <= j < preorder_children(n, k).len() ==> (#[trigger] preorder_children(n, k)[j]).id.local_id
                == start + j && preorder_children(n, k)[j].id.module.0@ == m,
    decreases n, 0nat, k,
{
    if k > 0 {
        lemma_child_decreases(n, k - 1);
        let c = children(n.kind)[k - 1];
        let before = preorder_children(n, (k - 1) as nat);
        lemma_numbered_children_preorder(n, m, (k - 1) as nat, start);
        lemma_numbered_preorder(c, m, start + before.len());
        let all = preorder_children(n, k);
        assert(all == before + preorder(c));
        assert forall|j: int| 0 <= j < all.len() implies (#[trigger] all[j]).id.local_id == start
            + j && all[j].id.module.0@ == m by {
            if j >= before.len() {
                assert(all[j] == preorder(c)[j - before.len()]);
            }
        }
    }
}

/// Numbers the nodes of the tree under `node` in pre-order from `next`, as nodes of `module`;
/// `next` ends one past the last number given.
fn number_nodes(node: &mut Node, module: &ModuleName, next: &mut u32)
    requires
        child_counts_fit(*old(node)),
        *old(next) + preorder(*old(node)).len() <= u32::MAX,
    ensures
        numbered(*final(node), module.0@, *old(next) as nat),
        same_but_ids(*old(node), *final(node)),
        *final(next) == *old(next) + preorder(*old(node)).len(),
    decreases *old(node),
{
    let ghost orig = *node;
    let ghost start = *next;
    let ghost k = children(orig.kind).len();
    node.id = NodeId { module: ModuleName(module.0.clone()), local_id: *next };
    *next = *next + 1;
    proof {
        assert(same_frame(orig.kind, node.kind));
        lemma_children_frame(*node, orig, orig, module.0@, (start + 1) as nat, 0);
    }
    let mut i: usize = 0;
    loop
        invariant
            i <= k,
            orig == *old(node),
            k == children(orig.kind).len(),
            k == children(node.kind).len(),
            child_counts_fit(orig),
            start + preorder(orig).len() <= u32::MAX,
            preorder(orig) == seq![orig] + preorder_children(orig, k),
            node.id.module.0@ == module.0@,
            node.id.local_id == start,
            node.source == orig.source,
            same_frame(orig.kind, node.kind),
            forall|j: int| i <= j < k ==> #[trigger] children(node.kind)[j] == children(orig.kind)[j],
            same_children_but_ids(orig, *node, i as nat),
            numbered_children(*node, module.0@, i as nat, (start + 1) as nat),
            preorder_children(*node, i as nat).len() == preorder_children(orig, i as nat).len(),
            *next == start + 1 + preorder_children(orig, i as nat).len(),
        ensures
            i == k,
            node.id.module.0@ == module.0@,
            node.id.local_id == start,
            node.source == orig.source,
            same_frame(orig.kind, node.kind),
            k == children(node.kind).len(),
            same_children_but_ids(orig, *node, k),
            numbered_children(*node, module.0@, k, (start + 1) as nat),
            *next == start + 1 + preorder_children(orig, k).len(),
        decreases k - i,
    {
        let ghost before = *node;
        match node.child_at_index_mut(i) {
            Some(child) => {
                proof {
                    lemma_child_decreases(orig, i as int);
                    lemma_children_fit(orig, k, i as int);
                    assert(*child == children(orig.kind)[i as int]);
                    assert(preorder_children(orig, (i + 1) as nat) == preorder_children(orig, i as nat)
                        + preorder(children(orig.kind)[i as int]));
                    lemma_preorder_children_len(orig, (i + 1) as nat);
                    assert(decreases_to!(*old(node) => *child));
                }
                number_nodes(child, module, next);
                proof {
                    let after = *node;
                    assert forall|j: int| 0 <= j < i implies #[trigger] children(after.kind)[j]
                        == children(before.kind)[j] by {}
                    lemma_children_frame(after, before, orig, module.0@, (start + 1) as nat, i as nat);
                    let c = children(orig.kind)[i as int];
                    let c2 = children(after.kind)[i as int];
                    lemma_same_size(c, c2);
                    assert(children(after.kind)[i as int] == c2);
                }
                i = i + 1;
            },
            None => {
                break ;
            },
        }
    }
}

/// The nodes of the trees under the first `k` children number no more than the whole tree.
proof fn lemma_preorder_children_len(n: Node, k: nat)
    requires
        k <= children(n.kind).len(),
    ensures
        preorder_children(n, k).len() <= preorder_children(n, children(n.kind).len()).len(),
    decreases children(n.kind).len() - k,
{
    if k < children(n.kind).len() {
        lemma_preorder_children_len(n, k + 1);
    }
}

/// Numbers every node of the module's syntax tree, in pre-order from 0.
pub fn node_ids_phase(module: &ModuleName, ast: &mut Node)
    requires
        child_counts_fit(*old(ast)),
        preorder(*old(ast)).len() <= u32::MAX,
    ensures
        numbered(*final(ast), module.0@, 0),
        same_but_ids(*old(ast), *final(ast)),
        preorder(*final(ast)).len() == preorder(*old(ast)).len(),
        forall|j: int|
            0 <= j < preorder(*final(ast)).len() ==> (#[trigger] preorder(*final(ast))[j]).id.local_id
                == j && preorder(*final(ast))[j].id.module.0@ == module.0@,
{
    let mut next: u32 = 0;
    number_nodes(ast, module, &mut next);
    proof {
        lemma_numbered_preorder(*ast, module.0@, 0);
        lemma_same_size(*old(ast), *ast);
    }
}

} // verus!

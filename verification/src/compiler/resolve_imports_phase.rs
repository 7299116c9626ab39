use vstd::prelude::*;

use crate::ast::{child_counts_fit, derefs, preorder, ImportKind, Node, NodeKind};

use super::{resolved_from, ResolvedImport};

verus! {

/// The import statements among `s`, in order.
pub open spec fn imports_in(s: Seq<Node>) -> Seq<ImportKind>
    decreases s.len(),
{
    if s.len() == 0 {
        Seq::empty()
    } else {
        imports_in(s.drop_last()) + match s.last().kind {
            NodeKind::Import(k) => seq![k],
            _ => Seq::empty(),
        }
    }
}

/// The module's imports: one for each import statement of its syntax tree, in pre-order.
pub fn resolve_imports_phase(ast: &Node) -> (r: Vec<ResolvedImport>)
    requires
        child_counts_fit(*ast),
    ensures
        r@.len() == imports_in(preorder(*ast)).len(),
        forall|i: int| 0 <= i < r@.len() ==> resolved_from(#[trigger] r@[i], imports_in(preorder(*ast))[i]),
{
    let nodes = ast.iter();
    let ghost s = preorder(*ast);
    let mut imports: Vec<ResolvedImport> = Vec::new();
    let mut i: usize = 0;
    assert(s.take(0) =~= Seq::<Node>::empty());
    while i < nodes.len()
        invariant
            i <= nodes@.len(),
            derefs(nodes@) == s,
            imports@.len() == imports_in(s.take(i as int)).len(),
            forall|j: int|
                0 <= j < imports@.len() ==> resolved_from(
                    #[trigger] imports@[j],
                    imports_in(s.take(i as int))[j],
                ),
        decreases nodes.len() - i,
    {
        let n = nodes[i];
        assert(*n == s[i as int]);
        assert(s.take(i + 1).drop_last() =~= s.take(i as int));
        match &n.kind {
            NodeKind::Import(kind) => {
                imports.push(ResolvedImport::new(kind));
            },
            _ => {},
        }
        i = i + 1;
    }
    assert(s.take(nodes@.len() as int) =~= s);
    imports
}

} // verus!

use vstd::prelude::*;

use crate::ast::{child_counts_fit, derefs, preorder, Node, NodeKind};
use crate::exception::Exception;
use crate::string_utils::concat_str;

use super::resolve_imports_phase::imports_in;
use super::Input;

verus! {

/// The modules to compile before this one: the module of each import statement, in pre-order.
pub fn dependencies(ast: &Node) -> (r: Vec<Input>)
    requires
        child_counts_fit(*ast),
    ensures
        r@.len() == imports_in(preorder(*ast)).len(),
        forall|i: int|
            0 <= i < r@.len() ==> ((#[trigger] r@[i]) matches Input::ModuleName(m) && m@
                == imports_in(preorder(*ast))[i].spec_module_name()),
{
    let nodes = ast.iter();
    let ghost s = preorder(*ast);
    let mut out: Vec<Input> = Vec::new();
    let mut i: usize = 0;
    assert(s.take(0) =~= Seq::<Node>::empty());
    while i < nodes.len()
        invariant
            i <= nodes@.len(),
            derefs(nodes@) == s,
            out@.len() == imports_in(s.take(i as int)).len(),
            forall|j: int|
                0 <= j < out@.len() ==> ((#[trigger] out@[j]) matches Input::ModuleName(m) && m@
                    == imports_in(s.take(i as int))[j].spec_module_name()),
        decreases nodes.len() - i,
    {
        let n = nodes[i];
        assert(*n == s[i as int]);
        assert(s.take(i + 1).drop_last() =~= s.take(i as int));
        match &n.kind {
            NodeKind::Import(kind) => {
                out.push(Input::ModuleName(kind.module_name().to_owned()));
            },
            _ => {},
        }
        i = i + 1;
    }
    assert(s.take(nodes@.len() as int) =~= s);
    out
}

/// The error raised when a module that this one imports fails to compile.
pub fn dependency_failed(module_name: &str) -> (r: Exception)
    ensures
        r.message@ == "Failed to load dependency: "@ + module_name@,
        r.source is None,
{
    proof {
        reveal_strlit("Failed to load dependency: ");
    }
    Exception::new(concat_str("Failed to load dependency: ", module_name))
}

} // verus!

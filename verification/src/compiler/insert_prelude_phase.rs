use vstd::prelude::*;

use crate::ast::{ImportKind, Node, NodeId, NodeKind, Source, UNSPECIFIED_NODE_LOCAL_ID};
use crate::module::ModuleName;

verus! {

/// An import statement as texts.
pub enum ImportView {
    Module(Seq<char>),
    Field(Seq<char>, Seq<char>),
    AllFields(Seq<char>),
}

pub open spec fn import_view(k: ImportKind) -> ImportView {
    match k {
        ImportKind::Module { module_name } => ImportView::Module(module_name@),
        ImportKind::Field { module_name, field_name } => ImportView::Field(
            module_name@,
            field_name@,
        ),
        ImportKind::AllFields { module_name } => ImportView::AllFields(module_name@),
    }
}

/// The imports every module outside the standard library gets without asking.
pub open spec fn default_imports() -> Seq<ImportView> {
    seq![
        ImportView::Module("Std"@),
        ImportView::AllFields("Std/Assert"@),
        ImportView::AllFields("Std/Builtins"@),
        ImportView::AllFields("Std/Enum"@),
        ImportView::Field("Std/Range"@, "range"@),
        ImportView::Module("Std/Set"@),
        ImportView::Module("Std/Stream"@),
    ]
}

/// The imports every module outside the standard library gets without asking.
pub fn default_implicit_imports() -> (r: Vec<ImportKind>)
    ensures
        r@.len() == default_imports().len(),
        forall|i: int| 0 <= i < r@.len() ==> import_view(#[trigger] r@[i]) == default_imports()[i],
{
    proof {
        reveal_strlit("Std");
        reveal_strlit("Std/Assert");
        reveal_strlit("Std/Builtins");
        reveal_strlit("Std/Enum");
        reveal_strlit("Std/Range");
        reveal_strlit("range");
        reveal_strlit("Std/Set");
        reveal_strlit("Std/Stream");
    }
    let mut r = Vec::new();
    r.push(ImportKind::Module { module_name: "Std".to_owned() });
    r.push(ImportKind::AllFields { module_name: "Std/Assert".to_owned() });
    r.push(ImportKind::AllFields { module_name: "Std/Builtins".to_owned() });
    r.push(ImportKind::AllFields { module_name: "Std/Enum".to_owned() });
    r.push(
        ImportKind::Field { module_name: "Std/Range".to_owned(), field_name: "range".to_owned() },
    );
    r.push(ImportKind::Module { module_name: "Std/Set".to_owned() });
    r.push(ImportKind::Module { module_name: "Std/Stream".to_owned() });
    r
}

/// `n` is the statement of the prelude that imports `k`: a node not numbered yet, of no module,
/// located nowhere in the file `<prelude>`.
pub open spec fn prelude_statement(n: Node, k: ImportKind) -> bool {
    &&& n.kind == NodeKind::Import(k)
    &&& n.id.module.0@.len() == 0
    &&& n.id.local_id == UNSPECIFIED_NODE_LOCAL_ID
    &&& n.source.file@ == "<prelude>"@
    &&& n.source.line == 0
    &&& n.source.col == 0
}

/// Where the prelude goes among the module's statements: after a leading `module` statement.
pub open spec fn prelude_position(stmts: Seq<Node>) -> int {
    if stmts.len() > 0 && stmts[0].kind is Module {
        1
    } else {
        0
    }
}

impl ImportKind {
    /// A copy of the import.
    pub fn copy(&self) -> (r: ImportKind)
        ensures
            r == *self,
    {
        match self {
            ImportKind::Module { module_name } => ImportKind::Module {
                module_name: module_name.clone(),
            },
            ImportKind::Field { module_name, field_name } => ImportKind::Field {
                module_name: module_name.clone(),
                field_name: field_name.clone(),
            },
            ImportKind::AllFields { module_name } => ImportKind::AllFields {
                module_name: module_name.clone(),
            },
        }
    }
}

/// `after` is the module `before` with the implicit imports put at its start (after its
/// `module` statement, if it begins with one); an empty module, or one of the standard
/// library, stays as it is.
pub open spec fn prelude_inserted(
    module_name: Seq<char>,
    implicit_imports: Seq<ImportKind>,
    before_node: Node,
    after_node: Node,
) -> bool {
    &&& after_node.id == before_node.id
    &&& after_node.source == before_node.source
    &&& after_node.kind is SourceFile
    &&& ({
        let before = before_node.kind->SourceFile_0@;
        let after = after_node.kind->SourceFile_0@;
        let p = prelude_position(before);
        if (3 <= module_name.len() && module_name.take(3) == "Std"@) || before.len() == 0 {
            after == before
        } else {
            &&& after.len() == before.len() + implicit_imports.len()
            &&& after.take(p) == before.take(p)
            &&& after.skip(p + implicit_imports.len()) == before.skip(p)
            &&& forall|i: int|
                0 <= i < implicit_imports.len() ==> prelude_statement(
                    #[trigger] after[p + i],
                    implicit_imports[i],
                )
        }
    })
}

/// Puts the implicit imports at the start of a module outside the standard library (after its
/// `module` statement, if it begins with one).  An empty module, or one of the standard
/// library, is left as it is.
pub fn insert_prelude_phase(
    module_name: &ModuleName,
    implicit_imports: &Vec<ImportKind>,
    ast: &mut Node,
)
    requires
        old(ast).kind is SourceFile,
        old(ast).kind->SourceFile_0@.len() + implicit_imports@.len() <= usize::MAX,
    ensures
        prelude_inserted(module_name.0@, implicit_imports@, *old(ast), *final(ast)),
{
    if module_name.is_std() {
        return;
    }
    match &mut ast.kind {
        NodeKind::SourceFile(stmts) => {
            if stmts.len() == 0 {
                return;
            }
            let ghost before = stmts@;
            let index: usize = match &stmts[0].kind {
                NodeKind::Module(_) => 1,
                _ => 0,
            };
            let mut i: usize = 0;
            while i < implicit_imports.len()
                invariant
                    i <= implicit_imports@.len(),
                    index == prelude_position(before),
                    before.len() > 0,
                    before.len() + implicit_imports@.len() <= usize::MAX,
                    stmts@.len() == before.len() + i,
                    stmts@.take(index as int) == before.take(index as int),
                    stmts@.skip(index + i) == before.skip(index as int),
                    forall|j: int|
                        0 <= j < i ==> prelude_statement(
                            #[trigger] stmts@[index + j],
                            implicit_imports@[j],
                        ),
                decreases implicit_imports.len() - i,
            {
                proof {
                    reveal_strlit("<prelude>");
                }
                let node = Node {
                    id: NodeId {
                        module: ModuleName(String::new()),
                        local_id: UNSPECIFIED_NODE_LOCAL_ID,
                    },
                    kind: NodeKind::Import(implicit_imports[i].copy()),
                    source: Source { file: "<prelude>".to_owned(), line: 0, col: 0 },
                };
                let ghost s0 = stmts@;
                stmts.insert(index + i, node);
                proof {
                    assert(stmts@.take(index as int) =~= s0.take(index as int));
                    assert(stmts@.skip(index + i + 1) =~= s0.skip(index + i));
                    assert forall|j: int| 0 <= j < i + 1 implies prelude_statement(
                        #[trigger] stmts@[index + j],
                        implicit_imports@[j],
                    ) by {
                        if j < i {
                            assert(stmts@[index + j] == s0[index + j]);
                        }
                    }
                }
                i = i + 1;
            }
        },
        _ => {},
    }
}

} // verus!

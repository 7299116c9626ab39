use vstd::prelude::*;

use crate::ast::{children, lemma_child_decreases, preorder, ImportKind, Node, NodeKind};
use crate::exception::Exception;
use crate::module::last_component;
use crate::program::{module_position, Program};
use crate::scope::{ScopeKind, ScopeView};
use crate::struct_info::texts;
use crate::value::Val;
use crate::vm::function::UpvalueSource;

use super::emission::ident;
use super::variable::VariableAllocation;
use super::{ResolvedImport, ResolvedImportKind};

verus! {

/// What variable resolution reads: the module's name, its resolved imports, and the modules
/// compiled before it.
#[derive(Debug)]
pub struct ResolveContext {
    pub module_name: crate::module::ModuleName,
    pub imports: Vec<ResolvedImport>,
    pub program: Program,
}

/// The model of how compiled code reaches a variable.
pub enum AllocView {
    Global(Seq<char>, Seq<char>),
    Upvalue(UpvalueSource, nat),
    Local(nat),
}

pub open spec fn alloc_view(a: VariableAllocation) -> AllocView {
    match a {
        VariableAllocation::Global { module, name } => AllocView::Global(module.0@, name@),
        VariableAllocation::Upvalue { source, upvalue_index } => AllocView::Upvalue(
            source,
            upvalue_index as nat,
        ),
        VariableAllocation::Local { index } => AllocView::Local(index as nat),
    }
}

/// The model of an error: its message and where it was raised (file, line, column).
pub type ErrorView = (Seq<char>, Option<(Seq<char>, usize, usize)>);

/// The model of an exception.
pub open spec fn error_view(e: Exception) -> ErrorView {
    (
        e.message@,
        match e.source {
            Some(s) => Some((s.file@, s.line, s.col)),
            None => None,
        },
    )
}

/// The models of a list of exceptions.
pub open spec fn error_views(es: Seq<Exception>) -> Seq<ErrorView> {
    Seq::new(es.len(), |i: int| error_view(es[i]))
}

/// The error with the given message, raised at node `n`.
pub open spec fn error_at(message: Seq<char>, n: Node) -> ErrorView {
    (message, Some((n.source.file@, n.source.line, n.source.col)))
}

/// The model of resolution in progress: the open scopes (innermost last, each with the node
/// that opened it), then, as tables of facts by node, the closed scopes, where each variable
/// reference and definition is reached, the definitions (whether a closure captures them), the
/// references to imported modules; the module's exports and constants, and the errors found.
#[verifier::ext_equal]
pub struct RState {
    pub scopes: Seq<(u32, ScopeView)>,
    pub scope_tags: Seq<(u32, ScopeView)>,
    pub refs: Seq<(u32, AllocView)>,
    pub variables: Seq<(u32, bool)>,
    pub module_refs: Seq<(u32, Seq<char>)>,
    pub exports: Seq<Seq<char>>,
    pub constants: Seq<(Seq<char>, Val)>,
    pub errors: Seq<ErrorView>,
}

/// Only the module's top level is open (or nothing).
pub open spec fn is_global_scope(st: RState) -> bool {
    st.scopes.len() <= 1
}

/// Whether the last fact about `id` in `t` exists.
pub open spec fn has_tag<T>(t: Seq<(u32, T)>, id: u32) -> bool
    decreases t.len(),
{
    if t.len() == 0 {
        false
    } else {
        t.last().0 == id || has_tag(t.drop_last(), id)
    }
}

/// The value of the constant `name`, the last one given.
pub open spec fn constant_of(cs: Seq<(Seq<char>, Val)>, name: Seq<char>) -> Option<Val>
    decreases cs.len(),
{
    if cs.len() == 0 {
        None
    } else if cs.last().0 == name {
        Some(cs.last().1)
    } else {
        constant_of(cs.drop_last(), name)
    }
}

/// Defines `name` at node `n` in the innermost scope: a global at the top level, else the
/// scope's next slot.  A name the scope already defines is an error.  The flag tells whether the
/// name was defined.  `None` where resolution cannot go on: no open scope, or a frame too large
/// to count.
pub open spec fn defined(c: ResolveContext, st: RState, name: Seq<char>, n: Node) -> Option<
    (RState, bool),
> {
    if st.scopes.len() == 0 {
        None
    } else {
        let (sid, sv) = st.scopes.last();
        if sv.is_defined(name) {
            Some(
                (
                    RState {
                        errors: st.errors.push(error_at(name + " already defined"@, n)),
                        ..st
                    },
                    false,
                ),
            )
        } else {
            let sv2 = sv.define(name, n.id.local_id);
            if sv2.base_offset + sv2.indices.len() > usize::MAX {
                None
            } else {
                match sv2.index_of(name) {
                    Some(index) => Some(
                        (
                            RState {
                                scopes: st.scopes.update(st.scopes.len() - 1, (sid, sv2)),
                                refs: st.refs.push(
                                    (
                                        n.id.local_id,
                                        if is_global_scope(st) {
                                            AllocView::Global(c.module_name.0@, name)
                                        } else {
                                            AllocView::Local(index)
                                        },
                                    ),
                                ),
                                variables: st.variables.push((n.id.local_id, false)),
                                ..st
                            },
                            true,
                        ),
                    ),
                    None => None,
                }
            }
        }
    }
}

/// Defines a constant of the module's top level.
pub open spec fn defined_constant(
    c: ResolveContext,
    st: RState,
    name: Seq<char>,
    n: Node,
    v: Val,
) -> Option<RState> {
    if !is_global_scope(st) {
        None
    } else {
        match defined(c, st, name, n) {
            Some((st1, true)) => Some(RState { constants: st1.constants.push((name, v)), ..st1 }),
            Some((st1, false)) => Some(st1),
            None => None,
        }
    }
}

/// Where the upvalue that captures a variable reached by `a` comes from.
pub open spec fn upvalue_source(a: AllocView) -> UpvalueSource {
    match a {
        AllocView::Local(i) => UpvalueSource::Local { stack_index_relative_to_base: i as usize },
        AllocView::Upvalue(_, i) => UpvalueSource::Upvalue { upvalue_index: i as usize },
        AllocView::Global(_, _) => UpvalueSource::Upvalue { upvalue_index: 0 },
    }
}

/// Looks `name` up from open scope `k` outwards: how code in scope `k` reaches it, and the node
/// that defines it.  Reaching a local of an enclosing function captures it: the definition is
/// marked captured and the function of scope `k` gets an upvalue for it.
pub open spec fn looked_up(c: ResolveContext, st: RState, name: Seq<char>, k: nat) -> Option<
    (RState, Option<(AllocView, u32)>),
>
    decreases k,
{
    if k >= st.scopes.len() {
        None
    } else {
        let sv = st.scopes[k as int].1;
        match sv.definition_of(name) {
            Some(def) => if sv.kind == ScopeKind::Global {
                Some((st, Some((AllocView::Global(c.module_name.0@, name), def))))
            } else if sv.base_offset + sv.indices.len() > usize::MAX {
                None
            } else {
                match sv.index_of(name) {
                    Some(i) => Some((st, Some((AllocView::Local(i), def)))),
                    None => None,
                }
            },
            None => if k == 0 {
                Some((st, None))
            } else {
                match looked_up(c, st, name, (k - 1) as nat) {
                    None => None,
                    Some((st1, None)) => Some((st1, None)),
                    Some((st1, Some((a, def)))) => if !(a is Global)
                        && st1.scopes[k - 1].1.function != st1.scopes[k as int].1.function {
                        if !has_tag(st1.variables, def) {
                            None
                        } else {
                            let source = upvalue_source(a);
                            let (sv2, ui) = st1.scopes[k as int].1.with_upvalue(def, source);
                            Some(
                                (
                                    RState {
                                        variables: st1.variables.push((def, true)),
                                        scopes: st1.scopes.update(
                                            k as int,
                                            (st1.scopes[k as int].0, sv2),
                                        ),
                                        ..st1
                                    },
                                    Some((AllocView::Upvalue(source, ui), def)),
                                ),
                            )
                        }
                    } else {
                        Some((st1, Some((a, def))))
                    },
                }
            },
        }
    }
}

/// `name` as an imported name: the first import that provides it.  `None` where the imports
/// cannot be read: a module import named like the variable, or an imported module or field
/// that does not exist.
pub open spec fn imported(c: ResolveContext, imps: Seq<ResolvedImport>, name: Seq<char>) -> Option<
    Option<AllocView>,
>
    decreases imps.len(),
{
    if imps.len() == 0 {
        Some(None)
    } else {
        let ri = imps[0];
        let m = ri.module_name.0@;
        match ri.kind {
            ResolvedImportKind::Module => if last_component(m) == name {
                None
            } else {
                imported(c, imps.skip(1), name)
            },
            ResolvedImportKind::Field(f) => if f@ == name {
                match module_position(c.program.modules@, m) {
                    Some(i) => if texts(c.program.modules@[i].exports@).contains(name) {
                        Some(Some(AllocView::Global(m, name)))
                    } else {
                        None
                    },
                    None => None,
                }
            } else {
                imported(c, imps.skip(1), name)
            },
            ResolvedImportKind::AllFields => match module_position(c.program.modules@, m) {
                Some(i) => if texts(c.program.modules@[i].exports@).contains(name) {
                    Some(Some(AllocView::Global(m, name)))
                } else {
                    imported(c, imps.skip(1), name)
                },
                None => None,
            },
        }
    }
}

/// Looks `name` up from the innermost scope, then among the imports.
pub open spec fn lookup(c: ResolveContext, st: RState, name: Seq<char>) -> Option<
    (RState, Option<AllocView>),
> {
    if st.scopes.len() == 0 {
        None
    } else {
        match looked_up(c, st, name, (st.scopes.len() - 1) as nat) {
            None => None,
            Some((st1, Some((a, _)))) => Some((st1, Some(a))),
            Some((st1, None)) => match imported(c, c.imports@, name) {
                None => None,
                Some(r) => Some((st1, r)),
            },
        }
    }
}

/// Resolves the reference `n` to variable `name`: records how it is reached, and that it
/// names an imported module when a constant of that name holds one.  An unknown name is an
/// error.
pub open spec fn resolved_variable(
    c: ResolveContext,
    st: RState,
    n: Node,
    name: Seq<char>,
) -> Option<RState> {
    match lookup(c, st, name) {
        None => None,
        Some((st1, Some(a))) => {
            let st2 = RState { refs: st1.refs.push((n.id.local_id, a)), ..st1 };
            match constant_of(st2.constants, name) {
                Some(Val::Symbol(s)) => Some(
                    RState { module_refs: st2.module_refs.push((n.id.local_id, s)), ..st2 },
                ),
                Some(_) => None,
                None => Some(st2),
            }
        },
        Some((st1, None)) => Some(
            RState {
                errors: st1.errors.push(
                    error_at("cannot find value '"@ + name + "' in this scope"@, n),
                ),
                ..st1
            },
        ),
    }
}

/// Defines each variable a pattern names, in pre-order (`ps`).
pub open spec fn defined_in_pattern(c: ResolveContext, st: RState, ps: Seq<Node>) -> Option<RState>
    decreases ps.len(),
{
    if ps.len() == 0 {
        Some(st)
    } else {
        match defined_in_pattern(c, st, ps.drop_last()) {
            Some(st1) => match ps.last().kind {
                NodeKind::PatternIdentifier { identifier } => match ident(*identifier) {
                    Some(name) => match defined(c, st1, name, ps.last()) {
                        Some((st2, _)) => Some(st2),
                        None => None,
                    },
                    None => None,
                },
                _ => Some(st1),
            },
            None => None,
        }
    }
}

/// Resolves each variable a pattern assigns, in pre-order (`ps`).
pub open spec fn resolved_in_pattern(c: ResolveContext, st: RState, ps: Seq<Node>) -> Option<
    RState,
>
    decreases ps.len(),
{
    if ps.len() == 0 {
        Some(st)
    } else {
        match resolved_in_pattern(c, st, ps.drop_last()) {
            Some(st1) => match ps.last().kind {
                NodeKind::PatternIdentifier { identifier } => match ident(*identifier) {
                    Some(name) => resolved_variable(c, st1, ps.last(), name),
                    None => None,
                },
                _ => Some(st1),
            },
            None => None,
        }
    }
}

/// Defines a name of the top level, and exports it.
pub open spec fn hoisted_name(c: ResolveContext, st: RState, name: Seq<char>, n: Node) -> Option<
    RState,
> {
    match defined(c, st, name, n) {
        Some((st1, true)) => Some(RState { exports: st1.exports.push(name), ..st1 }),
        Some((st1, false)) => Some(st1),
        None => None,
    }
}

/// Hoists the variables a top-level pattern names (`ps`, in pre-order).
pub open spec fn hoisted_pattern(c: ResolveContext, st: RState, ps: Seq<Node>) -> Option<RState>
    decreases ps.len(),
{
    if ps.len() == 0 {
        Some(st)
    } else {
        match hoisted_pattern(c, st, ps.drop_last()) {
            Some(st1) => match ps.last().kind {
                NodeKind::PatternIdentifier { identifier } => match ident(*identifier) {
                    Some(name) => hoisted_name(c, st1, name, ps.last()),
                    None => None,
                },
                _ => Some(st1),
            },
            None => None,
        }
    }
}

/// Defines and exports what the top-level statements define (builtins, `let` and `var`)
/// before anything is resolved, so that they can be referred to before their definition.
pub open spec fn hoisted(c: ResolveContext, st: RState, stmts: Seq<Node>) -> Option<RState>
    decreases stmts.len(),
{
    if stmts.len() == 0 {
        Some(st)
    } else {
        match hoisted(c, st, stmts.drop_last()) {
            Some(st1) => {
                let n = stmts.last();
                match n.kind {
                    NodeKind::Builtin { identifier } => match ident(*identifier) {
                        Some(name) => hoisted_name(c, st1, name, n),
                        None => None,
                    },
                    NodeKind::Let { pattern, .. } => hoisted_pattern(c, st1, preorder(*pattern)),
                    NodeKind::Var { pattern, .. } => hoisted_pattern(c, st1, preorder(*pattern)),
                    _ => Some(st1),
                }
            },
            None => None,
        }
    }
}

/// Opens a block's scope within the innermost one.
pub open spec fn opened_child(st: RState, n: Node) -> Option<RState> {
    if st.scopes.len() == 0 {
        None
    } else {
        let parent = st.scopes.last().1;
        if parent.base_offset + parent.indices.len() > usize::MAX {
            None
        } else {
            Some(RState { scopes: st.scopes.push((n.id.local_id, parent.child())), ..st })
        }
    }
}

/// Takes an anonymous slot in the innermost scope; gives its index.
pub open spec fn anonymous_slot(st: RState) -> Option<(RState, nat)> {
    if st.scopes.len() == 0 {
        None
    } else {
        let (sid, sv) = st.scopes.last();
        if sv.base_offset + sv.indices.len() >= usize::MAX {
            None
        } else {
            Some(
                (
                    RState {
                        scopes: st.scopes.update(
                            st.scopes.len() - 1,
                            (sid, sv.with_anonymous_local()),
                        ),
                        ..st
                    },
                    sv.base_offset + sv.indices.len(),
                ),
            )
        }
    }
}

/// Defines a function's parameters (`args`) in its scope.
pub open spec fn defined_args(c: ResolveContext, st: RState, args: Seq<Node>) -> Option<RState>
    decreases args.len(),
{
    if args.len() == 0 {
        Some(st)
    } else {
        match defined_args(c, st, args.drop_last()) {
            Some(st1) => match ident(args.last()) {
                Some(name) => match defined(c, st1, name, args.last()) {
                    Some((st2, _)) => Some(st2),
                    None => None,
                },
                None => None,
            },
            None => None,
        }
    }
}

/// What entering node `n` does.
pub open spec fn entered(c: ResolveContext, st: RState, n: Node) -> Option<RState> {
    match n.kind {
        NodeKind::SourceFile(stmts) => hoisted(
            c,
            RState {
                scopes: st.scopes.push(
                    (n.id.local_id, ScopeView::empty(ScopeKind::Global, n.id.local_id, 0)),
                ),
                ..st
            },
            stmts@,
        ),
        NodeKind::Module(name) => defined_constant(
            c,
            st,
            last_component(name@),
            n,
            Val::Symbol(c.module_name.0@),
        ),
        NodeKind::Import(ImportKind::Module { module_name }) => defined_constant(
            c,
            st,
            last_component(module_name@),
            n,
            Val::Symbol(module_name@),
        ),
        NodeKind::Body(_) => opened_child(st, n),
        NodeKind::FunctionLiteral { arg_names, .. } => if st.scopes.len() == 0 {
            None
        } else {
            defined_args(
                c,
                RState {
                    scopes: st.scopes.push(
                        (n.id.local_id, ScopeView::empty(ScopeKind::Function, n.id.local_id, 0)),
                    ),
                    ..st
                },
                arg_names@,
            )
        },
        NodeKind::For { pattern, .. } => match opened_child(st, n) {
            Some(st1) => match anonymous_slot(st1) {
                Some((st2, iter_index)) => {
                    let st3 = RState {
                        refs: st2.refs.push((n.id.local_id, AllocView::Local(iter_index))),
                        ..st2
                    };
                    let st4 = if !(pattern.kind is PatternIdentifier) {
                        match anonymous_slot(st3) {
                            Some((st5, _)) => Some(st5),
                            None => None,
                        }
                    } else {
                        Some(st3)
                    };
                    match st4 {
                        Some(st5) => defined_in_pattern(c, st5, preorder(*pattern)),
                        None => None,
                    }
                },
                None => None,
            },
            None => None,
        },
        NodeKind::VariableRef { identifier } => match ident(*identifier) {
            Some(name) => resolved_variable(c, st, n, name),
            None => None,
        },
        NodeKind::Assignment { pattern, .. } => resolved_in_pattern(c, st, preorder(*pattern)),
        _ => Some(st),
    }
}

/// Closes the innermost scope; it becomes the fact about the node that opened it.
pub open spec fn closed(st: RState) -> Option<RState> {
    if st.scopes.len() == 0 {
        None
    } else {
        Some(
            RState {
                scopes: st.scopes.drop_last(),
                scope_tags: st.scope_tags.push(st.scopes.last()),
                ..st
            },
        )
    }
}

/// What leaving node `n` does: a scope closes, and below the top level `let` and `var` define
/// their variables (after their value, which cannot refer to them).
pub open spec fn exited(c: ResolveContext, st: RState, n: Node) -> Option<RState> {
    match n.kind {
        NodeKind::SourceFile(_) => closed(st),
        NodeKind::FunctionLiteral { .. } => closed(st),
        NodeKind::Body(_) => closed(st),
        NodeKind::For { .. } => closed(st),
        NodeKind::Let { pattern, .. } => if is_global_scope(st) {
            Some(st)
        } else {
            defined_in_pattern(c, st, preorder(*pattern))
        },
        NodeKind::Var { pattern, .. } => if is_global_scope(st) {
            Some(st)
        } else {
            defined_in_pattern(c, st, preorder(*pattern))
        },
        _ => Some(st),
    }
}

/// Resolution of the tree under `n`: entering `n`, the subtree of each child in order, then
/// leaving `n`.
pub open spec fn resolved(c: ResolveContext, n: Node, st: RState) -> Option<RState>
    decreases n, 1nat, 0nat,
{
    match entered(c, st, n) {
        Some(st1) => match resolved_children(c, n, children(n.kind).len(), st1) {
            Some(st2) => exited(c, st2, n),
            None => None,
        },
        None => None,
    }
}

/// Resolution of the subtrees of the first `k` children of `n`.
pub open spec fn resolved_children(c: ResolveContext, n: Node, k: nat, st: RState) -> Option<
    RState,
>
    decreases n, 0nat, k,
{
    if k == 0 || k > children(n.kind).len() {
        Some(st)
    } else {
        proof {
            lemma_child_decreases(n, k - 1);
        }
        match resolved_children(c, n, (k - 1) as nat, st) {
            Some(st1) => resolved(c, children(n.kind)[k - 1], st1),
            None => None,
        }
    }
}

/// `st2` comes from `st` by resolution steps that leave `d` more scopes open: the errors of
/// `st` are still the first errors of `st2`.
pub open spec fn grows_by(st: RState, st2: RState, d: int) -> bool {
    &&& st2.scopes.len() == st.scopes.len() + d
    &&& st.errors.len() <= st2.errors.len()
    &&& forall|i: int| 0 <= i < st.errors.len() ==> #[trigger] st2.errors[i] == st.errors[i]
}

/// The nodes whose resolution opens a scope (closed when the node is left).
pub open spec fn opens_scope(n: Node) -> bool {
    n.kind is SourceFile || n.kind is FunctionLiteral || n.kind is Body || n.kind is For
}

proof fn lemma_defined_grows(c: ResolveContext, st: RState, name: Seq<char>, n: Node)
    ensures
        defined(c, st, name, n) matches Some((st2, _)) ==> grows_by(st, st2, 0),
{
}

proof fn lemma_looked_up_grows(c: ResolveContext, st: RState, name: Seq<char>, k: nat)
    ensures
        looked_up(c, st, name, k) matches Some((st2, _)) ==> grows_by(st, st2, 0),
    decreases k,
{
    if k > 0 {
        lemma_looked_up_grows(c, st, name, (k - 1) as nat);
    }
}

proof fn lemma_resolved_variable_grows(c: ResolveContext, st: RState, n: Node, name: Seq<char>)
    ensures
        resolved_variable(c, st, n, name) matches Some(st2) ==> grows_by(st, st2, 0),
{
    if st.scopes.len() > 0 {
        lemma_looked_up_grows(c, st, name, (st.scopes.len() - 1) as nat);
    }
}

proof fn lemma_defined_in_pattern_grows(c: ResolveContext, st: RState, ps: Seq<Node>)
    ensures
        defined_in_pattern(c, st, ps) matches Some(st2) ==> grows_by(st, st2, 0),
    decreases ps.len(),
{
    if ps.len() > 0 {
        lemma_defined_in_pattern_grows(c, st, ps.drop_last());
        if let Some(st1) = defined_in_pattern(c, st, ps.drop_last()) {
            if let NodeKind::PatternIdentifier { identifier } = ps.last().kind {
                if let Some(name) = ident(*identifier) {
                    lemma_defined_grows(c, st1, name, ps.last());
                }
            }
        }
    }
}

proof fn lemma_resolved_in_pattern_grows(c: ResolveContext, st: RState, ps: Seq<Node>)
    ensures
        resolved_in_pattern(c, st, ps) matches Some(st2) ==> grows_by(st, st2, 0),
    decreases ps.len(),
{
    if ps.len() > 0 {
        lemma_resolved_in_pattern_grows(c, st, ps.drop_last());
        if let Some(st1) = resolved_in_pattern(c, st, ps.drop_last()) {
            if let NodeKind::PatternIdentifier { identifier } = ps.last().kind {
                if let Some(name) = ident(*identifier) {
                    lemma_resolved_variable_grows(c, st1, ps.last(), name);
                }
            }
        }
    }
}

proof fn lemma_hoisted_pattern_grows(c: ResolveContext, st: RState, ps: Seq<Node>)
    ensures
        hoisted_pattern(c, st, ps) matches Some(st2) ==> grows_by(st, st2, 0),
    decreases ps.len(),
{
    if ps.len() > 0 {
        lemma_hoisted_pattern_grows(c, st, ps.drop_last());
        if let Some(st1) = hoisted_pattern(c, st, ps.drop_last()) {
            if let NodeKind::PatternIdentifier { identifier } = ps.last().kind {
                if let Some(name) = ident(*identifier) {
                    lemma_defined_grows(c, st1, name, ps.last());
                }
            }
        }
    }
}

proof fn lemma_hoisted_grows(c: ResolveContext, st: RState, stmts: Seq<Node>)
    ensures
        hoisted(c, st, stmts) matches Some(st2) ==> grows_by(st, st2, 0),
    decreases stmts.len(),
{
    if stmts.len() > 0 {
        lemma_hoisted_grows(c, st, stmts.drop_last());
        if let Some(st1) = hoisted(c, st, stmts.drop_last()) {
            let n = stmts.last();
            match n.kind {
                NodeKind::Builtin { identifier } => {
                    if let Some(name) = ident(*identifier) {
                        lemma_defined_grows(c, st1, name, n);
                    }
                },
                NodeKind::Let { pattern, .. } => {
                    lemma_hoisted_pattern_grows(c, st1, preorder(*pattern));
                },
                NodeKind::Var { pattern, .. } => {
                    lemma_hoisted_pattern_grows(c, st1, preorder(*pattern));
                },
                _ => {},
            }
        }
    }
}

proof fn lemma_defined_args_grows(c: ResolveContext, st: RState, args: Seq<Node>)
    ensures
        defined_args(c, st, args) matches Some(st2) ==> grows_by(st, st2, 0),
    decreases args.len(),
{
    if args.len() > 0 {
        lemma_defined_args_grows(c, st, args.drop_last());
        if let Some(st1) = defined_args(c, st, args.drop_last()) {
            if let Some(name) = ident(args.last()) {
                lemma_defined_grows(c, st1, name, args.last());
            }
        }
    }
}

proof fn lemma_entered_grows(c: ResolveContext, st: RState, n: Node)
    ensures
        entered(c, st, n) matches Some(st2) ==> grows_by(
            st,
            st2,
            if opens_scope(n) {
                1
            } else {
                0
            },
        ),
{
    match n.kind {
        NodeKind::SourceFile(stmts) => {
            let st1 = RState {
                scopes: st.scopes.push(
                    (n.id.local_id, ScopeView::empty(ScopeKind::Global, n.id.local_id, 0)),
                ),
                ..st
            };
            lemma_hoisted_grows(c, st1, stmts@);
        },
        NodeKind::Module(name) => {
            lemma_defined_grows(c, st, last_component(name@), n);
        },
        NodeKind::Import(ImportKind::Module { module_name }) => {
            lemma_defined_grows(c, st, last_component(module_name@), n);
        },
        NodeKind::FunctionLiteral { arg_names, .. } => {
            let st1 = RState {
                scopes: st.scopes.push(
                    (n.id.local_id, ScopeView::empty(ScopeKind::Function, n.id.local_id, 0)),
                ),
                ..st
            };
            lemma_defined_args_grows(c, st1, arg_names@);
        },
        NodeKind::For { pattern, .. } => {
            if let Some(st1) = opened_child(st, n) {
                if let Some((st2, iter_index)) = anonymous_slot(st1) {
                    let st3 = RState {
                        refs: st2.refs.push((n.id.local_id, AllocView::Local(iter_index))),
                        ..st2
                    };
                    let st4 = if !(pattern.kind is PatternIdentifier) {
                        match anonymous_slot(st3) {
                            Some((st5, _)) => Some(st5),
                            None => None,
                        }
                    } else {
                        Some(st3)
                    };
                    if let Some(st5) = st4 {
                        lemma_defined_in_pattern_grows(c, st5, preorder(*pattern));
                    }
                }
            }
        },
        NodeKind::VariableRef { identifier } => {
            if let Some(name) = ident(*identifier) {
                lemma_resolved_variable_grows(c, st, n, name);
            }
        },
        NodeKind::Assignment { pattern, .. } => {
            lemma_resolved_in_pattern_grows(c, st, preorder(*pattern));
        },
        _ => {},
    }
}

proof fn lemma_exited_grows(c: ResolveContext, st: RState, n: Node)
    ensures
        exited(c, st, n) matches Some(st2) ==> grows_by(
            st,
            st2,
            if opens_scope(n) {
                -1
            } else {
                0
            },
        ),
{
    match n.kind {
        NodeKind::Let { pattern, .. } => {
            lemma_defined_in_pattern_grows(c, st, preorder(*pattern));
        },
        NodeKind::Var { pattern, .. } => {
            lemma_defined_in_pattern_grows(c, st, preorder(*pattern));
        },
        _ => {},
    }
}

/// Resolving a subtree leaves as many scopes open as before, and only adds errors to those
/// found before.
pub proof fn lemma_resolved_balanced(c: ResolveContext, n: Node, st: RState)
    ensures
        resolved(c, n, st) matches Some(st2) ==> grows_by(st, st2, 0),
    decreases n, 1nat, 0nat,
{
    lemma_entered_grows(c, st, n);
    if let Some(st1) = entered(c, st, n) {
        lemma_resolved_children_balanced(c, n, children(n.kind).len(), st1);
        if let Some(st2) = resolved_children(c, n, children(n.kind).len(), st1) {
            lemma_exited_grows(c, st2, n);
        }
    }
}

proof fn lemma_resolved_children_balanced(c: ResolveContext, n: Node, k: nat, st: RState)
    ensures
        resolved_children(c, n, k, st) matches Some(st2) ==> grows_by(st, st2, 0),
    decreases n, 0nat, k,
{
    if k > 0 && k <= children(n.kind).len() {
        lemma_child_decreases(n, k - 1);
        lemma_resolved_children_balanced(c, n, (k - 1) as nat, st);
        if let Some(st1) = resolved_children(c, n, (k - 1) as nat, st) {
            lemma_resolved_balanced(c, children(n.kind)[k - 1], st1);
        }
    }
}

} // verus!

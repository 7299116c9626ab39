use vstd::prelude::*;

use crate::ast::{
    child_counts_fit, children, derefs, lemma_child_decreases, lemma_children_fit, preorder,
    ImportKind, Node, NodeKind,
};
use crate::exception::Exception;
use crate::module::{last_component, ModuleName};
use crate::program::module_position;
use crate::scope::{Scope, ScopeKind, ScopeView};
use crate::string_utils::concat_str;
use crate::struct_info::{contains_text, texts};
use crate::value::{Val, Value};
use crate::vm::function::UpvalueSource;

use super::emission::ident;
use super::resolution::{
    alloc_view, anonymous_slot, closed, constant_of, defined, defined_args, defined_constant,
    defined_in_pattern, entered, error_at, error_view, exited, has_tag, hoisted, hoisted_name,
    hoisted_pattern, imported, is_global_scope, lemma_resolved_balanced, looked_up, lookup,
    opened_child, resolved, resolved_children, resolved_in_pattern, resolved_variable,
    upvalue_source, AllocView, ErrorView, RState, ResolveContext,
};
use super::tags::Tags;
use super::variable::{Variable, VariableAllocation, VariableRef};
use super::{ModuleReference, ResolvedImportKind};

verus! {

/// What variable resolution produces (facts about nodes, the module's exports and constants,
/// the errors found), and the scopes open while it runs.
#[derive(Debug)]
pub struct Resolution {
    pub scopes: Vec<(u32, Scope)>,
    pub tags: Tags,
    pub exports: Vec<String>,
    pub constants: Vec<(String, Value)>,
    pub errors: Vec<Exception>,
}

impl Resolution {
    pub open spec fn model(&self) -> RState {
        RState {
            scopes: Seq::new(
                self.scopes@.len(),
                |i: int| (self.scopes@[i].0, self.scopes@[i].1@),
            ),
            scope_tags: Seq::new(
                self.tags.scopes.entries@.len(),
                |i: int| (self.tags.scopes.entries@[i].0, self.tags.scopes.entries@[i].1@),
            ),
            refs: Seq::new(
                self.tags.variable_refs.entries@.len(),
                |i: int|
                    (
                        self.tags.variable_refs.entries@[i].0,
                        alloc_view(self.tags.variable_refs.entries@[i].1.allocation),
                    ),
            ),
            variables: Seq::new(
                self.tags.variables.entries@.len(),
                |i: int|
                    (self.tags.variables.entries@[i].0, self.tags.variables.entries@[i].1.closed_over),
            ),
            module_refs: Seq::new(
                self.tags.module_refs.entries@.len(),
                |i: int|
                    (
                        self.tags.module_refs.entries@[i].0,
                        self.tags.module_refs.entries@[i].1.module_name.0@,
                    ),
            ),
            exports: texts(self.exports@),
            constants: Seq::new(
                self.constants@.len(),
                |i: int| (self.constants@[i].0@, self.constants@[i].1@),
            ),
            errors: Seq::new(self.errors@.len(), |i: int| error_view(self.errors@[i])),
        }
    }

    /// Nothing resolved yet, with the facts `tags` already known.
    pub fn new(tags: Tags) -> (r: Resolution)
        ensures
            r.tags == tags,
            r.scopes@.len() == 0,
            r.exports@.len() == 0,
            r.constants@.len() == 0,
            r.errors@.len() == 0,
    {
        Resolution {
            scopes: Vec::new(),
            tags,
            exports: Vec::new(),
            constants: Vec::new(),
            errors: Vec::new(),
        }
    }

    fn push_error(&mut self, e: Exception)
        ensures
            final(self).scopes == old(self).scopes,
            final(self).model() == (RState {
                errors: old(self).model().errors.push(error_view(e)),
                ..old(self).model()
            }),
    {
        let ghost v = error_view(e);
        self.errors.push(e);
        assert(self.model() =~= (RState { errors: old(self).model().errors.push(v), ..old(self).model() }));
    }

    fn push_ref(&mut self, id: u32, allocation: VariableAllocation)
        ensures
            final(self).scopes == old(self).scopes,
            final(self).model() == (RState {
                refs: old(self).model().refs.push((id, alloc_view(allocation))),
                ..old(self).model()
            }),
    {
        let ghost a = alloc_view(allocation);
        self.tags.variable_refs.entries.push((id, VariableRef::new(allocation)));
        assert(self.model() =~= (RState {
            refs: old(self).model().refs.push((id, a)),
            ..old(self).model()
        }));
    }

    fn push_variable(&mut self, id: u32, closed_over: bool)
        ensures
            final(self).scopes == old(self).scopes,
            final(self).model() == (RState {
                variables: old(self).model().variables.push((id, closed_over)),
                ..old(self).model()
            }),
    {
        self.tags.variables.entries.push((id, Variable { closed_over }));
        assert(self.model() =~= (RState {
            variables: old(self).model().variables.push((id, closed_over)),
            ..old(self).model()
        }));
    }

    fn push_module_ref(&mut self, id: u32, module: String)
        ensures
            final(self).scopes == old(self).scopes,
            final(self).model() == (RState {
                module_refs: old(self).model().module_refs.push((id, module@)),
                ..old(self).model()
            }),
    {
        let ghost m = module@;
        self.tags.module_refs.entries.push((id, ModuleReference { module_name: ModuleName(module) }));
        assert(self.model() =~= (RState {
            module_refs: old(self).model().module_refs.push((id, m)),
            ..old(self).model()
        }));
    }

    fn push_export(&mut self, name: &str)
        ensures
            final(self).scopes == old(self).scopes,
            final(self).model() == (RState {
                exports: old(self).model().exports.push(name@),
                ..old(self).model()
            }),
    {
        self.exports.push(name.to_owned());
        assert(self.model() =~= (RState {
            exports: old(self).model().exports.push(name@),
            ..old(self).model()
        }));
    }

    fn push_constant(&mut self, name: &str, v: Value)
        ensures
            final(self).scopes == old(self).scopes,
            final(self).model() == (RState {
                constants: old(self).model().constants.push((name@, v@)),
                ..old(self).model()
            }),
    {
        let ghost vv = v@;
        self.constants.push((name.to_owned(), v));
        assert(self.model() =~= (RState {
            constants: old(self).model().constants.push((name@, vv)),
            ..old(self).model()
        }));
    }

    fn push_scope(&mut self, id: u32, scope: Scope)
        ensures
            final(self).model() == (RState {
                scopes: old(self).model().scopes.push((id, scope@)),
                ..old(self).model()
            }),
    {
        let ghost v = scope@;
        self.scopes.push((id, scope));
        assert(self.model() =~= (RState {
            scopes: old(self).model().scopes.push((id, v)),
            ..old(self).model()
        }));
    }

    /// Closes the innermost scope; it becomes the fact about the node that opened it.
    fn close_scope(&mut self)
        requires
            closed(old(self).model()) is Some,
        ensures
            Some(final(self).model()) == closed(old(self).model()),
    {
        match self.scopes.pop() {
            Some((id, scope)) => {
                let ghost v = scope@;
                self.tags.scopes.entries.push((id, scope));
                assert(self.model() =~= closed(old(self).model())->Some_0);
            },
            None => {},
        }
    }

    /// The number of open scopes.
    fn depth(&self) -> (r: usize)
        ensures
            r == self.model().scopes.len(),
    {
        self.scopes.len()
    }

    /// Defines `name` at node `n` in the innermost scope (see `defined`); tells whether it was
    /// defined.
    fn define(&mut self, c: &ResolveContext, name: &str, n: &Node) -> (r: bool)
        requires
            defined(*c, old(self).model(), name@, *n) is Some,
        ensures
            defined(*c, old(self).model(), name@, *n) == Some((final(self).model(), r)),
    {
        let ghost st = self.model();
        let k = self.scopes.len() - 1;
        if self.scopes[k].1.is_defined(name) {
            proof {
                reveal_strlit(" already defined");
            }
            let message = concat_str(name, " already defined");
            self.push_error(Exception::at_node(n, message.as_str()));
            return false;
        }
        let global = self.scopes.len() <= 1;
        let ghost sv = st.scopes[k as int].1;
        assert(sv == self.scopes@[k as int].1@);
        self.scopes[k].1.define(name, n.id.local_id);
        proof {
            sv.define(name@, n.id.local_id).lemma_index_of(name@);
        }
        let index = match self.scopes[k].1.get_index(name) {
            Some(i) => i,
            None => {
                return false;
            },
        };
        assert(index as nat == sv.define(name@, n.id.local_id).index_of(name@)->Some_0);
        assert(self.model() =~= (RState {
            scopes: st.scopes.update(k as int, (st.scopes[k as int].0, sv.define(name@, n.id.local_id))),
            ..st
        }));
        let allocation = if global {
            VariableAllocation::Global {
                module: ModuleName(c.module_name.0.clone()),
                name: name.to_owned(),
            }
        } else {
            VariableAllocation::Local { index }
        };
        self.push_ref(n.id.local_id, allocation);
        self.push_variable(n.id.local_id, false);
        true
    }

    fn define_constant(&mut self, c: &ResolveContext, name: &str, n: &Node, v: Value)
        requires
            defined_constant(*c, old(self).model(), name@, *n, v@) is Some,
        ensures
            defined_constant(*c, old(self).model(), name@, *n, v@) == Some(final(self).model()),
    {
        if self.define(c, name, n) {
            self.push_constant(name, v);
        }
    }

    /// Looks `name` up from open scope `k` outwards (see `looked_up`).
    fn lookup_in_scope(&mut self, c: &ResolveContext, name: &str, k: usize) -> (r: Option<
        (VariableAllocation, u32),
    >)
        requires
            looked_up(*c, old(self).model(), name@, k as nat) is Some,
        ensures
            looked_up(*c, old(self).model(), name@, k as nat) == Some(
                (
                    final(self).model(),
                    match r {
                        Some((a, d)) => Some((alloc_view(a), d)),
                        None => None,
                    },
                ),
            ),
            final(self).scopes@.len() == old(self).scopes@.len(),
        decreases k,
    {
        let ghost st = self.model();
        assert(st.scopes[k as int].1 == self.scopes@[k as int].1@);
        proof {
            st.scopes[k as int].1.lemma_index_of(name@);
        }
        match self.scopes[k].1.get_node_id(name) {
            Some(def) => {
                if self.scopes[k].1.kind == ScopeKind::Global {
                    return Some(
                        (
                            VariableAllocation::Global {
                                module: ModuleName(c.module_name.0.clone()),
                                name: name.to_owned(),
                            },
                            def,
                        ),
                    );
                }
                match self.scopes[k].1.get_index(name) {
                    Some(i) => Some((VariableAllocation::Local { index: i }, def)),
                    None => None,
                }
            },
            None => {
                if k == 0 {
                    return None;
                }
                match self.lookup_in_scope(c, name, k - 1) {
                    None => None,
                    Some((allocation, def)) => {
                        let ghost st1 = self.model();
                        if !allocation.is_global() && self.scopes[k - 1].1.function
                            != self.scopes[k].1.function {
                            let source = match allocation {
                                VariableAllocation::Local { index } => UpvalueSource::Local {
                                    stack_index_relative_to_base: index,
                                },
                                VariableAllocation::Upvalue { source: _, upvalue_index } =>
                                    UpvalueSource::Upvalue { upvalue_index },
                                VariableAllocation::Global { .. } => UpvalueSource::Upvalue {
                                    upvalue_index: 0,
                                },
                            };
                            assert(source == upvalue_source(alloc_view(allocation)));
                            self.push_variable(def, true);
                            assert(st1.scopes[k as int].1 == self.scopes@[k as int].1@);
                            let upvalue_index = self.scopes[k].1.get_or_allocate_upvalue(
                                def,
                                &source,
                            );
                            assert(self.model() =~= (RState {
                                variables: st1.variables.push((def, true)),
                                scopes: st1.scopes.update(
                                    k as int,
                                    (
                                        st1.scopes[k as int].0,
                                        st1.scopes[k as int].1.with_upvalue(def, source).0,
                                    ),
                                ),
                                ..st1
                            }));
                            Some((VariableAllocation::Upvalue { source, upvalue_index }, def))
                        } else {
                            Some((allocation, def))
                        }
                    },
                }
            },
        }
    }

    /// `name` as an imported name: the first import that provides it.
    #[verifier::spinoff_prover]
    #[verifier::rlimit(40)]
    fn lookup_imported(&self, c: &ResolveContext, name: &str) -> (r: Option<VariableAllocation>)
        requires
            imported(*c, c.imports@, name@) is Some,
        ensures
            imported(*c, c.imports@, name@) == Some(
                match r {
                    Some(a) => Some(alloc_view(a)),
                    None => None,
                },
            ),
    {
        let ghost imps = c.imports@;
        let mut i: usize = 0;
        assert(imps.skip(0) =~= imps);
        while i < c.imports.len()
            invariant
                i <= imps.len(),
                imps == c.imports@,
                imported(*c, imps, name@) == imported(*c, imps.skip(i as int), name@),
                imported(*c, imps, name@) is Some,
            decreases c.imports.len() - i,
        {
            let ri = &c.imports[i];
            assert(imps.skip(i as int)[0] == imps[i as int]);
            assert(imps.skip(i as int).skip(1) =~= imps.skip(i + 1));
            match &ri.kind {
                ResolvedImportKind::Module => {},
                ResolvedImportKind::Field(f) => {
                    if same_text(f.as_str(), name) {
                        return Some(
                            VariableAllocation::Global {
                                module: ModuleName(ri.module_name.0.clone()),
                                name: name.to_owned(),
                            },
                        );
                    }
                },
                ResolvedImportKind::AllFields => {
                    match c.program.get_module(ri.module_name.0.as_str()) {
                        Some(module) => {
                            if contains_text(&module.exports, name) {
                                return Some(
                                    VariableAllocation::Global {
                                        module: ModuleName(ri.module_name.0.clone()),
                                        name: name.to_owned(),
                                    },
                                );
                            }
                        },
                        None => {},
                    }
                },
            }
            i = i + 1;
        }
        None
    }

    /// Looks `name` up from the innermost scope, then among the imports.
    fn lookup(&mut self, c: &ResolveContext, name: &str) -> (r: Option<VariableAllocation>)
        requires
            lookup(*c, old(self).model(), name@) is Some,
        ensures
            lookup(*c, old(self).model(), name@) == Some(
                (
                    final(self).model(),
                    match r {
                        Some(a) => Some(alloc_view(a)),
                        None => None,
                    },
                ),
            ),
    {
        let k = self.scopes.len() - 1;
        match self.lookup_in_scope(c, name, k) {
            Some((allocation, _)) => Some(allocation),
            None => self.lookup_imported(c, name),
        }
    }

    /// Resolves the reference `n` to variable `name` (see `resolved_variable`).
    fn resolve_variable(&mut self, c: &ResolveContext, n: &Node, name: &str)
        requires
            resolved_variable(*c, old(self).model(), *n, name@) is Some,
        ensures
            resolved_variable(*c, old(self).model(), *n, name@) == Some(final(self).model()),
    {
        match self.lookup(c, name) {
            Some(allocation) => {
                self.push_ref(n.id.local_id, allocation);
                match get_constant(&self.constants, name) {
                    Some(Value::Symbol(s)) => {
                        let s = s.clone();
                        self.push_module_ref(n.id.local_id, s);
                    },
                    _ => {},
                }
            },
            None => {
                proof {
                    reveal_strlit("cannot find value '");
                    reveal_strlit("' in this scope");
                }
                let a = concat_str("cannot find value '", name);
                let message = concat_str(a.as_str(), "' in this scope");
                self.push_error(Exception::at_node(n, message.as_str()));
            },
        }
    }

    /// Defines each variable the pattern names.
    #[verifier::spinoff_prover]
    #[verifier::rlimit(40)]
    fn define_all_in_pattern(&mut self, c: &ResolveContext, pattern: &Node)
        requires
            child_counts_fit(*pattern),
            defined_in_pattern(*c, old(self).model(), preorder(*pattern)) is Some,
        ensures
            defined_in_pattern(*c, old(self).model(), preorder(*pattern)) == Some(
                final(self).model(),
            ),
    {
        let nodes = pattern.iter();
        let ghost s = preorder(*pattern);
        let ghost st = self.model();
        let mut i: usize = 0;
        assert(s.take(0) =~= Seq::<Node>::empty());
        while i < nodes.len()
            invariant
                i <= nodes@.len(),
                derefs(nodes@) == s,
                defined_in_pattern(*c, st, s) is Some,
                defined_in_pattern(*c, st, s.take(i as int)) == Some(self.model()),
            decreases nodes.len() - i,
        {
            proof {
                lemma_defined_in_pattern_prefix(*c, st, s, i + 1);
                assert(s.take(i + 1).drop_last() =~= s.take(i as int));
            }
            let n = nodes[i];
            assert(*n == s[i as int]);
            match &n.kind {
                NodeKind::PatternIdentifier { identifier } => match &identifier.kind {
                    NodeKind::Identifier(name) => {
                        self.define(c, name.as_str(), n);
                    },
                    _ => {},
                },
                _ => {},
            }
            i = i + 1;
        }
        assert(s.take(nodes@.len() as int) =~= s);
    }

    /// Resolves each variable the pattern assigns.
    #[verifier::spinoff_prover]
    #[verifier::rlimit(40)]
    fn resolve_all_in_pattern(&mut self, c: &ResolveContext, pattern: &Node)
        requires
            child_counts_fit(*pattern),
            resolved_in_pattern(*c, old(self).model(), preorder(*pattern)) is Some,
        ensures
            resolved_in_pattern(*c, old(self).model(), preorder(*pattern)) == Some(
                final(self).model(),
            ),
    {
        let nodes = pattern.iter();
        let ghost s = preorder(*pattern);
        let ghost st = self.model();
        let mut i: usize = 0;
        assert(s.take(0) =~= Seq::<Node>::empty());
        while i < nodes.len()
            invariant
                i <= nodes@.len(),
                derefs(nodes@) == s,
                resolved_in_pattern(*c, st, s) is Some,
                resolved_in_pattern(*c, st, s.take(i as int)) == Some(self.model()),
            decreases nodes.len() - i,
        {
            proof {
                lemma_resolved_in_pattern_prefix(*c, st, s, i + 1);
                assert(s.take(i + 1).drop_last() =~= s.take(i as int));
            }
            let n = nodes[i];
            assert(*n == s[i as int]);
            match &n.kind {
                NodeKind::PatternIdentifier { identifier } => match &identifier.kind {
                    NodeKind::Identifier(name) => {
                        self.resolve_variable(c, n, name.as_str());
                    },
                    _ => {},
                },
                _ => {},
            }
            i = i + 1;
        }
        assert(s.take(nodes@.len() as int) =~= s);
    }

    /// Defines and exports a name of the top level.
    fn hoist_name(&mut self, c: &ResolveContext, name: &str, n: &Node)
        requires
            hoisted_name(*c, old(self).model(), name@, *n) is Some,
        ensures
            hoisted_name(*c, old(self).model(), name@, *n) == Some(final(self).model()),
    {
        if self.define(c, name, n) {
            self.push_export(name);
        }
    }

    /// Hoists the variables a top-level pattern names.
    #[verifier::spinoff_prover]
    #[verifier::rlimit(40)]
    fn hoist_pattern(&mut self, c: &ResolveContext, pattern: &Node)
        requires
            child_counts_fit(*pattern),
            hoisted_pattern(*c, old(self).model(), preorder(*pattern)) is Some,
        ensures
            hoisted_pattern(*c, old(self).model(), preorder(*pattern)) == Some(final(self).model()),
    {
        let nodes = pattern.iter();
        let ghost s = preorder(*pattern);
        let ghost st = self.model();
        let mut i: usize = 0;
        assert(s.take(0) =~= Seq::<Node>::empty());
        while i < nodes.len()
            invariant
                i <= nodes@.len(),
                derefs(nodes@) == s,
                hoisted_pattern(*c, st, s) is Some,
                hoisted_pattern(*c, st, s.take(i as int)) == Some(self.model()),
            decreases nodes.len() - i,
        {
            proof {
                lemma_hoisted_pattern_prefix(*c, st, s, i + 1);
                assert(s.take(i + 1).drop_last() =~= s.take(i as int));
            }
            let n = nodes[i];
            assert(*n == s[i as int]);
            match &n.kind {
                NodeKind::PatternIdentifier { identifier } => match &identifier.kind {
                    NodeKind::Identifier(name) => {
                        self.hoist_name(c, name.as_str(), n);
                    },
                    _ => {},
                },
                _ => {},
            }
            i = i + 1;
        }
        assert(s.take(nodes@.len() as int) =~= s);
    }

    /// Hoists what the top-level statements define.
    #[verifier::spinoff_prover]
    #[verifier::rlimit(40)]
    fn hoist_variables(&mut self, c: &ResolveContext, stmts: &Vec<Node>)
        requires
            forall|j: int| 0 <= j < stmts@.len() ==> child_counts_fit(#[trigger] stmts@[j]),
            hoisted(*c, old(self).model(), stmts@) is Some,
        ensures
            hoisted(*c, old(self).model(), stmts@) == Some(final(self).model()),
    {
        let ghost st = self.model();
        let mut i: usize = 0;
        assert(stmts@.take(0) =~= Seq::<Node>::empty());
        while i < stmts.len()
            invariant
                i <= stmts@.len(),
                forall|j: int| 0 <= j < stmts@.len() ==> child_counts_fit(#[trigger] stmts@[j]),
                hoisted(*c, st, stmts@) is Some,
                hoisted(*c, st, stmts@.take(i as int)) == Some(self.model()),
            decreases stmts.len() - i,
        {
            proof {
                lemma_hoisted_prefix(*c, st, stmts@, i + 1);
                assert(stmts@.take(i + 1).drop_last() =~= stmts@.take(i as int));
            }
            let n = &stmts[i];
            assert(child_counts_fit(stmts@[i as int]));
            match &n.kind {
                NodeKind::Builtin { identifier } => match &identifier.kind {
                    NodeKind::Identifier(name) => self.hoist_name(c, name.as_str(), n),
                    _ => {},
                },
                NodeKind::Let { pattern, expr: _ } | NodeKind::Var { pattern, expr: _ } => {
                    proof {
                        lemma_children_fit(*n, children(n.kind).len(), 0);
                    }
                    self.hoist_pattern(c, pattern);
                },
                _ => {},
            }
            i = i + 1;
        }
        assert(stmts@.take(stmts@.len() as int) =~= stmts@);
    }

    /// Opens a block's scope within the innermost one.
    fn push_child_scope(&mut self, n: &Node)
        requires
            opened_child(old(self).model(), *n) is Some,
        ensures
            opened_child(old(self).model(), *n) == Some(final(self).model()),
    {
        let k = self.scopes.len() - 1;
        let scope = Scope::new_child_scope(&self.scopes[k].1);
        self.push_scope(n.id.local_id, scope);
    }

    /// Takes an anonymous slot in the innermost scope; gives its index.
    fn allocate_anonymous_local(&mut self) -> (r: usize)
        requires
            anonymous_slot(old(self).model()) is Some,
        ensures
            anonymous_slot(old(self).model()) == Some((final(self).model(), r as nat)),
    {
        let ghost st = self.model();
        let k = self.scopes.len() - 1;
        let r = self.scopes[k].1.allocate_anonymous_local();
        assert(self.model() =~= anonymous_slot(st)->Some_0.0);
        r
    }

    /// Defines a function's parameters.
    #[verifier::spinoff_prover]
    #[verifier::rlimit(40)]
    fn define_args(&mut self, c: &ResolveContext, args: &Vec<Node>)
        requires
            defined_args(*c, old(self).model(), args@) is Some,
        ensures
            defined_args(*c, old(self).model(), args@) == Some(final(self).model()),
    {
        let ghost st = self.model();
        let mut i: usize = 0;
        assert(args@.take(0) =~= Seq::<Node>::empty());
        while i < args.len()
            invariant
                i <= args@.len(),
                defined_args(*c, st, args@) is Some,
                defined_args(*c, st, args@.take(i as int)) == Some(self.model()),
            decreases args.len() - i,
        {
            proof {
                lemma_defined_args_prefix(*c, st, args@, i + 1);
                assert(args@.take(i + 1).drop_last() =~= args@.take(i as int));
            }
            match &args[i].kind {
                NodeKind::Identifier(name) => {
                    self.define(c, name.as_str(), &args[i]);
                },
                _ => {},
            }
            i = i + 1;
        }
        assert(args@.take(args@.len() as int) =~= args@);
    }

    /// What entering node `n` does (see `entered`).
    #[verifier::spinoff_prover]
    #[verifier::rlimit(60)]
    fn enter_node(&mut self, c: &ResolveContext, n: &Node)
        requires
            child_counts_fit(*n),
            entered(*c, old(self).model(), *n) is Some,
        ensures
            entered(*c, old(self).model(), *n) == Some(final(self).model()),
    {
        match &n.kind {
            NodeKind::SourceFile(stmts) => {
                self.push_scope(n.id.local_id, Scope::new_global_scope(n.id.local_id));
                proof {
                    assert forall|j: int| 0 <= j < stmts@.len() implies child_counts_fit(
                        #[trigger] stmts@[j],
                    ) by {
                        lemma_children_fit(*n, children(n.kind).len(), j);
                    }
                }
                self.hoist_variables(c, stmts);
            },
            NodeKind::Module(name) => {
                let short = ModuleName::new(name.as_str()).short_name();
                self.define_constant(
                    c,
                    short.as_str(),
                    n,
                    Value::Symbol(c.module_name.0.clone()),
                );
            },
            NodeKind::Import(ImportKind::Module { module_name }) => {
                let short = ModuleName::new(module_name.as_str()).short_name();
                self.define_constant(c, short.as_str(), n, Value::Symbol(module_name.clone()));
            },
            NodeKind::Body(_) => self.push_child_scope(n),
            NodeKind::FunctionLiteral { arg_names, body: _ } => {
                self.push_scope(n.id.local_id, Scope::new_function_scope(n.id.local_id));
                self.define_args(c, arg_names);
            },
            NodeKind::For { pattern, enumerable: _, body: _ } => {
                self.push_child_scope(n);
                let iter_index = self.allocate_anonymous_local();
                self.push_ref(n.id.local_id, VariableAllocation::Local { index: iter_index });
                let is_complex_pattern = !matches!(
                    &pattern.kind,
                    NodeKind::PatternIdentifier { .. }
                );
                if is_complex_pattern {
                    // a second slot holds the item being unpacked
                    self.allocate_anonymous_local();
                }
                proof {
                    lemma_children_fit(*n, children(n.kind).len(), 0);
                }
                self.define_all_in_pattern(c, pattern);
            },
            NodeKind::VariableRef { identifier } => match &identifier.kind {
                NodeKind::Identifier(name) => self.resolve_variable(c, n, name.as_str()),
                _ => {},
            },
            NodeKind::Assignment { pattern, expr: _ } => {
                proof {
                    lemma_children_fit(*n, children(n.kind).len(), 0);
                }
                self.resolve_all_in_pattern(c, pattern);
            },
            _ => {},
        }
    }

    /// What leaving node `n` does (see `exited`).
    fn exit_node(&mut self, c: &ResolveContext, n: &Node)
        requires
            child_counts_fit(*n),
            exited(*c, old(self).model(), *n) is Some,
        ensures
            exited(*c, old(self).model(), *n) == Some(final(self).model()),
    {
        match &n.kind {
            NodeKind::SourceFile(_) | NodeKind::FunctionLiteral { .. } | NodeKind::Body(_)
            | NodeKind::For { .. } => self.close_scope(),
            NodeKind::Let { pattern, expr: _ } | NodeKind::Var { pattern, expr: _ } => {
                if self.scopes.len() <= 1 {
                    return ;
                }
                proof {
                    lemma_children_fit(*n, children(n.kind).len(), 0);
                }
                self.define_all_in_pattern(c, pattern);
            },
            _ => {},
        }
    }

    /// Resolves the tree under `n`.
    #[verifier::spinoff_prover]
    #[verifier::rlimit(40)]
    fn walk(&mut self, c: &ResolveContext, n: &Node)
        requires
            child_counts_fit(*n),
            resolved(*c, *n, old(self).model()) is Some,
        ensures
            resolved(*c, *n, old(self).model()) == Some(final(self).model()),
        decreases n,
    {
        self.enter_node(c, n);
        let ghost start = self.model();
        let ghost k = children(n.kind).len();
        let mut i: usize = 0;
        loop
            invariant
                i <= k,
                k == children(n.kind).len(),
                child_counts_fit(*n),
                resolved_children(*c, *n, k, start) is Some,
                exited(*c, resolved_children(*c, *n, k, start)->Some_0, *n) is Some,
                resolved_children(*c, *n, i as nat, start) == Some(self.model()),
            ensures
                i == k,
                resolved_children(*c, *n, i as nat, start) == Some(self.model()),
            decreases k - i,
        {
            match n.child_at_index(i) {
                Some(child) => {
                    proof {
                        lemma_child_decreases(*n, i as int);
                        lemma_children_fit(*n, k, i as int);
                        lemma_resolved_children_prefix(*c, *n, k, start, (i + 1) as nat);
                    }
                    self.walk(c, child);
                    i = i + 1;
                },
                None => {
                    break ;
                },
            }
        }
        self.exit_node(c, n);
    }
}

/// Whether two texts are the same.
fn same_text(a: &str, b: &str) -> (r: bool)
    ensures
        r == (a@ == b@),
{
    proof {
        crate::order::lemma_order_chars(a@, b@);
    }
    crate::order::compare_str(a, b) == crate::order::Order::Equal
}

/// The value of the constant `name`, the last one given.
fn get_constant<'a>(cs: &'a Vec<(String, Value)>, name: &str) -> (r: Option<&'a Value>)
    ensures
        match r {
            Some(v) => constant_of(Seq::new(cs@.len(), |i: int| (cs@[i].0@, cs@[i].1@)), name@)
                == Some(v@),
            None => constant_of(Seq::new(cs@.len(), |i: int| (cs@[i].0@, cs@[i].1@)), name@) is None,
        },
{
    let ghost all = Seq::new(cs@.len(), |i: int| (cs@[i].0@, cs@[i].1@));
    let mut i = cs.len();
    assert(all.take(i as int) =~= all);
    while i > 0
        invariant
            i <= cs@.len(),
            all == Seq::new(cs@.len(), |i: int| (cs@[i].0@, cs@[i].1@)),
            constant_of(all, name@) == constant_of(all.take(i as int), name@),
        decreases i,
    {
        assert(all.take(i as int).drop_last() =~= all.take(i - 1));
        if same_text(cs[i - 1].0.as_str(), name) {
            return Some(&cs[i - 1].1);
        }
        i = i - 1;
    }
    None
}

proof fn lemma_defined_in_pattern_prefix(c: ResolveContext, st: RState, s: Seq<Node>, k: int)
    requires
        defined_in_pattern(c, st, s) is Some,
        0 <= k <= s.len(),
    ensures
        defined_in_pattern(c, st, s.take(k)) is Some,
    decreases s.len(),
{
    if k == s.len() {
        assert(s.take(k) =~= s);
    } else {
        assert(s.drop_last().take(k) =~= s.take(k));
        lemma_defined_in_pattern_prefix(c, st, s.drop_last(), k);
    }
}

proof fn lemma_resolved_in_pattern_prefix(c: ResolveContext, st: RState, s: Seq<Node>, k: int)
    requires
        resolved_in_pattern(c, st, s) is Some,
        0 <= k <= s.len(),
    ensures
        resolved_in_pattern(c, st, s.take(k)) is Some,
    decreases s.len(),
{
    if k == s.len() {
        assert(s.take(k) =~= s);
    } else {
        assert(s.drop_last().take(k) =~= s.take(k));
        lemma_resolved_in_pattern_prefix(c, st, s.drop_last(), k);
    }
}

proof fn lemma_hoisted_pattern_prefix(c: ResolveContext, st: RState, s: Seq<Node>, k: int)
    requires
        hoisted_pattern(c, st, s) is Some,
        0 <= k <= s.len(),
    ensures
        hoisted_pattern(c, st, s.take(k)) is Some,
    decreases s.len(),
{
    if k == s.len() {
        assert(s.take(k) =~= s);
    } else {
        assert(s.drop_last().take(k) =~= s.take(k));
        lemma_hoisted_pattern_prefix(c, st, s.drop_last(), k);
    }
}

proof fn lemma_hoisted_prefix(c: ResolveContext, st: RState, s: Seq<Node>, k: int)
    requires
        hoisted(c, st, s) is Some,
        0 <= k <= s.len(),
    ensures
        hoisted(c, st, s.take(k)) is Some,
    decreases s.len(),
{
    if k == s.len() {
        assert(s.take(k) =~= s);
    } else {
        assert(s.drop_last().take(k) =~= s.take(k));
        lemma_hoisted_prefix(c, st, s.drop_last(), k);
    }
}

proof fn lemma_defined_args_prefix(c: ResolveContext, st: RState, s: Seq<Node>, k: int)
    requires
        defined_args(c, st, s) is Some,
        0 <= k <= s.len(),
    ensures
        defined_args(c, st, s.take(k)) is Some,
    decreases s.len(),
{
    if k == s.len() {
        assert(s.take(k) =~= s);
    } else {
        assert(s.drop_last().take(k) =~= s.take(k));
        lemma_defined_args_prefix(c, st, s.drop_last(), k);
    }
}

proof fn lemma_resolved_children_prefix(c: ResolveContext, n: Node, k: nat, st: RState, j: nat)
    requires
        resolved_children(c, n, k, st) is Some,
        k <= children(n.kind).len(),
        j <= k,
    ensures
        resolved_children(c, n, j, st) is Some,
    decreases k,
{
    if j < k {
        lemma_resolved_children_prefix(c, n, (k - 1) as nat, st, j);
    }
}

/// Resolves every variable of the module: records how each reference and definition is
/// reached, which definitions closures capture and which upvalues each function has, and the
/// module's exports and constants.  The errors found (a name defined twice in a scope, a name
/// that cannot be found) are recorded, and then the phase fails.
pub fn resolve_variables_phase(c: &ResolveContext, ast: &Node, out: &mut Resolution) -> (r: Result<
    (),
    Exception,
>)
    requires
        child_counts_fit(*ast),
        resolved(*c, *ast, old(out).model()) is Some,
    ensures
        resolved(*c, *ast, old(out).model()) == Some(final(out).model()),
        final(out).scopes@.len() == old(out).scopes@.len(),
        old(out).errors@.len() <= final(out).errors@.len(),
        forall|i: int|
            0 <= i < old(out).errors@.len() ==> error_view(#[trigger] final(out).errors@[i])
                == error_view(old(out).errors@[i]),
        match r {
            Ok(()) => final(out).errors@.len() == old(out).errors@.len(),
            Err(e) => final(out).errors@.len() > old(out).errors@.len() && e.message@
                == "unable to resolve all variables"@,
        },
{
    let before = out.errors.len();
    let ghost st0 = out.model();
    out.walk(c, ast);
    proof {
        lemma_resolved_balanced(*c, *ast, st0);
        let st1 = out.model();
        assert forall|i: int| 0 <= i < old(out).errors@.len() implies error_view(
            #[trigger] out.errors@[i],
        ) == error_view(old(out).errors@[i]) by {
            assert(st1.errors[i] == st0.errors[i]);
        }
    }
    if out.errors.len() > before {
        proof {
            reveal_strlit("unable to resolve all variables");
        }
        Err(Exception::new("unable to resolve all variables".to_owned()))
    } else {
        Ok(())
    }
}

} // verus!

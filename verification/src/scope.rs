use vstd::prelude::*;

use crate::vm::function::UpvalueSource;

verus! {

/// What a scope belongs to: the module's top level, a function, or a block within one.
#[derive(Debug, Clone, Copy, PartialEq, Eq, Structural)]
pub enum ScopeKind {
    Global,
    Function,
    Child,
}

/// The variables one block of a program defines, and the slots they take in the stack frame.
///
/// `indices` holds the names of the frame slots the scope allocates, from `base_offset` on
/// (anonymous slots have an empty name); `definitions` maps each defined name to the node that
/// defines it; `upvalues` lists the variables a function captures, each by the node that defines
/// it, with where the closure finds it.
#[derive(Debug)]
pub struct Scope {
    pub kind: ScopeKind,
    pub function: u32,
    pub definitions: Vec<(String, u32)>,
    pub base_offset: usize,
    pub indices: Vec<String>,
    pub upvalues: Vec<(u32, UpvalueSource)>,
}

/// The model of a scope: names as texts.
#[verifier::ext_equal]
pub struct ScopeView {
    pub kind: ScopeKind,
    pub function: u32,
    pub definitions: Seq<(Seq<char>, u32)>,
    pub base_offset: nat,
    pub indices: Seq<Seq<char>>,
    pub upvalues: Seq<(u32, UpvalueSource)>,
}

/// The position of the first definition of `name`.
pub open spec fn first_definition(defs: Seq<(Seq<char>, u32)>, name: Seq<char>) -> Option<int> {
    if exists|i: int| 0 <= i < defs.len() && defs[i].0 == name {
        Some(
            choose|i: int|
                0 <= i < defs.len() && defs[i].0 == name && forall|j: int|
                    0 <= j < i ==> defs[j].0 != name,
        )
    } else {
        None
    }
}

/// The position of the first slot named `name`.
pub open spec fn first_slot(names: Seq<Seq<char>>, name: Seq<char>) -> Option<int> {
    if exists|i: int| 0 <= i < names.len() && names[i] == name {
        Some(
            choose|i: int|
                0 <= i < names.len() && names[i] == name && forall|j: int|
                    0 <= j < i ==> names[j] != name,
        )
    } else {
        None
    }
}

/// The position of the first upvalue captured from the definition `def`.
pub open spec fn first_upvalue(ups: Seq<(u32, UpvalueSource)>, def: u32) -> Option<int> {
    if exists|i: int| 0 <= i < ups.len() && ups[i].0 == def {
        Some(
            choose|i: int|
                0 <= i < ups.len() && ups[i].0 == def && forall|j: int|
                    0 <= j < i ==> ups[j].0 != def,
        )
    } else {
        None
    }
}

/// Where some position below `n` has `p`, a least such position exists.
pub proof fn lemma_least_position(n: int, p: spec_fn(int) -> bool)
    requires
        exists|i: int| 0 <= i < n && #[trigger] p(i),
    ensures
        exists|i: int| 0 <= i < n && #[trigger] p(i) && forall|j: int| 0 <= j < i ==> !#[trigger] p(j),
    decreases n,
{
    if exists|i: int| 0 <= i < n - 1 && #[trigger] p(i) {
        lemma_least_position(n - 1, p);
    } else {
        assert(forall|j: int| 0 <= j < n - 1 ==> !#[trigger] p(j));
        let w = choose|i: int| 0 <= i < n && #[trigger] p(i);
        assert(w == n - 1);
    }
}

impl ScopeView {
    /// The slot `index_of` gives holds `name` and lies within the scope's slots.
    pub proof fn lemma_index_of(self, name: Seq<char>)
        ensures
            self.index_of(name) matches Some(i) ==> self.base_offset <= i < self.base_offset
                + self.indices.len() && self.indices[i - self.base_offset] == name,
    {
        let names = self.indices;
        if exists|i: int| 0 <= i < names.len() && names[i] == name {
            let p = |i: int| names[i] == name;
            let w = choose|i: int| 0 <= i < names.len() && names[i] == name;
            assert(p(w));
            lemma_least_position(names.len() as int, p);
            let k = choose|i: int|
                0 <= i < names.len() && #[trigger] p(i) && forall|j: int| 0 <= j < i ==> !#[trigger] p(j);
            assert forall|j: int| 0 <= j < k implies names[j] != name by {
                assert(!p(j));
            }
        }
    }

    /// The node that defines `name` in the scope.
    pub open spec fn definition_of(self, name: Seq<char>) -> Option<u32> {
        match first_definition(self.definitions, name) {
            Some(i) => Some(self.definitions[i].1),
            None => None,
        }
    }

    pub open spec fn is_defined(self, name: Seq<char>) -> bool {
        self.definition_of(name) is Some
    }

    /// The frame slot of `name`: the first slot of the scope with that name.
    pub open spec fn index_of(self, name: Seq<char>) -> Option<nat> {
        match first_slot(self.indices, name) {
            Some(i) => Some((i + self.base_offset) as nat),
            None => None,
        }
    }

    /// The scope once `name` is defined at node `id`, in the next slot.
    pub open spec fn define(self, name: Seq<char>, id: u32) -> ScopeView {
        ScopeView {
            definitions: self.definitions.push((name, id)),
            indices: self.indices.push(name),
            ..self
        }
    }

    /// The scope with one more slot, with no name.
    pub open spec fn with_anonymous_local(self) -> ScopeView {
        ScopeView { indices: self.indices.push(Seq::empty()), ..self }
    }

    /// The upvalue that captures the variable defined at `def` (allocated on first use with the
    /// given source), and the scope afterwards.
    pub open spec fn with_upvalue(self, def: u32, source: UpvalueSource) -> (ScopeView, nat) {
        match first_upvalue(self.upvalues, def) {
            Some(i) => (self, i as nat),
            None => (ScopeView { upvalues: self.upvalues.push((def, source)), ..self }, self.upvalues.len()),
        }
    }

    /// Where the function's closure finds each captured variable, in upvalue order.
    pub open spec fn upvalue_sources(self) -> Seq<UpvalueSource> {
        Seq::new(self.upvalues.len(), |i: int| self.upvalues[i].1)
    }

    /// A scope with nothing defined yet.
    pub open spec fn empty(kind: ScopeKind, function: u32, base_offset: nat) -> ScopeView {
        ScopeView {
            kind,
            function,
            definitions: Seq::empty(),
            base_offset,
            indices: Seq::empty(),
            upvalues: Seq::empty(),
        }
    }

    /// The scope of a block within `self`: its slots follow the parent's, except under the top
    /// level, whose variables are globals and take no slot.
    pub open spec fn child(self) -> ScopeView {
        ScopeView::empty(
            ScopeKind::Child,
            self.function,
            if self.kind != ScopeKind::Global {
                self.base_offset + self.indices.len()
            } else {
                0
            },
        )
    }
}

impl View for Scope {
    type V = ScopeView;

    open spec fn view(&self) -> ScopeView {
        ScopeView {
            kind: self.kind,
            function: self.function,
            definitions: Seq::new(
                self.definitions@.len(),
                |i: int| (self.definitions@[i].0@, self.definitions@[i].1),
            ),
            base_offset: self.base_offset as nat,
            indices: Seq::new(self.indices@.len(), |i: int| self.indices@[i]@),
            upvalues: self.upvalues@,
        }
    }
}

impl Scope {
    /// Where the function's closure finds each captured variable, in upvalue order.
    pub open spec fn spec_upvalue_sources(&self) -> Seq<UpvalueSource> {
        self@.upvalue_sources()
    }

    fn empty(kind: ScopeKind, function: u32, base_offset: usize) -> (r: Self)
        ensures
            r@ == ScopeView::empty(kind, function, base_offset as nat),
    {
        let r = Scope {
            kind,
            function,
            definitions: Vec::new(),
            base_offset,
            indices: Vec::new(),
            upvalues: Vec::new(),
        };
        assert(r@ =~= ScopeView::empty(kind, function, base_offset as nat));
        r
    }

    /// The scope of a module's top level (node `node_id`).
    pub fn new_global_scope(node_id: u32) -> (r: Self)
        ensures
            r@ == ScopeView::empty(ScopeKind::Global, node_id, 0),
    {
        Self::empty(ScopeKind::Global, node_id, 0)
    }

    /// The scope of the function literal `node_id`: its slots start at the frame's base.
    pub fn new_function_scope(node_id: u32) -> (r: Self)
        ensures
            r@ == ScopeView::empty(ScopeKind::Function, node_id, 0),
    {
        Self::empty(ScopeKind::Function, node_id, 0)
    }

    /// The scope of a block within `parent`.
    pub fn new_child_scope(parent: &Scope) -> (r: Self)
        requires
            parent.base_offset + parent.indices@.len() <= usize::MAX,
        ensures
            r@ == parent@.child(),
    {
        let base_offset = if parent.kind != ScopeKind::Global {
            parent.base_offset + parent.indices.len()
        } else {
            0
        };
        Self::empty(ScopeKind::Child, parent.function, base_offset)
    }

    /// Defines `name` at node `node_id`, in the next slot.
    pub fn define(&mut self, name: &str, node_id: u32)
        requires
            !old(self)@.is_defined(name@),
        ensures
            final(self)@ == old(self)@.define(name@, node_id),
    {
        let key = name.to_owned();
        let key2 = name.to_owned();
        self.definitions.push((key, node_id));
        self.indices.push(key2);
        assert(self@ =~= old(self)@.define(name@, node_id));
    }

    /// Takes a slot with no name; gives its index in the frame.
    pub fn allocate_anonymous_local(&mut self) -> (r: usize)
        requires
            old(self).base_offset + old(self).indices@.len() < usize::MAX,
        ensures
            r == old(self).base_offset + old(self).indices@.len(),
            final(self)@ == old(self)@.with_anonymous_local(),
    {
        self.indices.push(String::new());
        assert(self@ =~= old(self)@.with_anonymous_local());
        self.indices.len() - 1 + self.base_offset
    }

    /// Whether the scope itself defines `name`.
    pub fn is_defined(&self, name: &str) -> (r: bool)
        ensures
            r == self@.is_defined(name@),
    {
        self.get_node_id(name).is_some()
    }

    /// The function (or top level) the scope belongs to.
    pub fn get_function(&self) -> (r: u32)
        ensures
            r == self.function,
    {
        self.function
    }

    /// The frame slot of `name`: the first slot of the scope with that name.
    pub fn get_index(&self, name: &str) -> (r: Option<usize>)
        requires
            self.base_offset + self.indices@.len() <= usize::MAX,
        ensures
            match self@.index_of(name@) {
                Some(i) => r == Some(i as usize),
                None => r is None,
            },
    {
        let target = name.to_owned();
        let ghost names = self@.indices;
        let mut i: usize = 0;
        while i < self.indices.len()
            invariant
                i <= self.indices@.len(),
                self.base_offset + self.indices@.len() <= usize::MAX,
                target@ == name@,
                names == self@.indices,
                forall|j: int| 0 <= j < i ==> names[j] != name@,
            decreases self.indices.len() - i,
        {
            assert(names[i as int] == self.indices@[i as int]@);
            if self.indices[i] == target {
                proof {
                    let k = choose|k: int|
                        0 <= k < names.len() && names[k] == name@ && forall|j: int|
                            0 <= j < k ==> names[j] != name@;
                    assert(k == i) by {
                        if k > i {
                            assert(names[i as int] == name@);
                        }
                    }
                }
                return Some(i + self.base_offset);
            }
            i = i + 1;
        }
        None
    }

    /// The node that defines `name` in this scope.
    pub fn get_node_id(&self, name: &str) -> (r: Option<u32>)
        ensures
            r == self@.definition_of(name@),
    {
        let target = name.to_owned();
        let ghost defs = self@.definitions;
        let mut i: usize = 0;
        while i < self.definitions.len()
            invariant
                i <= self.definitions@.len(),
                target@ == name@,
                defs == self@.definitions,
                forall|j: int| 0 <= j < i ==> defs[j].0 != name@,
            decreases self.definitions.len() - i,
        {
            assert(defs[i as int] == (self.definitions@[i as int].0@, self.definitions@[i as int].1));
            if self.definitions[i].0 == target {
                proof {
                    let k = choose|k: int|
                        0 <= k < defs.len() && defs[k].0 == name@ && forall|j: int|
                            0 <= j < k ==> defs[j].0 != name@;
                    assert(k == i) by {
                        if k > i {
                            assert(defs[i as int].0 == name@);
                        }
                    }
                }
                return Some(self.definitions[i].1);
            }
            i = i + 1;
        }
        None
    }

    /// Each name the scope defines, with the node defining it.
    pub fn get_definitions(&self) -> (r: &Vec<(String, u32)>)
        ensures
            r@ == self.definitions@,
    {
        &self.definitions
    }

    /// Where the function's closure finds each captured variable, in upvalue order.
    pub fn get_upvalue_sources(&self) -> (r: Vec<UpvalueSource>)
        ensures
            r@ == self@.upvalue_sources(),
    {
        let mut out: Vec<UpvalueSource> = Vec::new();
        let mut i: usize = 0;
        while i < self.upvalues.len()
            invariant
                i <= self.upvalues@.len(),
                out@ == Seq::new(i as nat, |k: int| self.upvalues@[k].1),
            decreases self.upvalues.len() - i,
        {
            out.push(self.upvalues[i].1);
            assert(out@ =~= Seq::new((i + 1) as nat, |k: int| self.upvalues@[k].1));
            i = i + 1;
        }
        assert(out@ =~= self@.upvalue_sources());
        out
    }

    /// Whether this is the scope of a function or of the top level, not of a block.
    pub fn is_function_or_global(&self) -> (r: bool)
        ensures
            r == (self.kind != ScopeKind::Child),
    {
        self.kind != ScopeKind::Child
    }

    /// The upvalue that captures the variable defined at `definition_node_id`, allocated on
    /// first use with the given source.
    pub fn get_or_allocate_upvalue(
        &mut self,
        definition_node_id: u32,
        source: &UpvalueSource,
    ) -> (r: usize)
        ensures
            (final(self)@, r as nat) == old(self)@.with_upvalue(definition_node_id, *source),
    {
        let mut i: usize = 0;
        while i < self.upvalues.len()
            invariant
                i <= self.upvalues@.len(),
                self.upvalues@ == old(self).upvalues@,
                forall|j: int| 0 <= j < i ==> self.upvalues@[j].0 != definition_node_id,
            decreases self.upvalues.len() - i,
        {
            if self.upvalues[i].0 == definition_node_id {
                proof {
                    let ups = self.upvalues@;
                    let k = choose|k: int|
                        0 <= k < ups.len() && ups[k].0 == definition_node_id && forall|j: int|
                            0 <= j < k ==> ups[j].0 != definition_node_id;
                    assert(k == i) by {
                        if k > i {
                            assert(ups[i as int].0 == definition_node_id);
                        }
                    }
                }
                return i;
            }
            i = i + 1;
        }
        self.upvalues.push((definition_node_id, *source));
        assert(self@ =~= old(self)@.with_upvalue(definition_node_id, *source).0);
        self.upvalues.len() - 1
    }
}

} // verus!

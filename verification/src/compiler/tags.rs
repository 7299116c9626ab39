use vstd::prelude::*;

use crate::scope::Scope;

use super::variable::{Variable, VariableRef};
use super::FunctionName;

verus! {

/// The tag of node `id` among `entries`: the one added last for it.
pub open spec fn last_tag<T>(entries: Seq<(u32, T)>, id: u32) -> Option<T>
    decreases entries.len(),
{
    if entries.len() == 0 {
        None
    } else if entries.last().0 == id {
        Some(entries.last().1)
    } else {
        last_tag(entries.drop_last(), id)
    }
}

/// Facts of one kind that compiler phases attach to nodes of a module, each node known by
/// its number within the module.  A later fact for a node replaces an earlier one.
#[derive(Debug)]
pub struct TagTable<T> {
    pub entries: Vec<(u32, T)>,
}

impl<T> TagTable<T> {
    /// The fact attached to node `id`, if any.
    pub open spec fn tag_of(&self, id: u32) -> Option<T> {
        last_tag(self.entries@, id)
    }

    pub fn new() -> (r: TagTable<T>)
        ensures
            forall|id: u32| r.tag_of(id) is None,
    {
        TagTable { entries: Vec::new() }
    }

    /// The fact attached to node `id`, if any.
    pub fn get(&self, id: u32) -> (r: Option<&T>)
        ensures
            match r {
                Some(t) => self.tag_of(id) == Some(*t),
                None => self.tag_of(id) is None,
            },
    {
        let mut i = self.entries.len();
        assert(self.entries@.take(i as int) =~= self.entries@);
        while i > 0
            invariant
                i <= self.entries@.len(),
                self.tag_of(id) == last_tag(self.entries@.take(i as int), id),
            decreases i,
        {
            assert(self.entries@.take(i as int).drop_last() =~= self.entries@.take(i - 1));
            if self.entries[i - 1].0 == id {
                return Some(&self.entries[i - 1].1);
            }
            i = i - 1;
        }
        None
    }

    /// Attaches `tag` to node `id`, replacing what was attached to it.
    pub fn insert(&mut self, id: u32, tag: T)
        ensures
            final(self).tag_of(id) == Some(tag),
            forall|other: u32| other != id ==> final(self).tag_of(other) == old(self).tag_of(other),
    {
        self.entries.push((id, tag));
        assert(self.entries@.drop_last() =~= old(self).entries@);
    }
}

/// The facts the compiler phases attach to the nodes of a module, one table per kind.
#[derive(Debug)]
pub struct Tags {
    pub variables: TagTable<Variable>,
    pub variable_refs: TagTable<VariableRef>,
    pub function_names: TagTable<FunctionName>,
    pub scopes: TagTable<Scope>,
    pub return_exprs: TagTable<super::IsReturnExpr>,
    pub module_refs: TagTable<super::ModuleReference>,
    pub referenced_structs: TagTable<super::ReferencedStruct>,
}

impl Tags {
    /// No facts at all.
    pub fn new() -> (r: Tags)
        ensures
            forall|id: u32| r.variables.tag_of(id) is None,
            forall|id: u32| r.variable_refs.tag_of(id) is None,
            forall|id: u32| r.function_names.tag_of(id) is None,
            forall|id: u32| r.scopes.tag_of(id) is None,
            forall|id: u32| r.return_exprs.tag_of(id) is None,
            forall|id: u32| r.module_refs.tag_of(id) is None,
            forall|id: u32| r.referenced_structs.tag_of(id) is None,
    {
        Tags {
            variables: TagTable::new(),
            variable_refs: TagTable::new(),
            function_names: TagTable::new(),
            scopes: TagTable::new(),
            return_exprs: TagTable::new(),
            module_refs: TagTable::new(),
            referenced_structs: TagTable::new(),
        }
    }
}

} // verus!

use vstd::prelude::*;

use crate::ast::{child_counts_fit, derefs, preorder, Node, NodeKind};
use crate::exception::Exception;
use crate::module::ModuleName;
use crate::order::{compare_str, lemma_order_chars, Order};
use crate::program::{module_position, Program};
use crate::struct_info::{same_struct, StructInfo};
use crate::value::{Val, Value};

use super::tags::TagTable;
use super::variable::{VariableAllocation, VariableRef};
use super::ReferencedStruct;

verus! {

/// What resolving struct literals reads: the module's name, its constants (the last one given
/// for a name counts), the struct it defines, the modules compiled before it, and where each
/// variable reference was resolved to.
pub struct StructScope<'a> {
    pub module_name: &'a ModuleName,
    pub constants: &'a Vec<(String, Value)>,
    pub own: &'a Option<StructInfo>,
    pub program: &'a Program,
    pub refs: &'a TagTable<VariableRef>,
}

/// The value of the constant `name`, the last one given.
pub open spec fn constant_named(cs: Seq<(String, Value)>, name: Seq<char>) -> Option<Val>
    decreases cs.len(),
{
    if cs.len() == 0 {
        None
    } else if cs.last().0@ == name {
        Some(cs.last().1@)
    } else {
        constant_named(cs.drop_last(), name)
    }
}

/// The struct of module `m`: the module's own, or that of a module compiled before.
pub open spec fn struct_of_module(c: StructScope, m: Seq<char>) -> Option<StructInfo> {
    if m == c.module_name.0@ {
        *c.own
    } else {
        match module_position(c.program.modules@, m) {
            Some(i) => c.program.modules@[i].struct_info,
            None => None,
        }
    }
}

/// The struct a struct literal builds: its module is named by a constant of this module holding
/// the module's name as a symbol.
pub open spec fn literal_struct(c: StructScope, n: Node) -> Option<StructInfo> {
    match n.kind {
        NodeKind::StructLiteral { module, .. } => match c.refs.tag_of(module.id.local_id) {
            Some(r) => match r.allocation {
                VariableAllocation::Global { module: m, name } => if m.0@ == c.module_name.0@ {
                    match constant_named(c.constants@, name@) {
                        Some(Val::Symbol(s)) => struct_of_module(c, s),
                        _ => None,
                    }
                } else {
                    None
                },
                _ => None,
            },
            None => None,
        },
        _ => None,
    }
}

/// The struct literals among `s` whose struct is known, each with its struct.
pub open spec fn resolved_literals(c: StructScope, s: Seq<Node>) -> Seq<(u32, StructInfo)>
    decreases s.len(),
{
    if s.len() == 0 {
        Seq::empty()
    } else {
        resolved_literals(c, s.drop_last()) + if s.last().kind is StructLiteral {
            match literal_struct(c, s.last()) {
                Some(info) => seq![(s.last().id.local_id, info)],
                None => Seq::empty(),
            }
        } else {
            Seq::empty()
        }
    }
}

/// The struct literals among `s` whose struct is not known.
pub open spec fn unresolved_literals(c: StructScope, s: Seq<Node>) -> Seq<Node>
    decreases s.len(),
{
    if s.len() == 0 {
        Seq::empty()
    } else {
        unresolved_literals(c, s.drop_last()) + if s.last().kind is StructLiteral && literal_struct(
            c,
            s.last(),
        ) is None {
            seq![s.last()]
        } else {
            Seq::empty()
        }
    }
}

/// `tags` holds the literals of `rs`, in order, each with a copy of its struct.
pub open spec fn tags_match(tags: Seq<(u32, ReferencedStruct)>, rs: Seq<(u32, StructInfo)>) -> bool {
    &&& tags.len() == rs.len()
    &&& forall|k: int|
        0 <= k < rs.len() ==> #[trigger] tags[k].0 == rs[k].0 && same_struct(
            tags[k].1.struct_info,
            rs[k].1,
        )
}

/// `errors` reports each of `ns` in order: its struct is not known.
pub open spec fn errors_match(errors: Seq<Exception>, ns: Seq<Node>) -> bool {
    &&& errors.len() == ns.len()
    &&& forall|k: int|
        0 <= k < ns.len() ==> (#[trigger] errors[k]).message@
            == "struct names must be known at compile time"@ && raised_at(errors[k], ns[k])
}

/// `e` was raised at node `n`.
pub open spec fn raised_at(e: Exception, n: Node) -> bool {
    e.source matches Some(src) && src.file@ == n.source.file@ && src.line == n.source.line
        && src.col == n.source.col
}

/// The value of the constant `name`, the last one given.
fn get_constant<'a>(cs: &'a Vec<(String, Value)>, name: &str) -> (r: Option<&'a Value>)
    ensures
        match r {
            Some(v) => constant_named(cs@, name@) == Some(v@),
            None => constant_named(cs@, name@) is None,
        },
{
    let mut i = cs.len();
    assert(cs@.take(i as int) =~= cs@);
    while i > 0
        invariant
            i <= cs@.len(),
            constant_named(cs@, name@) == constant_named(cs@.take(i as int), name@),
        decreases i,
    {
        assert(cs@.take(i as int).drop_last() =~= cs@.take(i - 1));
        proof {
            lemma_order_chars(cs@[i - 1].0@, name@);
        }
        if compare_str(cs[i - 1].0.as_str(), name) == Order::Equal {
            return Some(&cs[i - 1].1);
        }
        i = i - 1;
    }
    None
}

/// The struct of module `m`, copied.
fn lookup_struct_info(c: &StructScope, m: &str) -> (r: Option<StructInfo>)
    ensures
        match struct_of_module(*c, m@) {
            Some(info) => r matches Some(copy) && same_struct(copy, info),
            None => r is None,
        },
{
    proof {
        lemma_order_chars(m@, c.module_name.0@);
    }
    if compare_str(m, c.module_name.0.as_str()) == Order::Equal {
        match c.own {
            Some(info) => Some(info.duplicate()),
            None => None,
        }
    } else {
        match c.program.get_module(m) {
            Some(module) => match &module.struct_info {
                Some(info) => Some(info.duplicate()),
                None => None,
            },
            None => None,
        }
    }
}

/// The struct the struct literal `n` builds, copied.
fn struct_of_literal(c: &StructScope, n: &Node) -> (r: Option<StructInfo>)
    ensures
        match literal_struct(*c, *n) {
            Some(info) => r matches Some(copy) && same_struct(copy, info),
            None => r is None,
        },
{
    match &n.kind {
        NodeKind::StructLiteral { module, fields: _ } => match c.refs.get(module.id.local_id) {
            Some(r) => match &r.allocation {
                VariableAllocation::Global { module: m, name } => {
                    proof {
                        lemma_order_chars(m.0@, c.module_name.0@);
                    }
                    if compare_str(m.0.as_str(), c.module_name.0.as_str()) == Order::Equal {
                        match get_constant(c.constants, name.as_str()) {
                            Some(Value::Symbol(s)) => lookup_struct_info(c, s.as_str()),
                            _ => None,
                        }
                    } else {
                        None
                    }
                },
                _ => None,
            },
            None => None,
        },
        _ => None,
    }
}

/// Tags each struct literal with the struct it builds.  A literal whose struct is not known
/// is reported in `errors`, and then the phase fails.
pub fn resolve_structs_phase(
    c: &StructScope,
    ast: &Node,
    structs: &mut TagTable<ReferencedStruct>,
    errors: &mut Vec<Exception>,
) -> (r: Result<(), Exception>)
    requires
        child_counts_fit(*ast),
    ensures
        final(structs).entries@.take(old(structs).entries@.len() as int) == old(structs).entries@,
        tags_match(
            final(structs).entries@.skip(old(structs).entries@.len() as int),
            resolved_literals(*c, preorder(*ast)),
        ),
        final(errors)@.take(old(errors)@.len() as int) == old(errors)@,
        errors_match(
            final(errors)@.skip(old(errors)@.len() as int),
            unresolved_literals(*c, preorder(*ast)),
        ),
        match r {
            Ok(()) => unresolved_literals(*c, preorder(*ast)).len() == 0,
            Err(e) => unresolved_literals(*c, preorder(*ast)).len() > 0 && e.message@
                == "failed to resolve structs"@,
        },
{
    let nodes = ast.iter();
    let ghost s = preorder(*ast);
    let ghost t0 = structs.entries@;
    let ghost e0 = errors@;
    let mut errored = false;
    let mut i: usize = 0;
    assert(s.take(0) =~= Seq::<Node>::empty());
    assert(structs.entries@.skip(t0.len() as int) =~= Seq::<(u32, ReferencedStruct)>::empty());
    assert(errors@.skip(e0.len() as int) =~= Seq::<Exception>::empty());
    while i < nodes.len()
        invariant
            i <= nodes@.len(),
            derefs(nodes@) == s,
            structs.entries@.len() >= t0.len(),
            structs.entries@.take(t0.len() as int) == t0,
            tags_match(
                structs.entries@.skip(t0.len() as int),
                resolved_literals(*c, s.take(i as int)),
            ),
            errors@.len() >= e0.len(),
            errors@.take(e0.len() as int) == e0,
            errors_match(errors@.skip(e0.len() as int), unresolved_literals(*c, s.take(i as int))),
            errored == (unresolved_literals(*c, s.take(i as int)).len() > 0),
        decreases nodes.len() - i,
    {
        let n = nodes[i];
        assert(*n == s[i as int]);
        let ghost t = s.take(i + 1);
        assert(t.drop_last() =~= s.take(i as int));
        assert(t.last() == s[i as int]);
        let ghost tags_before = structs.entries@;
        let ghost errors_before = errors@;
        if matches!(n.kind, NodeKind::StructLiteral { .. }) {
            match struct_of_literal(c, n) {
                Some(struct_info) => {
                    let ghost copy = struct_info;
                    structs.entries.push((n.id.local_id, ReferencedStruct { struct_info }));
                    assert(structs.entries@.skip(t0.len() as int) =~= tags_before.skip(
                        t0.len() as int,
                    ).push(structs.entries@.last()));
                    proof {
                        let rs = resolved_literals(*c, s.take(i as int));
                        let info = literal_struct(*c, *n)->Some_0;
                        assert(resolved_literals(*c, t) == rs.push((n.id.local_id, info)));
                        let before = tags_before.skip(t0.len() as int);
                        let after = structs.entries@.skip(t0.len() as int);
                        assert forall|k: int| 0 <= k < rs.len() + 1 implies #[trigger] after[k].0
                            == rs.push((n.id.local_id, info))[k].0 && same_struct(
                            after[k].1.struct_info,
                            rs.push((n.id.local_id, info))[k].1,
                        ) by {
                            if k < rs.len() {
                                assert(after[k] == before[k]);
                            } else {
                                assert(after[k].1.struct_info == copy);
                            }
                        }
                        assert(tags_match(after, resolved_literals(*c, t)));
                    }
                    assert(structs.entries@.take(t0.len() as int) =~= tags_before.take(
                        t0.len() as int,
                    ));
                    assert(errors@.skip(e0.len() as int) =~= errors_before.skip(e0.len() as int));
                },
                None => {
                    proof {
                        reveal_strlit("struct names must be known at compile time");
                    }
                    errors.push(Exception::at_node(n, "struct names must be known at compile time"));
                    errored = true;
                    assert(resolved_literals(*c, t) == resolved_literals(*c, s.take(i as int)));
                    assert(tags_match(structs.entries@.skip(t0.len() as int), resolved_literals(*c, t)));
                    assert(errors@.skip(e0.len() as int) =~= errors_before.skip(
                        e0.len() as int,
                    ).push(errors@.last()));
                    assert(errors@.take(e0.len() as int) =~= errors_before.take(e0.len() as int));
                },
            }
        } else {
            assert(resolved_literals(*c, t) == resolved_literals(*c, s.take(i as int)));
            assert(unresolved_literals(*c, t) == unresolved_literals(*c, s.take(i as int)));
            assert(structs.entries@.skip(t0.len() as int) =~= tags_before.skip(t0.len() as int));
            assert(errors@.skip(e0.len() as int) =~= errors_before.skip(e0.len() as int));
            assert(tags_match(structs.entries@.skip(t0.len() as int), resolved_literals(*c, t)));
        }
        i = i + 1;
    }
    assert(s.take(nodes@.len() as int) =~= s);
    if errored {
        proof {
            reveal_strlit("failed to resolve structs");
        }
        Err(Exception::new("failed to resolve structs".to_owned()))
    } else {
        Ok(())
    }
}

} // verus!

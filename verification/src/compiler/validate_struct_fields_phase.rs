use vstd::prelude::*;

use crate::ast::{child_counts_fit, derefs, preorder, Node, NodeKind};
use crate::exception::Exception;
use crate::string_utils::concat_str;
use crate::struct_info::{contains_text, texts, StructInfo};

use super::resolve_structs_phase::raised_at;
use super::tags::TagTable;
use super::ReferencedStruct;

verus! {

/// The field names a struct literal gives, in order.
pub open spec fn literal_names(fields: Seq<(Node, Node)>) -> Seq<Seq<char>> {
    Seq::new(fields.len(), |i: int| fields[i].0.kind->Identifier_0@)
}

/// The first of `names` not among `given`.
pub open spec fn first_not_in(names: Seq<Seq<char>>, given: Seq<Seq<char>>) -> Option<Seq<char>>
    decreases names.len(),
{
    if names.len() == 0 {
        None
    } else if !given.contains(names[0]) {
        Some(names[0])
    } else {
        first_not_in(names.skip(1), given)
    }
}

/// What is wrong with a literal of the struct that gives the fields `given`: a required field
/// missing (the first in declaration order), or else a field the struct does not have (the
/// first given).
pub open spec fn field_error(info: StructInfo, given: Seq<Seq<char>>) -> Option<Seq<char>> {
    match first_not_in(texts(info.required_fields@), given) {
        Some(f) => Some("required struct field `"@ + f + "` not provided"@),
        None => match first_not_in(given, texts(info.fields@)) {
            Some(f) => Some(
                "unknown field `"@ + f + "` provided for struct `"@ + info.module_name.0@ + "`"@,
            ),
            None => None,
        },
    }
}

/// The struct literal `n` is tagged with its struct and names its fields with identifiers.
pub open spec fn checkable(structs: TagTable<ReferencedStruct>, n: Node) -> bool {
    n.kind is StructLiteral ==> structs.tag_of(n.id.local_id) is Some && forall|j: int|
        0 <= j < n.kind->StructLiteral_fields@.len() ==> (
        #[trigger] n.kind->StructLiteral_fields@[j]).0.kind is Identifier
}

/// The struct literals among `s` whose fields are wrong, each with what is wrong.
pub open spec fn invalid_literals(structs: TagTable<ReferencedStruct>, s: Seq<Node>) -> Seq<
    (Node, Seq<char>),
>
    decreases s.len(),
{
    if s.len() == 0 {
        Seq::empty()
    } else {
        invalid_literals(structs, s.drop_last()) + match s.last().kind {
            NodeKind::StructLiteral { fields, .. } => match structs.tag_of(s.last().id.local_id) {
                Some(rs) => match field_error(rs.struct_info, literal_names(fields@)) {
                    Some(m) => seq![(s.last(), m)],
                    None => Seq::empty(),
                },
                None => Seq::empty(),
            },
            _ => Seq::empty(),
        }
    }
}

/// `errors` reports each of `bad` in order, raised at the literal.
pub open spec fn reports(errors: Seq<Exception>, bad: Seq<(Node, Seq<char>)>) -> bool {
    &&& errors.len() == bad.len()
    &&& forall|k: int|
        0 <= k < bad.len() ==> (#[trigger] errors[k]).message@ == bad[k].1 && raised_at(
            errors[k],
            bad[k].0,
        )
}

/// The first of `names` not among `given`.
fn first_missing(names: &Vec<String>, given: &Vec<String>) -> (r: Option<String>)
    ensures
        match first_not_in(texts(names@), texts(given@)) {
            Some(f) => r matches Some(s) && s@ == f,
            None => r is None,
        },
{
    let ghost all = texts(names@);
    let mut i: usize = 0;
    assert(all.skip(0) =~= all);
    while i < names.len()
        invariant
            i <= names@.len(),
            all == texts(names@),
            first_not_in(all, texts(given@)) == first_not_in(all.skip(i as int), texts(given@)),
        decreases names.len() - i,
    {
        assert(all.skip(i as int)[0] == names@[i as int]@);
        assert(all.skip(i as int).skip(1) =~= all.skip(i + 1));
        if !contains_text(given, names[i].as_str()) {
            return Some(names[i].clone());
        }
        i = i + 1;
    }
    assert(all.skip(i as int).len() == 0);
    None
}

/// What is wrong with a literal of `info` giving the fields `given`, as an exception.
fn validate(info: &StructInfo, given: &Vec<String>) -> (r: Result<(), Exception>)
    ensures
        match field_error(*info, texts(given@)) {
            Some(m) => r matches Err(e) && e.message@ == m,
            None => r is Ok,
        },
{
    match first_missing(&info.required_fields, given) {
        Some(f) => {
            proof {
                reveal_strlit("required struct field `");
                reveal_strlit("` not provided");
            }
            let a = concat_str("required struct field `", f.as_str());
            return Err(Exception::new(concat_str(a.as_str(), "` not provided")));
        },
        None => {},
    }
    match first_missing(given, &info.fields) {
        Some(f) => {
            proof {
                reveal_strlit("unknown field `");
                reveal_strlit("` provided for struct `");
                reveal_strlit("`");
            }
            let a = concat_str("unknown field `", f.as_str());
            let b = concat_str(a.as_str(), "` provided for struct `");
            let c = concat_str(b.as_str(), info.module_name.0.as_str());
            Err(Exception::new(concat_str(c.as_str(), "`")))
        },
        None => Ok(()),
    }
}

/// The field names the literal gives.
fn given_names(fields: &Vec<(Node, Node)>) -> (r: Vec<String>)
    requires
        forall|j: int| 0 <= j < fields@.len() ==> (#[trigger] fields@[j]).0.kind is Identifier,
    ensures
        texts(r@) == literal_names(fields@),
{
    let mut out: Vec<String> = Vec::new();
    let mut i: usize = 0;
    while i < fields.len()
        invariant
            i <= fields@.len(),
            forall|j: int| 0 <= j < fields@.len() ==> (#[trigger] fields@[j]).0.kind is Identifier,
            out@.len() == i,
            forall|j: int| 0 <= j < i ==> #[trigger] out@[j]@ == fields@[j].0.kind->Identifier_0@,
        decreases fields.len() - i,
    {
        assert(fields@[i as int].0.kind is Identifier);
        match &fields[i].0.kind {
            NodeKind::Identifier(name) => out.push(name.clone()),
            _ => out.push(String::new()),
        }
        i = i + 1;
    }
    assert(texts(out@) =~= literal_names(fields@));
    out
}

/// Checks each struct literal against its struct: every required field given, no field the
/// struct does not have.  Each wrong literal is reported in `errors`, and then the phase fails.
pub fn validate_struct_fields_phase(
    ast: &Node,
    structs: &TagTable<ReferencedStruct>,
    errors: &mut Vec<Exception>,
) -> (r: Result<(), Exception>)
    requires
        child_counts_fit(*ast),
        forall|i: int|
            0 <= i < preorder(*ast).len() ==> checkable(*structs, #[trigger] preorder(*ast)[i]),
    ensures
        final(errors)@.take(old(errors)@.len() as int) == old(errors)@,
        reports(
            final(errors)@.skip(old(errors)@.len() as int),
            invalid_literals(*structs, preorder(*ast)),
        ),
        match r {
            Ok(()) => invalid_literals(*structs, preorder(*ast)).len() == 0,
            Err(e) => invalid_literals(*structs, preorder(*ast)).len() > 0 && e.message@
                == "errors validating struct fields"@,
        },
{
    let nodes = ast.iter();
    let ghost s = preorder(*ast);
    let ghost e0 = errors@;
    let mut errored = false;
    let mut i: usize = 0;
    assert(s.take(0) =~= Seq::<Node>::empty());
    assert(errors@.skip(e0.len() as int) =~= Seq::<Exception>::empty());
    while i < nodes.len()
        invariant
            i <= nodes@.len(),
            derefs(nodes@) == s,
            forall|j: int| 0 <= j < s.len() ==> checkable(*structs, #[trigger] s[j]),
            errors@.len() >= e0.len(),
            errors@.take(e0.len() as int) == e0,
            reports(errors@.skip(e0.len() as int), invalid_literals(*structs, s.take(i as int))),
            errored == (invalid_literals(*structs, s.take(i as int)).len() > 0),
        decreases nodes.len() - i,
    {
        let n = nodes[i];
        assert(*n == s[i as int]);
        assert(checkable(*structs, s[i as int]));
        let ghost t = s.take(i + 1);
        assert(t.drop_last() =~= s.take(i as int));
        assert(t.last() == s[i as int]);
        let ghost before = errors@;
        match &n.kind {
            NodeKind::StructLiteral { module: _, fields } => match structs.get(n.id.local_id) {
                Some(rs) => {
                    let given = given_names(fields);
                    match validate(&rs.struct_info, &given) {
                        Ok(()) => {
                            assert(invalid_literals(*structs, t) == invalid_literals(
                                *structs,
                                s.take(i as int),
                            ));
                        },
                        Err(e) => {
                            let mut e = e;
                            e.set_source_from_node(n);
                            errors.push(e);
                            errored = true;
                            proof {
                                let bad = invalid_literals(*structs, s.take(i as int));
                                let m = field_error(rs.struct_info, literal_names(fields@))->Some_0;
                                assert(invalid_literals(*structs, t) == bad.push((*n, m)));
                                let after = errors@.skip(e0.len() as int);
                                assert(after =~= before.skip(e0.len() as int).push(errors@.last()));
                                assert forall|k: int| 0 <= k < bad.len() + 1 implies (
                                #[trigger] after[k]).message@ == bad.push((*n, m))[k].1 && raised_at(
                                    after[k],
                                    bad.push((*n, m))[k].0,
                                ) by {
                                    if k < bad.len() {
                                        assert(after[k] == before.skip(e0.len() as int)[k]);
                                    }
                                }
                                assert(errors@.take(e0.len() as int) =~= before.take(
                                    e0.len() as int,
                                ));
                            }
                        },
                    }
                },
                None => {},
            },
            _ => {
                assert(invalid_literals(*structs, t) == invalid_literals(*structs, s.take(i as int)));
            },
        }
        i = i + 1;
    }
    assert(s.take(nodes@.len() as int) =~= s);
    if errored {
        proof {
            reveal_strlit("errors validating struct fields");
        }
        Err(Exception::new("errors validating struct fields".to_owned()))
    } else {
        Ok(())
    }
}

} // verus!

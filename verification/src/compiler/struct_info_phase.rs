use vstd::prelude::*;

use crate::ast::{child_counts_fit, constant_value, derefs, preorder, Node, NodeKind};
use crate::exception::Exception;
use crate::module::ModuleName;
use crate::string_utils::concat_str;
use crate::struct_info::{contains_text, default_views, texts, StructInfo};
use crate::value::{Val, Value};

verus! {

/// What a module's struct is made of: its fields in order, those without a default value,
/// and the default values of the others.
pub struct StructModel {
    pub fields: Seq<Seq<char>>,
    pub required: Seq<Seq<char>>,
    pub defaults: Seq<(Seq<char>, Val)>,
}

/// `info` describes a struct of `module` made of `m`.
pub open spec fn describes(info: StructInfo, module: Seq<char>, m: StructModel) -> bool {
    &&& info.module_name.0@ == module
    &&& texts(info.fields@) == m.fields
    &&& texts(info.required_fields@) == m.required
    &&& default_views(info.default_values@) == m.defaults
}

pub open spec fn duplicate_message(name: Seq<char>) -> Seq<char> {
    "duplicate field `"@ + name + "` in struct"@
}

pub open spec fn not_constant_message(name: Seq<char>) -> Seq<char> {
    "field `"@ + name + "` in struct not a compile time constant"@
}

/// Each field of the struct definition is named by an identifier.
pub open spec fn names_are_identifiers(fs: Seq<(Node, Option<Node>)>) -> bool {
    forall|i: int| 0 <= i < fs.len() ==> (#[trigger] fs[i]).0.kind is Identifier
}

/// The struct the fields define, read in order, or the message of the first error: a name seen
/// before, or a default value not made only of literals.
pub open spec fn struct_fields(fs: Seq<(Node, Option<Node>)>) -> Result<StructModel, Seq<char>>
    decreases fs.len(),
{
    if fs.len() == 0 {
        Ok(StructModel { fields: Seq::empty(), required: Seq::empty(), defaults: Seq::empty() })
    } else {
        match struct_fields(fs.drop_last()) {
            Err(m) => Err(m),
            Ok(st) => {
                let name = fs.last().0.kind->Identifier_0@;
                if st.fields.contains(name) {
                    Err(duplicate_message(name))
                } else {
                    match fs.last().1 {
                        Some(d) => match constant_value(d) {
                            Some(v) => Ok(
                                StructModel {
                                    fields: st.fields.push(name),
                                    defaults: st.defaults.push((name, v)),
                                    ..st
                                },
                            ),
                            None => Err(not_constant_message(name)),
                        },
                        None => Ok(
                            StructModel {
                                fields: st.fields.push(name),
                                required: st.required.push(name),
                                ..st
                            },
                        ),
                    }
                }
            },
        }
    }
}

/// The position of the first struct definition in `s`.
pub open spec fn first_struct_def(s: Seq<Node>) -> Option<int> {
    if exists|i: int| 0 <= i < s.len() && s[i].kind is StructDef {
        Some(
            choose|i: int|
                0 <= i < s.len() && s[i].kind is StructDef && forall|j: int|
                    0 <= j < i ==> !(s[j].kind is StructDef),
        )
    } else {
        None
    }
}

/// An error reading the first `k` fields is the error reading them all.
proof fn lemma_struct_fields_err(fs: Seq<(Node, Option<Node>)>, k: int)
    requires
        0 <= k <= fs.len(),
        struct_fields(fs.take(k)) is Err,
    ensures
        struct_fields(fs) == struct_fields(fs.take(k)),
    decreases fs.len(),
{
    if k == fs.len() {
        assert(fs.take(k) =~= fs);
    } else {
        assert(fs.drop_last().take(k) =~= fs.take(k));
        lemma_struct_fields_err(fs.drop_last(), k);
    }
}

/// Reads the struct definition's fields into `info`.
fn read_fields(fields: &Vec<(Node, Option<Node>)>, module_name: ModuleName) -> (r: Result<
    StructInfo,
    Exception,
>)
    requires
        names_are_identifiers(fields@),
    ensures
        match struct_fields(fields@) {
            Ok(m) => r matches Ok(info) && describes(info, module_name.0@, m),
            Err(msg) => r matches Err(e) && e.message@ == msg,
        },
{
    let ghost module = module_name.0@;
    let mut info = StructInfo::new(module_name);
    let mut i: usize = 0;
    assert(fields@.take(0) =~= Seq::<(Node, Option<Node>)>::empty());
    assert(texts(info.fields@) =~= Seq::<Seq<char>>::empty());
    assert(texts(info.required_fields@) =~= Seq::<Seq<char>>::empty());
    assert(default_views(info.default_values@) =~= Seq::<(Seq<char>, Val)>::empty());
    while i < fields.len()
        invariant
            i <= fields@.len(),
            names_are_identifiers(fields@),
            struct_fields(fields@.take(i as int)) matches Ok(m) && describes(info, module, m),
        decreases fields.len() - i,
    {
        let ghost t = fields@.take(i + 1);
        assert(t.drop_last() =~= fields@.take(i as int));
        assert(t.last() == fields@[i as int]);
        let name = match &fields[i].0.kind {
            NodeKind::Identifier(name) => name,
            _ => {
                assert(fields@[i as int].0.kind is Identifier);
                return Err(Exception::new(String::new()));
            },
        };
        if contains_text(&info.fields, name.as_str()) {
            proof {
                reveal_strlit("duplicate field `");
                reveal_strlit("` in struct");
            }
            let a = concat_str("duplicate field `", name.as_str());
            let m = concat_str(a.as_str(), "` in struct");
            proof {
                lemma_struct_fields_err(fields@, i + 1);
            }
            return Err(Exception::new(m));
        }
        match &fields[i].1 {
            Some(d) => match d.compile_time_value() {
                Some(v) => {
                    let ghost before = info;
                    info.fields.push(name.clone());
                    info.default_values.push((name.clone(), v));
                    assert(texts(info.fields@) =~= texts(before.fields@).push(name@));
                    assert(default_views(info.default_values@) =~= default_views(
                        before.default_values@,
                    ).push((name@, v@)));
                },
                None => {
                    proof {
                        reveal_strlit("field `");
                        reveal_strlit("` in struct not a compile time constant");
                    }
                    let a = concat_str("field `", name.as_str());
                    let m = concat_str(a.as_str(), "` in struct not a compile time constant");
                    proof {
                        lemma_struct_fields_err(fields@, i + 1);
                    }
                    return Err(Exception::new(m));
                },
            },
            None => {
                let ghost before = info;
                info.fields.push(name.clone());
                info.required_fields.push(name.clone());
                assert(texts(info.fields@) =~= texts(before.fields@).push(name@));
                assert(texts(info.required_fields@) =~= texts(before.required_fields@).push(
                    name@,
                ));
            },
        }
        i = i + 1;
    }
    assert(fields@.take(fields@.len() as int) =~= fields@);
    Ok(info)
}

/// The fields of the module's first struct definition, if it has one, are named by
/// identifiers.
pub open spec fn struct_names_ok(ast: Node) -> bool {
    match first_struct_def(preorder(ast)) {
        Some(i) => names_are_identifiers(preorder(ast)[i].kind->StructDef_fields@),
        None => true,
    }
}

/// `r` is what reading the struct of module `module` (syntax tree `ast`) gives: none without a
/// struct definition; else an error if no `module` statement names the module, or the first
/// definition's fields are not valid; else the struct they describe.
pub open spec fn struct_info_outcome(
    module: Seq<char>,
    ast: Node,
    r: Result<Option<StructInfo>, Exception>,
) -> bool {
    match first_struct_def(preorder(ast)) {
        None => r matches Ok(None),
        Some(i) => if !(exists|j: int|
            0 <= j < preorder(ast).len() && (#[trigger] preorder(ast)[j]).kind is Module) {
            r matches Err(e) && e.message@ == "structs must be defined in a module"@
        } else {
            match struct_fields(preorder(ast)[i].kind->StructDef_fields@) {
                Ok(m) => r matches Ok(Some(info)) && describes(info, module, m),
                Err(msg) => r matches Err(e) && e.message@ == msg,
            }
        },
    }
}

/// Whether each field is named by an identifier.
fn identifiers_only(fields: &Vec<(Node, Option<Node>)>) -> (b: bool)
    ensures
        b == names_are_identifiers(fields@),
{
    let mut j: usize = 0;
    while j < fields.len()
        invariant
            j <= fields@.len(),
            forall|x: int| 0 <= x < j ==> (#[trigger] fields@[x]).0.kind is Identifier,
        decreases fields.len() - j,
    {
        if !matches!(fields[j].0.kind, NodeKind::Identifier(_)) {
            assert(!(fields@[j as int].0.kind is Identifier));
            return false;
        }
        j = j + 1;
    }
    true
}

/// Whether the fields of the module's first struct definition, if it has one, are named by
/// identifiers.
pub fn check_struct_names(ast: &Node) -> (b: bool)
    requires
        child_counts_fit(*ast),
    ensures
        b == struct_names_ok(*ast),
{
    let nodes = ast.iter();
    let ghost s = preorder(*ast);
    let mut found: Option<usize> = None;
    let mut i: usize = 0;
    while i < nodes.len()
        invariant_except_break
            found is None,
        invariant
            i <= nodes@.len(),
            derefs(nodes@) == s,
            forall|j: int| 0 <= j < i ==> !(s[j].kind is StructDef),
        ensures
            derefs(nodes@) == s,
            match found {
                Some(k) => k < nodes@.len() && s[k as int].kind is StructDef && forall|j: int|
                    0 <= j < k ==> !(s[j].kind is StructDef),
                None => forall|j: int| 0 <= j < s.len() ==> !(s[j].kind is StructDef),
            },
        decreases nodes.len() - i,
    {
        let n = nodes[i];
        assert(*n == s[i as int]);
        if matches!(n.kind, NodeKind::StructDef { .. }) {
            found = Some(i);
            break ;
        }
        i = i + 1;
    }
    let k = match found {
        Some(k) => k,
        None => {
            assert(first_struct_def(s) is None);
            return true;
        },
    };
    proof {
        let f = choose|x: int|
            0 <= x < s.len() && s[x].kind is StructDef && forall|j: int|
                0 <= j < x ==> !(s[j].kind is StructDef);
        assert(0 <= k < s.len() && s[k as int].kind is StructDef);
        assert(first_struct_def(s) == Some(f));
        if f < k {
            assert(!(s[f].kind is StructDef));
        }
        if k < f {
            assert(!(s[k as int].kind is StructDef));
        }
        assert(f == k);
    }
    let n = nodes[k];
    assert(*n == s[k as int]);
    match &n.kind {
        NodeKind::StructDef { fields } => {
            assert(s[k as int].kind->StructDef_fields@ == fields@);
            identifiers_only(fields)
        },
        _ => false,
    }
}

/// The struct the module defines, if it defines one: built from its first struct definition
/// (in pre-order), which must stand in a module.
#[verifier::rlimit(40)]
pub fn struct_info_phase(module_name: ModuleName, ast: &Node) -> (r: Result<
    Option<StructInfo>,
    Exception,
>)
    requires
        child_counts_fit(*ast),
        struct_names_ok(*ast),
    ensures
        struct_info_outcome(module_name.0@, *ast, r),
{
    let nodes = ast.iter();
    let ghost s = preorder(*ast);
    let mut found: Option<usize> = None;
    let mut i: usize = 0;
    while i < nodes.len()
        invariant_except_break
            found is None,
        invariant
            i <= nodes@.len(),
            derefs(nodes@) == s,
            forall|j: int| 0 <= j < i ==> !(s[j].kind is StructDef),
        ensures
            derefs(nodes@) == s,
            match found {
                Some(k) => k < nodes@.len() && s[k as int].kind is StructDef && forall|j: int|
                    0 <= j < k ==> !(s[j].kind is StructDef),
                None => forall|j: int| 0 <= j < s.len() ==> !(s[j].kind is StructDef),
            },
        decreases nodes.len() - i,
    {
        let n = nodes[i];
        assert(*n == s[i as int]);
        if matches!(n.kind, NodeKind::StructDef { .. }) {
            found = Some(i);
            break ;
        }
        i = i + 1;
    }
    let k = match found {
        Some(k) => k,
        None => {
            return Ok(None);
        },
    };
    proof {
        let c = choose|c: int|
            0 <= c < s.len() && s[c].kind is StructDef && forall|j: int|
                0 <= j < c ==> !(s[j].kind is StructDef);
        assert(c == k) by {
            if c < k {
            } else if c > k {
                assert(s[k as int].kind is StructDef);
            }
        }
    }
    let mut has_module = false;
    let mut j: usize = 0;
    while j < nodes.len()
        invariant
            j <= nodes@.len(),
            derefs(nodes@) == s,
            has_module == exists|q: int| 0 <= q < j && (#[trigger] s[q]).kind is Module,
        decreases nodes.len() - j,
    {
        let n = nodes[j];
        assert(*n == s[j as int]);
        if matches!(n.kind, NodeKind::Module(_)) {
            has_module = true;
        }
        j = j + 1;
    }
    if !has_module {
        proof {
            reveal_strlit("structs must be defined in a module");
        }
        return Err(Exception::new("structs must be defined in a module".to_owned()));
    }
    let def = nodes[k];
    assert(*def == s[k as int]);
    match &def.kind {
        NodeKind::StructDef { fields } => match read_fields(fields, module_name) {
            Ok(info) => Ok(Some(info)),
            Err(e) => Err(e),
        },
        _ => Ok(None),
    }
}

} // verus!

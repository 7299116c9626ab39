use vstd::prelude::*;

use crate::module::ModuleName;
use crate::order::{compare_str, lemma_order_chars, Order};
use crate::value::{Val, Value};

verus! {

/// What the compiler knows of a module's struct: its fields in declaration order, those
/// without a default value, and the default values of the others.
#[derive(Debug)]
pub struct StructInfo {
    pub module_name: ModuleName,
    pub fields: Vec<String>,
    pub required_fields: Vec<String>,
    pub default_values: Vec<(String, Value)>,
}

/// The names, as texts.
pub open spec fn texts(v: Seq<String>) -> Seq<Seq<char>> {
    Seq::new(v.len(), |i: int| v[i]@)
}

/// The default values, as models.
pub open spec fn default_views(v: Seq<(String, Value)>) -> Seq<(Seq<char>, Val)> {
    Seq::new(v.len(), |i: int| (v[i].0@, v[i].1@))
}

/// `a` and `b` describe the same struct.
pub open spec fn same_struct(a: StructInfo, b: StructInfo) -> bool {
    &&& a.module_name.0@ == b.module_name.0@
    &&& texts(a.fields@) == texts(b.fields@)
    &&& texts(a.required_fields@) == texts(b.required_fields@)
    &&& default_views(a.default_values@) == default_views(b.default_values@)
}

/// Whether `name` is among `names`.
pub fn contains_text(names: &Vec<String>, name: &str) -> (r: bool)
    ensures
        r == texts(names@).contains(name@),
{
    let mut i: usize = 0;
    while i < names.len()
        invariant
            i <= names@.len(),
            forall|j: int| 0 <= j < i ==> names@[j]@ != name@,
        decreases names.len() - i,
    {
        proof {
            lemma_order_chars(names@[i as int]@, name@);
        }
        if compare_str(names[i].as_str(), name) == Order::Equal {
            assert(texts(names@)[i as int] == name@);
            return true;
        }
        i = i + 1;
    }
    proof {
        if texts(names@).contains(name@) {
            let j = choose|j: int| 0 <= j < texts(names@).len() && texts(names@)[j] == name@;
            assert(names@[j]@ == name@);
        }
    }
    false
}

fn copy_texts(v: &Vec<String>) -> (r: Vec<String>)
    ensures
        texts(r@) == texts(v@),
{
    let mut out: Vec<String> = Vec::new();
    let mut i: usize = 0;
    while i < v.len()
        invariant
            i <= v@.len(),
            out@.len() == i,
            forall|j: int| 0 <= j < i ==> #[trigger] out@[j]@ == v@[j]@,
        decreases v.len() - i,
    {
        out.push(v[i].clone());
        i = i + 1;
    }
    assert(texts(out@) =~= texts(v@));
    out
}

impl StructInfo {
    /// A copy of the description.
    pub fn duplicate(&self) -> (r: StructInfo)
        ensures
            same_struct(r, *self),
    {
        let mut defaults: Vec<(String, Value)> = Vec::new();
        let mut i: usize = 0;
        while i < self.default_values.len()
            invariant
                i <= self.default_values@.len(),
                defaults@.len() == i,
                forall|j: int|
                    0 <= j < i ==> #[trigger] defaults@[j].0@ == self.default_values@[j].0@
                        && defaults@[j].1@ == self.default_values@[j].1@,
            decreases self.default_values.len() - i,
        {
            defaults.push((self.default_values[i].0.clone(), self.default_values[i].1.duplicate()));
            i = i + 1;
        }
        assert(default_views(defaults@) =~= default_views(self.default_values@));
        StructInfo {
            module_name: ModuleName(self.module_name.0.clone()),
            fields: copy_texts(&self.fields),
            required_fields: copy_texts(&self.required_fields),
            default_values: defaults,
        }
    }

    /// A struct of `module_name` with no fields yet.
    pub fn new(module_name: ModuleName) -> (r: StructInfo)
        ensures
            r.module_name == module_name,
            r.fields@.len() == 0,
            r.required_fields@.len() == 0,
            r.default_values@.len() == 0,
    {
        StructInfo {
            module_name,
            fields: Vec::new(),
            required_fields: Vec::new(),
            default_values: Vec::new(),
        }
    }
}

} // verus!

use vstd::prelude::*;

use crate::debug_text::value_debug;
use crate::dict::{dict_from_pairs, dict_of};
use crate::exception::Exception;
use crate::module::ModuleName;
use crate::ops::is_enumerable;
use crate::string_utils::concat_str;
use crate::value::{entry, lemma_pair_views, pair_views, Val, Value};

verus! {

/// The entries of a struct with the given fields: each name as a string value, with its value.
pub open spec fn field_entries(fields: Seq<(String, Value)>) -> Seq<Val> {
    Seq::new(fields.len(), |i: int| entry(Val::Str(fields[i].0@), fields[i].1@))
}

/// The message of the exception `ensure_enumerable` raises.
pub open spec fn not_enumerable_message(info: Seq<char>, v: Val) -> Seq<char> {
    info + ": "@ + value_debug(v) + " is not enumerable"@
}

impl Value {
    /// The contents of a string value.
    pub fn unwrap_string(&self) -> (r: &str)
        requires
            self is String,
        ensures
            r@ == self->String_0@,
    {
        match self {
            Value::String(s) => s.as_str(),
            _ => "",
        }
    }

    /// The name of a symbol.
    pub fn unwrap_symbol(&self) -> (r: String)
        requires
            self is Symbol,
        ensures
            r@ == self->Symbol_0@,
    {
        match self {
            Value::Symbol(s) => s.clone(),
            _ => String::new(),
        }
    }

    /// The dictionary of the key/value pairs; a later pair replaces an earlier one with the
    /// same key.
    pub fn dict(pairs: Vec<(Value, Value)>) -> (r: Value)
        ensures
            r@ == Val::Dict(dict_of(pair_views(pairs@))),
    {
        Value::Dict(dict_from_pairs(pairs))
    }

    /// The struct of `module` with the given fields; a later field replaces an earlier one
    /// with the same name.
    pub fn struct_(module: ModuleName, fields: Vec<(String, Value)>) -> (r: Value)
        ensures
            r@ == Val::Struct(module.0@, dict_of(field_entries(fields@))),
    {
        let mut pairs: Vec<(Value, Value)> = Vec::new();
        let mut fields = fields;
        let ghost orig = fields@;
        let mut rest: Vec<(String, Value)> = Vec::new();
        while fields.len() > 0
            invariant
                fields@.len() + rest@.len() == orig.len(),
                forall|j: int| 0 <= j < fields@.len() ==> #[trigger] fields@[j] == orig[j],
                forall|j: int|
                    0 <= j < rest@.len() ==> #[trigger] rest@[j] == orig[orig.len() - 1 - j],
            decreases fields.len(),
        {
            let f = fields.pop().unwrap();
            rest.push(f);
        }
        while rest.len() > 0
            invariant
                rest@.len() <= orig.len(),
                forall|j: int|
                    0 <= j < rest@.len() ==> #[trigger] rest@[j] == orig[orig.len() - 1 - j],
                pair_views(pairs@) == field_entries(orig.take(orig.len() - rest@.len())),
            decreases rest.len(),
        {
            let ghost done = orig.len() - rest@.len();
            let ghost before = pairs@;
            let (name, value) = rest.pop().unwrap();
            assert(orig[done] == (name, value));
            pairs.push((Value::String(name), value));
            proof {
                lemma_pair_views(pairs@);
                lemma_pair_views(before);
                let t = orig.take(done + 1);
                assert forall|i: int| 0 <= i < done + 1 implies #[trigger] pair_views(pairs@)[i]
                    == field_entries(t)[i] by {
                    if i < done {
                        assert(pairs@[i] == before[i]);
                        assert(field_entries(orig.take(done))[i] == field_entries(t)[i]);
                    }
                }
                assert(pair_views(pairs@) =~= field_entries(t));
            }
        }
        assert(orig.take(orig.len() as int) =~= orig);
        Value::Struct(module.0, dict_from_pairs(pairs))
    }

    /// The value itself when it can be enumerated (a string or a list); else an exception
    /// whose message starts with `info`.
    pub fn ensure_enumerable(&self, info: &str) -> (r: Result<Value, Exception>)
        ensures
            match r {
                Ok(v) => is_enumerable(self@) && v@ == self@,
                Err(e) => !is_enumerable(self@) && e.shown is None && e.message@ == not_enumerable_message(
                    info@,
                    self@,
                ),
            },
    {
        if self.is_enumerable() {
            Ok(self.duplicate())
        } else {
            proof {
                reveal_strlit(": ");
                reveal_strlit(" is not enumerable");
            }
            let a = concat_str(info, ": ");
            let shown = self.debug_text();
            let b = concat_str(a.as_str(), shown.as_str());
            let m = concat_str(b.as_str(), " is not enumerable");
            Err(Exception::new(m))
        }
    }
}

} // verus!

use vstd::prelude::*;

use crate::ast::{BinOp, UnaryOp};
use crate::debug_text::value_debug;
use crate::dict::{
    dict_get, dict_insert, dict_put, entries_wf, has_key, is_entry, key_of, lookup, val_of,
};
use crate::exception::{raise, Exception};
use crate::numbers::{
    checked_div_trunc, decimal, digits, div_trunc, int_to_string, parse_i64, parse_int,
    usize_to_string,
};
use crate::order::Order;
use crate::string_utils::{char_to_string, concat_str, to_chars};
use crate::value::{
    compare, equals, lemma_order_total_order, lemma_pair_views, lemma_views, order_val, pair_views,
    views, Val, Value,
};

verus! {

/// The error for an index past the end of a sequence: the index, then what the sequence is
/// and its length (`what` ends with how its length is called, such as "list of length").
pub fn out_of_bounds(index: usize, what: &str, len: usize) -> (r: Exception)
    ensures
        r.shown is None && r.message@ == "index "@ + digits(index as nat) + " out of bounds for "@ + what@ + " "@
            + digits(len as nat),
        r.source is None,
{
    proof {
        reveal_strlit("index ");
        reveal_strlit(" out of bounds for ");
        reveal_strlit(" ");
    }
    let a = concat_str("index ", usize_to_string(index).as_str());
    let b = concat_str(a.as_str(), " out of bounds for ");
    let c = concat_str(b.as_str(), what);
    let d = concat_str(c.as_str(), " ");
    Exception::new(concat_str(d.as_str(), usize_to_string(len).as_str()))
}

/// The error for a field a struct does not have.
pub fn missing_struct_field(key: &str, module: &str) -> (r: Exception)
    ensures
        r.shown is None && r.message@ == "field `"@ + key@ + "` not found in struct `"@ + module@ + "`"@,
        r.source is None,
{
    proof {
        reveal_strlit("field `");
        reveal_strlit("` not found in struct `");
        reveal_strlit("`");
    }
    let a = concat_str("field `", key);
    let b = concat_str(a.as_str(), "` not found in struct `");
    let c = concat_str(b.as_str(), module);
    Exception::new(concat_str(c.as_str(), "`"))
}

// ---------------------------------------------------------------------------------------------
// Well-formed values
// ---------------------------------------------------------------------------------------------

/// A value is well formed when every dictionary and struct in it has its entries in
/// increasing key order, each key once, and every struct field name is a string.
pub open spec fn val_wf(v: Val) -> bool
    decreases v,
{
    match v {
        Val::Tuple(s) => vals_wf(s),
        Val::List(s) => vals_wf(s),
        Val::Dict(es) => entries_wf(es) && vals_wf(es),
        Val::Struct(_, es) => entries_wf(es) && vals_wf(es) && forall|i: int|
            0 <= i < es.len() ==> #[trigger] key_of(es[i]) is Str,
        _ => true,
    }
}

pub open spec fn vals_wf(s: Seq<Val>) -> bool
    decreases s,
{
    forall|i: int| 0 <= i < s.len() ==> #[trigger] val_wf(s[i])
}

// ---------------------------------------------------------------------------------------------
// Meaning of the operations
// ---------------------------------------------------------------------------------------------

/// `nil` and `false` are falsey; everything else is truthy.
pub open spec fn truthy(v: Val) -> bool {
    match v {
        Val::Nil => false,
        Val::Bool(b) => b,
        _ => true,
    }
}

/// Strings (by character) and lists can be indexed and iterated.
pub open spec fn is_enumerable(v: Val) -> bool {
    v is Str || v is List
}

pub open spec fn enum_len(v: Val) -> int {
    match v {
        Val::Str(s) => s.len() as int,
        Val::List(l) => l.len() as int,
        _ => 0,
    }
}

/// Element `i` of a string (as a one-character string) or of a list.
pub open spec fn enum_at(v: Val, i: int) -> Option<Val> {
    match v {
        Val::Str(s) => if 0 <= i < s.len() {
            Some(Val::Str(seq![s[i]]))
        } else {
            None
        },
        Val::List(l) => if 0 <= i < l.len() {
            Some(l[i])
        } else {
            None
        },
        _ => None,
    }
}

/// A value used as an index: a non-negative integer.
pub open spec fn to_index(v: Val) -> Option<int> {
    match v {
        Val::Int(i) => if 0 <= i <= usize::MAX {
            Some(i as int)
        } else {
            None
        },
        _ => None,
    }
}

/// `v[index]`: an element of a string, list or tuple, or the entry of a dictionary (`nil`
/// when the key is missing).  `None` is an error.
pub open spec fn at(v: Val, index: Val) -> Option<Val> {
    if is_enumerable(v) {
        match to_index(index) {
            Some(i) => enum_at(v, i),
            None => None,
        }
    } else {
        match v {
            Val::Tuple(t) => match to_index(index) {
                Some(i) => if i < t.len() {
                    Some(t[i])
                } else {
                    None
                },
                None => None,
            },
            Val::Dict(es) => match lookup(es, index) {
                Some(x) => Some(x),
                None => Some(Val::Nil),
            },
            _ => None,
        }
    }
}

/// `v.key`: the entry of a dictionary under the string `key`, or the field of a struct.
/// `None` is an error.
pub open spec fn at_field(v: Val, key: Seq<char>) -> Option<Val> {
    match v {
        Val::Dict(es) => lookup(es, Val::Str(key)),
        Val::Struct(_, es) => lookup(es, Val::Str(key)),
        _ => None,
    }
}

pub open spec fn in_i64(x: int) -> bool {
    i64::MIN <= x <= i64::MAX
}

/// Integer arithmetic, `None` when the result does not fit or on division by zero.
pub open spec fn int_op(op: BinOp, a: int, b: int) -> Option<int> {
    let r = match op {
        BinOp::Add => a + b,
        BinOp::Sub => a - b,
        BinOp::Mul => a * b,
        _ => if b == 0 {
            0
        } else {
            div_trunc(a, b)
        },
    };
    if op == BinOp::Div && b == 0 {
        None
    } else if in_i64(r) {
        Some(r)
    } else {
        None
    }
}

/// The result of a binary operator other than `||` and `&&`, or `None` when the operator
/// does not apply to the operands.
pub open spec fn bin_op(op: BinOp, l: Val, r: Val) -> Option<Val> {
    match op {
        BinOp::Add => match (l, r) {
            (Val::Str(a), Val::Str(b)) => Some(Val::Str(a + b)),
            (Val::Int(a), Val::Int(b)) => match int_op(op, a as int, b as int) {
                Some(x) => Some(Val::Int(x as i64)),
                None => None,
            },
            (Val::List(a), Val::List(b)) => Some(Val::List(a + b)),
            _ => None,
        },
        BinOp::Sub | BinOp::Mul | BinOp::Div => match (l, r) {
            (Val::Int(a), Val::Int(b)) => match int_op(op, a as int, b as int) {
                Some(x) => Some(Val::Int(x as i64)),
                None => None,
            },
            _ => None,
        },
        BinOp::Eq => Some(Val::Bool(l == r)),
        BinOp::Neq => Some(Val::Bool(l != r)),
        BinOp::Gt => if l.rank() == r.rank() {
            Some(Val::Bool(order_val(l, r) == Order::Greater))
        } else {
            None
        },
        BinOp::Gte => if l.rank() == r.rank() {
            Some(Val::Bool(order_val(l, r) != Order::Less))
        } else {
            None
        },
        BinOp::Lt => if l.rank() == r.rank() {
            Some(Val::Bool(order_val(l, r) == Order::Less))
        } else {
            None
        },
        BinOp::Lte => if l.rank() == r.rank() {
            Some(Val::Bool(order_val(l, r) != Order::Greater))
        } else {
            None
        },
        _ => None,
    }
}

/// The result of a unary operator, or `None` when it does not apply.
pub open spec fn unary_op(op: UnaryOp, v: Val) -> Option<Val> {
    match (op, v) {
        (UnaryOp::Neg, Val::Int(i)) => if i != i64::MIN {
            Some(Val::Int((-i) as i64))
        } else {
            None
        },
        (UnaryOp::LogicalNeg, v) => Some(Val::Bool(!truthy(v))),
        _ => None,
    }
}

pub open spec fn cast_to_int(v: Val) -> Option<Val> {
    match v {
        Val::Int(_) => Some(v),
        Val::Bool(b) => Some(Val::Int(if b { 1 } else { 0 })),
        Val::Str(s) => match parse_i64(s) {
            Some(i) => Some(Val::Int(i)),
            None => None,
        },
        _ => None,
    }
}

pub open spec fn cast_to_string(v: Val) -> Option<Val> {
    match v {
        Val::Str(_) => Some(v),
        Val::Int(i) => Some(Val::Str(decimal(i as int))),
        Val::Bool(b) => Some(Val::Str(if b { "true"@ } else { "false"@ })),
        _ => None,
    }
}

pub open spec fn cast_to_symbol(v: Val) -> Option<Val> {
    match v {
        Val::Str(s) => Some(Val::Symbol(s)),
        _ => None,
    }
}

/// The name of the type of a value.
pub open spec fn name_of_type(v: Val) -> Seq<char> {
    match v {
        Val::Nil => "nil"@,
        Val::Symbol(_) => "symbol"@,
        Val::Bool(_) => "bool"@,
        Val::Str(_) => "string"@,
        Val::Int(_) => "int"@,
        Val::NativeFunc(_) | Val::NativeClosure(_) | Val::Function(_) | Val::Closure(_) =>
            "function"@,
        Val::Tuple(_) => "tuple"@,
        Val::List(_) => "list"@,
        Val::Dict(_) => "dict"@,
        Val::Struct(_, _) => "struct"@,
    }
}

/// What `v[index] = x` makes of `v`; `None` when it does not apply.
pub open spec fn set_at_value(v: Val, index: Val, x: Val) -> Option<Val> {
    match v {
        Val::List(l) => match to_index(index) {
            Some(i) => if i < l.len() {
                Some(Val::List(l.update(i, x)))
            } else {
                None
            },
            None => None,
        },
        Val::Tuple(t) => match to_index(index) {
            Some(i) => if i < t.len() {
                Some(Val::Tuple(t.update(i, x)))
            } else {
                None
            },
            None => None,
        },
        Val::Dict(es) => Some(Val::Dict(dict_put(es, index, x))),
        _ => None,
    }
}

/// What `v.key = x` makes of `v`; `None` when it does not apply.
pub open spec fn set_field_value(v: Val, key: Seq<char>, x: Val) -> Option<Val> {
    match v {
        Val::Dict(es) => if has_key(es, Val::Str(key)) {
            Some(Val::Dict(dict_put(es, Val::Str(key), x)))
        } else {
            None
        },
        Val::Struct(m, es) => if has_key(es, Val::Str(key)) {
            Some(Val::Struct(m, dict_put(es, Val::Str(key), x)))
        } else {
            None
        },
        _ => None,
    }
}

/// The message for an index past the end of a sequence.
pub open spec fn out_of_bounds_text(index: int, what: Seq<char>, len: int) -> Seq<char> {
    "index "@ + digits(index as nat) + " out of bounds for "@ + what + " "@ + digits(len as nat)
}

/// The error message of `enum_at(v, i)` when it has no result.
pub open spec fn enum_at_error(v: Val, i: int) -> Seq<char> {
    match v {
        Val::Str(s) => out_of_bounds_text(i, "string of length"@, s.len() as int),
        Val::List(l) => out_of_bounds_text(i, "string of length"@, l.len() as int),
        _ => "not enumerable"@,
    }
}

/// The error message of `at(v, index)` when it has no result.
pub open spec fn at_error(v: Val, index: Val) -> Seq<char> {
    if is_enumerable(v) {
        match to_index(index) {
            Some(i) => enum_at_error(v, i),
            None => "invalid index"@,
        }
    } else {
        match v {
            Val::Tuple(t) => match to_index(index) {
                Some(i) => out_of_bounds_text(i, "tuple of size"@, t.len() as int),
                None => "invalid index"@,
            },
            _ => "cannot index in to value"@,
        }
    }
}

/// The error message of `at_field(v, key)` (and of setting the field) when the field is not
/// there.
pub open spec fn field_error(v: Val, key: Seq<char>) -> Seq<char> {
    match v {
        Val::Dict(_) => "field not found in dict"@,
        Val::Struct(m, _) => "field `"@ + key + "` not found in struct `"@ + m + "`"@,
        _ => "cannot access field"@,
    }
}

/// The error message of `set_at_value(v, index, x)` when it has no result.
pub open spec fn set_at_error(v: Val, index: Val) -> Seq<char> {
    match v {
        Val::List(l) => match to_index(index) {
            Some(i) => out_of_bounds_text(i, "list of length"@, l.len() as int),
            None => "invalid index"@,
        },
        Val::Tuple(t) => match to_index(index) {
            Some(i) => out_of_bounds_text(i, "tuple of size"@, t.len() as int),
            None => "invalid index"@,
        },
        _ => "cannot index in to value"@,
    }
}

/// The error message of `bin_op(op, l, r)` when it has no result: integer arithmetic that
/// overflows or divides by zero, else the operator and both operands by their debug text.
pub open spec fn bin_op_error(op: BinOp, l: Val, r: Val) -> Seq<char> {
    if is_arithmetic(op) && l is Int && r is Int {
        "integer overflow or division by zero"@
    } else {
        "cannot apply `"@ + bin_op_name(op) + "` to "@ + value_debug(l) + " and "@ + value_debug(r)
    }
}

/// `+`, `-`, `*` or `/`.
pub open spec fn is_arithmetic(op: BinOp) -> bool {
    op is Add || op is Sub || op is Mul || op is Div
}

/// The name of a binary operator, as its debug text shows it.
pub open spec fn bin_op_name(op: BinOp) -> Seq<char> {
    match op {
        BinOp::Add => "Add"@,
        BinOp::Sub => "Sub"@,
        BinOp::Mul => "Mul"@,
        BinOp::Div => "Div"@,
        BinOp::LogicalOr => "LogicalOr"@,
        BinOp::LogicalAnd => "LogicalAnd"@,
        BinOp::Eq => "Eq"@,
        BinOp::Neq => "Neq"@,
        BinOp::Gt => "Gt"@,
        BinOp::Gte => "Gte"@,
        BinOp::Lt => "Lt"@,
        BinOp::Lte => "Lte"@,
    }
}

/// The name of a unary operator, as its debug text shows it.
pub open spec fn unary_op_name(op: UnaryOp) -> Seq<char> {
    match op {
        UnaryOp::Neg => "Neg"@,
        UnaryOp::LogicalNeg => "LogicalNeg"@,
    }
}

/// The error message of `unary_op(op, v)` when it has no result: negating the least
/// integer overflows; else the operator and the value are named.
pub open spec fn unary_error(op: UnaryOp, v: Val) -> Seq<char> {
    if op is Neg && v is Int {
        "integer overflow"@
    } else {
        "cannot "@ + unary_op_name(op) + " "@ + value_debug(v)
    }
}

fn bin_op_name_text(op: BinOp) -> (r: &'static str)
    ensures
        r@ == bin_op_name(op),
{
    proof {
        reveal_strlit("Add");
        reveal_strlit("Sub");
        reveal_strlit("Mul");
        reveal_strlit("Div");
        reveal_strlit("LogicalOr");
        reveal_strlit("LogicalAnd");
        reveal_strlit("Eq");
        reveal_strlit("Neq");
        reveal_strlit("Gt");
        reveal_strlit("Gte");
        reveal_strlit("Lt");
        reveal_strlit("Lte");
    }
    match op {
        BinOp::Add => "Add",
        BinOp::Sub => "Sub",
        BinOp::Mul => "Mul",
        BinOp::Div => "Div",
        BinOp::LogicalOr => "LogicalOr",
        BinOp::LogicalAnd => "LogicalAnd",
        BinOp::Eq => "Eq",
        BinOp::Neq => "Neq",
        BinOp::Gt => "Gt",
        BinOp::Gte => "Gte",
        BinOp::Lt => "Lt",
        BinOp::Lte => "Lte",
    }
}

/// The error for a binary operator that does not apply to its operands.
fn operands_error(op: BinOp, l: &Value, r: &Value) -> (e: Exception)
    ensures
        e.shown is None && e.message@ == "cannot apply `"@ + bin_op_name(op) + "` to "@ + value_debug(l@) + " and "@
            + value_debug(r@),
        e.source is None,
{
    proof {
        reveal_strlit("cannot apply `");
        reveal_strlit("` to ");
        reveal_strlit(" and ");
    }
    let t = concat_str("cannot apply `", bin_op_name_text(op));
    let t = concat_str(t.as_str(), "` to ");
    let t = concat_str(t.as_str(), l.debug_text().as_str());
    let t = concat_str(t.as_str(), " and ");
    Exception::new(concat_str(t.as_str(), r.debug_text().as_str()))
}

/// The error for a unary operator that does not apply to its operand.
fn operand_error(op: UnaryOp, v: &Value) -> (e: Exception)
    ensures
        e.shown is None && e.message@ == "cannot "@ + unary_op_name(op) + " "@ + value_debug(v@),
        e.source is None,
{
    proof {
        reveal_strlit("cannot ");
        reveal_strlit(" ");
        reveal_strlit("Neg");
        reveal_strlit("LogicalNeg");
    }
    let name = match op {
        UnaryOp::Neg => "Neg",
        UnaryOp::LogicalNeg => "LogicalNeg",
    };
    let t = concat_str("cannot ", name);
    let t = concat_str(t.as_str(), " ");
    Exception::new(concat_str(t.as_str(), v.debug_text().as_str()))
}

/// The error message of `cast_to_int(v)` when it has no result.
pub open spec fn cast_to_int_error(v: Val) -> Seq<char> {
    match v {
        Val::Str(_) => "failed to parse string to int"@,
        _ => "cannot cast to int"@,
    }
}

// ---------------------------------------------------------------------------------------------
// Operations
// ---------------------------------------------------------------------------------------------

impl Value {
    /// A string value.
    pub fn string(s: &str) -> (r: Value)
        ensures
            r@ == Val::Str(s@),
    {
        Value::String(s.to_owned())
    }

    /// A list value.
    pub fn list(values: Vec<Value>) -> (r: Value)
        ensures
            r@ == Val::List(views(values@)),
    {
        Value::List(values)
    }

    pub fn truthy(&self) -> (r: bool)
        ensures
            r == truthy(self@),
    {
        match self {
            Value::Nil => false,
            Value::Bool(b) => *b,
            _ => true,
        }
    }

    pub fn is_enumerable(&self) -> (r: bool)
        ensures
            r == is_enumerable(self@),
    {
        match self {
            Value::String(_) => true,
            Value::List(_) => true,
            _ => false,
        }
    }

    /// Number of characters of a string, or of elements of a list.
    pub fn enum_len(&self) -> (r: usize)
        requires
            is_enumerable(self@),
        ensures
            r == enum_len(self@),
    {
        proof {
            if let Value::List(v) = self {
                lemma_views(v@);
            }
        }
        match self {
            Value::String(s) => to_chars(s.as_str()).len(),
            Value::List(v) => v.len(),
            _ => 0,
        }
    }

    /// Element `index` of a string or list.
    pub fn enum_at(&self, index: usize) -> (r: Result<Value, Exception>)
        requires
            is_enumerable(self@),
        ensures
            match r {
                Ok(x) => enum_at(self@, index as int) == Some(x@),
                Err(e) => enum_at(self@, index as int) is None && e.shown is None && e.message@ == enum_at_error(
                    self@,
                    index as int,
                ),
            },
    {
        match self {
            Value::String(s) => {
                let chars = to_chars(s.as_str());
                if index < chars.len() {
                    Ok(Value::String(char_to_string(chars[index])))
                } else {
                    Err(out_of_bounds(index, "string of length", chars.len()))
                }
            },
            Value::List(v) => {
                proof {
                    lemma_views(v@);
                }
                if index < v.len() {
                    Ok(v[index].duplicate())
                } else {
                    Err(out_of_bounds(index, "string of length", v.len()))
                }
            },
            _ => raise("not enumerable"),
        }
    }

    /// The value as an index.
    pub fn to_index(&self) -> (r: Result<usize, Exception>)
        ensures
            match r {
                Ok(i) => to_index(self@) == Some(i as int),
                Err(e) => to_index(self@) is None && e.shown is None && e.message@ == "invalid index"@,
            },
    {
        match self {
            Value::Integer(i) => {
                if *i >= 0 && (*i as u64) <= (usize::MAX as u64) {
                    Ok(*i as usize)
                } else {
                    raise("invalid index")
                }
            },
            _ => raise("invalid index"),
        }
    }

    /// `self[index]`.
    pub fn at(&self, index: &Value) -> (r: Result<Value, Exception>)
        ensures
            match r {
                Ok(x) => at(self@, index@) == Some(x@),
                Err(e) => at(self@, index@) is None && e.shown is None && e.message@ == at_error(self@, index@),
            },
    {
        if self.is_enumerable() {
            let i = self.to_index_of(index)?;
            self.enum_at(i)
        } else {
            match self {
                Value::Tuple(v) => {
                    proof {
                        lemma_views(v@);
                    }
                    let i = self.to_index_of(index)?;
                    if i < v.len() {
                        Ok(v[i].duplicate())
                    } else {
                        Err(out_of_bounds(i, "tuple of size", v.len()))
                    }
                },
                Value::Dict(es) => match dict_get(es, index) {
                    Some(x) => Ok(x.duplicate()),
                    None => Ok(Value::Nil),
                },
                _ => raise("cannot index in to value"),
            }
        }
    }

    fn to_index_of(&self, index: &Value) -> (r: Result<usize, Exception>)
        ensures
            match r {
                Ok(i) => to_index(index@) == Some(i as int),
                Err(e) => to_index(index@) is None && e.shown is None && e.message@ == "invalid index"@,
            },
    {
        index.to_index()
    }

    /// `self[index] = value`.
    pub fn set_at(&mut self, index: &Value, value: Value) -> (r: Result<(), Exception>)
        ensures
            match r {
                Ok(_) => set_at_value(old(self)@, index@, value@) == Some(final(self)@),
                Err(e) => set_at_value(old(self)@, index@, value@) is None && e.shown is None && e.message@
                    == set_at_error(old(self)@, index@),
            },
            r is Err ==> final(self)@ == old(self)@,
    {
        let ghost x = value@;
        match self {
            Value::List(v) => {
                let i = match index.to_index() {
                    Ok(i) => i,
                    Err(e) => {
                        return Err(e);
                    },
                };
                proof {
                    lemma_views(v@);
                }
                if i >= v.len() {
                    return Err(out_of_bounds(i, "list of length", v.len()));
                }
                let ghost before = v@;
                v.set(i, value);
                proof {
                    lemma_views(before);
                    lemma_views(v@);
                    assert(views(v@) =~= views(before).update(i as int, x));
                }
                Ok(())
            },
            Value::Tuple(v) => {
                let i = match index.to_index() {
                    Ok(i) => i,
                    Err(e) => {
                        return Err(e);
                    },
                };
                proof {
                    lemma_views(v@);
                }
                if i >= v.len() {
                    return Err(out_of_bounds(i, "tuple of size", v.len()));
                }
                let ghost before = v@;
                v.set(i, value);
                proof {
                    lemma_views(before);
                    lemma_views(v@);
                    assert(views(v@) =~= views(before).update(i as int, x));
                }
                Ok(())
            },
            Value::Dict(es) => {
                let k = index.duplicate();
                dict_insert(es, k, value);
                Ok(())
            },
            _ => raise("cannot index in to value"),
        }
    }

    /// `self.key = value`; the key must already be there.
    pub fn set_field(&mut self, key: &str, value: Value) -> (r: Result<(), Exception>)
        ensures
            match r {
                Ok(_) => set_field_value(old(self)@, key@, value@) == Some(final(self)@),
                Err(e) => set_field_value(old(self)@, key@, value@) is None && e.shown is None && e.message@
                    == field_error(old(self)@, key@),
            },
            r is Err ==> final(self)@ == old(self)@,
    {
        let k = Value::string(key);
        match self {
            Value::Dict(es) => {
                if dict_get(es, &k).is_none() {
                    return raise("field not found in dict");
                }
                dict_insert(es, k, value);
                Ok(())
            },
            Value::Struct(m, es) => {
                if dict_get(es, &k).is_none() {
                    return Err(missing_struct_field(key, m.as_str()));
                }
                dict_insert(es, k, value);
                Ok(())
            },
            _ => raise("cannot access field"),
        }
    }

    /// `self.key`.
    pub fn at_field(&self, key: &str) -> (r: Result<Value, Exception>)
        ensures
            match r {
                Ok(x) => at_field(self@, key@) == Some(x@),
                Err(e) => at_field(self@, key@) is None && e.shown is None && e.message@ == field_error(self@, key@),
            },
    {
        let k = Value::string(key);
        match self {
            Value::Dict(es) => match dict_get(es, &k) {
                Some(x) => Ok(x.duplicate()),
                None => raise("field not found in dict"),
            },
            Value::Struct(m, es) => match dict_get(es, &k) {
                Some(x) => Ok(x.duplicate()),
                None => Err(missing_struct_field(key, m.as_str())),
            },
            _ => raise("cannot access field"),
        }
    }

    pub fn bin_op(op: BinOp, lhs: &Value, rhs: &Value) -> (r: Result<Value, Exception>)
        requires
            op != BinOp::LogicalOr,
            op != BinOp::LogicalAnd,
        ensures
            match r {
                Ok(x) => bin_op(op, lhs@, rhs@) == Some(x@),
                Err(e) => bin_op(op, lhs@, rhs@) is None && e.shown is None && e.message@ == bin_op_error(
                    op,
                    lhs@,
                    rhs@,
                ),
            },
    {
        match op {
            BinOp::Eq => Ok(Value::Bool(equals(lhs, rhs))),
            BinOp::Neq => Ok(Value::Bool(!equals(lhs, rhs))),
            BinOp::Gt | BinOp::Gte | BinOp::Lt | BinOp::Lte => {
                if crate::value::rank_of(lhs) != crate::value::rank_of(rhs) {
                    return Err(operands_error(op, lhs, rhs));
                }
                let c = compare(lhs, rhs);
                let b = match op {
                    BinOp::Gt => c == Order::Greater,
                    BinOp::Gte => c != Order::Less,
                    BinOp::Lt => c == Order::Less,
                    _ => c != Order::Greater,
                };
                Ok(Value::Bool(b))
            },
            _ => match (lhs, rhs) {
                (Value::Integer(a), Value::Integer(b)) => match int_arith(op, *a, *b) {
                    Some(x) => Ok(Value::Integer(x)),
                    None => raise("integer overflow or division by zero"),
                },
                (Value::String(a), Value::String(b)) => {
                    if op == BinOp::Add {
                        Ok(Value::String(concat_str(a.as_str(), b.as_str())))
                    } else {
                        Err(operands_error(op, lhs, rhs))
                    }
                },
                (Value::List(a), Value::List(b)) => {
                    if op == BinOp::Add {
                        let mut res = crate::value::duplicate_seq(a);
                        let tail = crate::value::duplicate_seq(b);
                        proof {
                            lemma_views(res@);
                            lemma_views(tail@);
                            lemma_views(a@);
                            lemma_views(b@);
                        }
                        let ghost r0 = res@;
                        let mut tail = tail;
                        res.append(&mut tail);
                        proof {
                            lemma_views(res@);
                            assert(views(res@) =~= views(a@) + views(b@));
                        }
                        Ok(Value::List(res))
                    } else {
                        Err(operands_error(op, lhs, rhs))
                    }
                },
                _ => Err(operands_error(op, lhs, rhs)),
            },
        }
    }

    pub fn unary_op(op: UnaryOp, rhs: &Value) -> (r: Result<Value, Exception>)
        ensures
            match r {
                Ok(x) => unary_op(op, rhs@) == Some(x@),
                Err(e) => unary_op(op, rhs@) is None && e.shown is None && e.message@ == unary_error(op, rhs@),
            },
    {
        match (op, rhs) {
            (UnaryOp::Neg, Value::Integer(i)) => {
                if *i == i64::MIN {
                    raise("integer overflow")
                } else {
                    Ok(Value::Integer(-*i))
                }
            },
            (UnaryOp::LogicalNeg, v) => Ok(Value::Bool(!v.truthy())),
            _ => Err(operand_error(op, rhs)),
        }
    }

    pub fn cast_to_int(&self) -> (r: Result<Value, Exception>)
        ensures
            match r {
                Ok(x) => cast_to_int(self@) == Some(x@),
                Err(e) => cast_to_int(self@) is None && e.shown is None && e.message@ == cast_to_int_error(self@),
            },
    {
        match self {
            Value::Integer(i) => Ok(Value::Integer(*i)),
            Value::Bool(b) => Ok(Value::Integer(if *b { 1 } else { 0 })),
            Value::String(s) => match parse_int(s.as_str()) {
                Some(i) => Ok(Value::Integer(i)),
                None => raise("failed to parse string to int"),
            },
            _ => raise("cannot cast to int"),
        }
    }

    pub fn cast_to_string(&self) -> (r: Result<Value, Exception>)
        ensures
            match r {
                Ok(x) => cast_to_string(self@) == Some(x@),
                Err(e) => cast_to_string(self@) is None && e.shown is None && e.message@ == "cannot cast to string"@,
            },
    {
        match self {
            Value::String(s) => Ok(Value::String(s.clone())),
            Value::Integer(i) => Ok(Value::String(int_to_string(*i))),
            Value::Bool(b) => {
                if *b {
                    proof {
                        reveal_strlit("true");
                    }
                    Ok(Value::string("true"))
                } else {
                    proof {
                        reveal_strlit("false");
                    }
                    Ok(Value::string("false"))
                }
            },
            _ => raise("cannot cast to string"),
        }
    }

    pub fn cast_to_symbol(&self) -> (r: Result<Value, Exception>)
        ensures
            match r {
                Ok(x) => cast_to_symbol(self@) == Some(x@),
                Err(e) => cast_to_symbol(self@) is None && e.shown is None && e.message@ == "cannot cast to symbol"@,
            },
    {
        match self {
            Value::String(s) => Ok(Value::Symbol(s.clone())),
            _ => raise("cannot cast to symbol"),
        }
    }

    /// The name of the value's type.
    pub fn name_of_type(&self) -> (r: &'static str)
        ensures
            r@ == name_of_type(self@),
    {
        match self {
            Value::Nil => {
                proof {
                    reveal_strlit("nil");
                }
                "nil"
            },
            Value::Symbol(_) => {
                proof {
                    reveal_strlit("symbol");
                }
                "symbol"
            },
            Value::Bool(_) => {
                proof {
                    reveal_strlit("bool");
                }
                "bool"
            },
            Value::String(_) => {
                proof {
                    reveal_strlit("string");
                }
                "string"
            },
            Value::Integer(_) => {
                proof {
                    reveal_strlit("int");
                }
                "int"
            },
            Value::NativeFunc(_) | Value::NativeClosure(_) | Value::Function(_) | Value::Closure(
                _,
            ) => {
                proof {
                    reveal_strlit("function");
                }
                "function"
            },
            Value::Tuple(_) => {
                proof {
                    reveal_strlit("tuple");
                }
                "tuple"
            },
            Value::List(_) => {
                proof {
                    reveal_strlit("list");
                }
                "list"
            },
            Value::Dict(_) => {
                proof {
                    reveal_strlit("dict");
                }
                "dict"
            },
            Value::Struct(_, _) => {
                proof {
                    reveal_strlit("struct");
                }
                "struct"
            },
        }
    }
}

/// Integer arithmetic of the operator `op`, `None` where the result does not fit.
fn int_arith(op: BinOp, a: i64, b: i64) -> (r: Option<i64>)
    ensures
        match r {
            Some(x) => (op == BinOp::Add || op == BinOp::Sub || op == BinOp::Mul || op
                == BinOp::Div) && int_op(op, a as int, b as int) == Some(x as int),
            None => !(op == BinOp::Add || op == BinOp::Sub || op == BinOp::Mul || op
                == BinOp::Div) || int_op(op, a as int, b as int) is None,
        },
{
    match op {
        BinOp::Add => {
            let x = a as i128 + b as i128;
            if x < i64::MIN as i128 || x > i64::MAX as i128 {
                None
            } else {
                Some(x as i64)
            }
        },
        BinOp::Sub => {
            let x = a as i128 - b as i128;
            if x < i64::MIN as i128 || x > i64::MAX as i128 {
                None
            } else {
                Some(x as i64)
            }
        },
        BinOp::Mul => {
            assert(-0x4000_0000_0000_0000_0000_0000_0000_0000 <= (a as int) * (b as int)
                <= 0x4000_0000_0000_0000_0000_0000_0000_0000) by (nonlinear_arith)
                requires
                    -0x8000_0000_0000_0000 <= a <= 0x7fff_ffff_ffff_ffff,
                    -0x8000_0000_0000_0000 <= b <= 0x7fff_ffff_ffff_ffff,
            ;
            let x = a as i128 * b as i128;
            if x < i64::MIN as i128 || x > i64::MAX as i128 {
                None
            } else {
                Some(x as i64)
            }
        },
        BinOp::Div => {
            let q = checked_div_trunc(a, b);
            proof {
                if b != 0 {
                    crate::numbers::lemma_div_trunc_range(a as int, b as int);
                }
            }
            q
        },
        _ => None,
    }
}

/// The comparison operators order the values of one kind: each applies exactly to two values
/// of the same kind; no value is less (or greater) than itself and every value is at most (and
/// at least) itself; `a >= b` is the negation of `a < b` and `a <= b` of `a > b`; `a > b` is
/// `b < a` and `a <= b` is `b >= a`; `<` is transitive; two values of a kind neither of which
/// is less than the other are the same value; on integers `<` is the order of the numbers;
/// `==` and `!=` tell whether the values are the same.
pub proof fn lemma_comparisons(a: Val, b: Val, c: Val)
    ensures
        bin_op(BinOp::Lt, a, b) is Some <==> a.rank() == b.rank(),
        bin_op(BinOp::Lte, a, b) is Some <==> a.rank() == b.rank(),
        bin_op(BinOp::Gt, a, b) is Some <==> a.rank() == b.rank(),
        bin_op(BinOp::Gte, a, b) is Some <==> a.rank() == b.rank(),
        bin_op(BinOp::Lt, a, a) == Some(Val::Bool(false)),
        bin_op(BinOp::Gt, a, a) == Some(Val::Bool(false)),
        bin_op(BinOp::Lte, a, a) == Some(Val::Bool(true)),
        bin_op(BinOp::Gte, a, a) == Some(Val::Bool(true)),
        bin_op(BinOp::Lt, a, b) matches Some(Val::Bool(t)) ==> bin_op(BinOp::Gte, a, b) == Some(
            Val::Bool(!t),
        ),
        bin_op(BinOp::Gt, a, b) matches Some(Val::Bool(t)) ==> bin_op(BinOp::Lte, a, b) == Some(
            Val::Bool(!t),
        ),
        bin_op(BinOp::Gt, a, b) == bin_op(BinOp::Lt, b, a),
        bin_op(BinOp::Lte, a, b) == bin_op(BinOp::Gte, b, a),
        bin_op(BinOp::Lt, a, b) == Some(Val::Bool(true)) && bin_op(BinOp::Lt, b, c) == Some(
            Val::Bool(true),
        ) ==> bin_op(BinOp::Lt, a, c) == Some(Val::Bool(true)),
        bin_op(BinOp::Lt, a, b) == Some(Val::Bool(false)) && bin_op(BinOp::Lt, b, a) == Some(
            Val::Bool(false),
        ) ==> a == b,
        (a is Int && b is Int) ==> bin_op(BinOp::Lt, a, b) == Some(
            Val::Bool(a->Int_0 < b->Int_0),
        ),
        bin_op(BinOp::Eq, a, b) == Some(Val::Bool(a == b)),
        bin_op(BinOp::Neq, a, b) == Some(Val::Bool(a != b)),
{
    lemma_order_total_order(a, b, c);
    lemma_order_total_order(b, a, c);
    lemma_order_total_order(a, a, a);
    lemma_order_total_order(b, c, a);
}

/// `+`, `-` and `*` on integers give the mathematical result whenever it fits in an `i64`;
/// dividing by zero has no result; `+` joins two strings or two lists, the left one first.
pub proof fn lemma_arithmetic(a: i64, b: i64, x: Seq<char>, y: Seq<char>, l: Seq<Val>, m: Seq<Val>)
    ensures
        in_i64(a + b) ==> bin_op(BinOp::Add, Val::Int(a), Val::Int(b)) == Some(
            Val::Int((a + b) as i64),
        ),
        in_i64(a - b) ==> bin_op(BinOp::Sub, Val::Int(a), Val::Int(b)) == Some(
            Val::Int((a - b) as i64),
        ),
        in_i64(a * b) ==> bin_op(BinOp::Mul, Val::Int(a), Val::Int(b)) == Some(
            Val::Int((a * b) as i64),
        ),
        bin_op(BinOp::Div, Val::Int(a), Val::Int(0)) is None,
        b > 0 && a >= 0 ==> bin_op(BinOp::Div, Val::Int(a), Val::Int(b)) == Some(
            Val::Int((a / b) as i64),
        ),
        bin_op(BinOp::Add, Val::Str(x), Val::Str(y)) == Some(Val::Str(x + y)),
        bin_op(BinOp::Add, Val::List(l), Val::List(m)) == Some(Val::List(l + m)),
{
    if b > 0 && a >= 0 {
        assert(0 <= a / b <= a) by (nonlinear_arith)
            requires
                b > 0,
                a >= 0,
        ;
    }
}

/// Negation gives the opposite integer (except of the least one, which has none); logical
/// negation is false exactly for values other than `nil` and `false`, and applies to every
/// value; negation applies to integers only.
pub proof fn lemma_unary(a: i64, v: Val)
    ensures
        a != i64::MIN ==> unary_op(UnaryOp::Neg, Val::Int(a)) == Some(Val::Int((-a) as i64)),
        unary_op(UnaryOp::Neg, Val::Int(i64::MIN)) is None,
        !(v is Int) ==> unary_op(UnaryOp::Neg, v) is None,
        unary_op(UnaryOp::LogicalNeg, Val::Nil) == Some(Val::Bool(true)),
        unary_op(UnaryOp::LogicalNeg, Val::Bool(false)) == Some(Val::Bool(true)),
        !(v is Nil) && v != Val::Bool(false) ==> unary_op(UnaryOp::LogicalNeg, v) == Some(
            Val::Bool(false),
        ),
{
}

} // verus!

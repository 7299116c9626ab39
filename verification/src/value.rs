use vstd::prelude::*;

use crate::native_funcs::NativeFunc;
use crate::order::{order_chars, order_int, Order};


verus! {

/// The mathematical model of a runtime value.
///
/// A dictionary is the sequence of its entries, each a two-element tuple `(key, value)`, in
/// increasing key order; a struct is the name of its module and the sequence of its fields,
/// each a two-element tuple `(name as a string value, value)`, in increasing name order.  Functions,
/// closures and native closures are identified by their position in the table that holds them.
#[verifier::ext_equal]
pub enum Val {
    Nil,
    Symbol(Seq<char>),
    Bool(bool),
    Str(Seq<char>),
    Int(i64),
    NativeFunc(NativeFunc),
    NativeClosure(usize),
    Function(usize),
    Closure(usize),
    Tuple(Seq<Val>),
    List(Seq<Val>),
    Dict(Seq<Val>),
    Struct(Seq<char>, Seq<Val>),
}

/// A runtime value of the language.
#[derive(Debug)]
pub enum Value {
    Nil,
    Symbol(String),
    Bool(bool),
    String(String),
    Integer(i64),
    /// A function implemented by the runtime.
    NativeFunc(NativeFunc),
    /// An iterator implemented by the runtime; the number identifies its state in the VM.
    NativeClosure(usize),
    /// A compiled function; the number is its position in the program's function table.
    Function(usize),
    /// A function together with its captured variables; the number identifies it in the VM.
    Closure(usize),
    Tuple(Vec<Value>),
    List(Vec<Value>),
    /// Key/value pairs, in increasing key order, each key once.
    Dict(Vec<(Value, Value)>),
    /// A struct of the given module: field names (as `Value::String`) and values, in
    /// increasing name order.
    Struct(String, Vec<(Value, Value)>),
}

/// The entry `(key, value)` of a dictionary or struct, as a value.
pub open spec fn entry(k: Val, v: Val) -> Val {
    Val::Tuple(seq![k, v])
}

pub open spec fn views(s: Seq<Value>) -> Seq<Val>
    decreases s,
{
    if s.len() == 0 {
        Seq::empty()
    } else {
        views(s.drop_last()).push(s.last().view())
    }
}

pub open spec fn pair_views(s: Seq<(Value, Value)>) -> Seq<Val>
    decreases s,
{
    if s.len() == 0 {
        Seq::empty()
    } else {
        pair_views(s.drop_last()).push(entry(s.last().0.view(), s.last().1.view()))
    }
}

impl View for Value {
    type V = Val;

    open spec fn view(&self) -> Val
        decreases self,
    {
        match self {
            Value::Nil => Val::Nil,
            Value::Symbol(s) => Val::Symbol(s@),
            Value::Bool(b) => Val::Bool(*b),
            Value::String(s) => Val::Str(s@),
            Value::Integer(i) => Val::Int(*i),
            Value::NativeFunc(f) => Val::NativeFunc(*f),
            Value::NativeClosure(i) => Val::NativeClosure(*i),
            Value::Function(i) => Val::Function(*i),
            Value::Closure(i) => Val::Closure(*i),
            Value::Tuple(v) => {
                proof {
                    broadcast use vstd::std_specs::vec::axiom_vec_decreases_to_view;
                }
                Val::Tuple(views(v@))
            },
            Value::List(v) => {
                proof {
                    broadcast use vstd::std_specs::vec::axiom_vec_decreases_to_view;
                }
                Val::List(views(v@))
            },
            Value::Dict(v) => {
                proof {
                    broadcast use vstd::std_specs::vec::axiom_vec_decreases_to_view;
                }
                Val::Dict(pair_views(v@))
            },
            Value::Struct(m, v) => {
                proof {
                    broadcast use vstd::std_specs::vec::axiom_vec_decreases_to_view;
                }
                Val::Struct(m@, pair_views(v@))
            },
        }
    }
}

pub broadcast proof fn lemma_views(s: Seq<Value>)
    ensures
        #[trigger] views(s).len() == s.len(),
        forall|i: int| 0 <= i < s.len() ==> #[trigger] views(s)[i] == s[i]@,
    decreases s.len(),
{
    if s.len() > 0 {
        let t = s.drop_last();
        lemma_views(t);
        assert(views(s) == views(t).push(s.last()@));
        assert forall|i: int| 0 <= i < s.len() implies #[trigger] views(s)[i] == s[i]@ by {
            if i < s.len() - 1 {
                assert(t[i] == s[i]);
            }
        }
    }
}

pub broadcast proof fn lemma_pair_views(s: Seq<(Value, Value)>)
    ensures
        #[trigger] pair_views(s).len() == s.len(),
        forall|i: int|
            0 <= i < s.len() ==> #[trigger] pair_views(s)[i] == entry(s[i].0@, s[i].1@),
    decreases s.len(),
{
    if s.len() > 0 {
        let t = s.drop_last();
        lemma_pair_views(t);
        assert(pair_views(s) == pair_views(t).push(entry(s.last().0@, s.last().1@)));
        assert forall|i: int| 0 <= i < s.len() implies #[trigger] pair_views(s)[i] == entry(
            s[i].0@,
            s[i].1@,
        ) by {
            if i < s.len() - 1 {
                assert(t[i] == s[i]);
            }
        }
    }
}

pub proof fn lemma_views_push(s: Seq<Value>, x: Value)
    ensures
        views(s.push(x)) == views(s).push(x@),
{
    lemma_views(s);
    lemma_views(s.push(x));
    assert(views(s.push(x)) =~= views(s).push(x@));
}

pub proof fn lemma_views_subrange(s: Seq<Value>, lo: int, hi: int)
    requires
        0 <= lo <= hi <= s.len(),
    ensures
        views(s.subrange(lo, hi)) == views(s).subrange(lo, hi),
{
    lemma_views(s);
    lemma_views(s.subrange(lo, hi));
    assert(views(s.subrange(lo, hi)) =~= views(s).subrange(lo, hi));
}

pub proof fn lemma_views_add(a: Seq<Value>, b: Seq<Value>)
    ensures
        views(a + b) == views(a) + views(b),
{
    lemma_views(a);
    lemma_views(b);
    lemma_views(a + b);
    assert(views(a + b) =~= views(a) + views(b));
}

pub proof fn lemma_views_update(s: Seq<Value>, i: int, x: Value)
    requires
        0 <= i < s.len(),
    ensures
        views(s.update(i, x)) == views(s).update(i, x@),
{
    lemma_views(s);
    lemma_views(s.update(i, x));
    assert(views(s.update(i, x)) =~= views(s).update(i, x@));
}

pub broadcast group group_value_views {
    lemma_views,
    lemma_pair_views,
}

// ---------------------------------------------------------------------------------------------
// Ordering
// ---------------------------------------------------------------------------------------------

impl Val {
    /// The position of the variant in the declaration order; values of different variants are
    /// ordered by it.
    pub open spec fn rank(self) -> int {
        match self {
            Val::Nil => 0,
            Val::Symbol(_) => 1,
            Val::Bool(_) => 2,
            Val::Str(_) => 3,
            Val::Int(_) => 4,
            Val::NativeFunc(_) => 5,
            Val::NativeClosure(_) => 6,
            Val::Function(_) => 7,
            Val::Closure(_) => 8,
            Val::Tuple(_) => 9,
            Val::List(_) => 10,
            Val::Dict(_) => 11,
            Val::Struct(_, _) => 12,
        }
    }
}

/// The total order on values: first by variant, then by contents, sequences lexicographically.
pub open spec fn order_val(a: Val, b: Val) -> Order
    decreases a,
{
    if a.rank() != b.rank() {
        order_int(a.rank(), b.rank())
    } else {
        match (a, b) {
            (Val::Symbol(x), Val::Symbol(y)) => order_chars(x, y),
            (Val::Bool(x), Val::Bool(y)) => order_int(
                if x { 1int } else { 0int },
                if y { 1int } else { 0int },
            ),
            (Val::Str(x), Val::Str(y)) => order_chars(x, y),
            (Val::Int(x), Val::Int(y)) => order_int(x as int, y as int),
            (Val::NativeFunc(x), Val::NativeFunc(y)) => order_int(x.rank(), y.rank()),
            (Val::NativeClosure(x), Val::NativeClosure(y)) => order_int(x as int, y as int),
            (Val::Function(x), Val::Function(y)) => order_int(x as int, y as int),
            (Val::Closure(x), Val::Closure(y)) => order_int(x as int, y as int),
            (Val::Tuple(x), Val::Tuple(y)) => order_vals(x, y),
            (Val::List(x), Val::List(y)) => order_vals(x, y),
            (Val::Dict(x), Val::Dict(y)) => order_vals(x, y),
            (Val::Struct(m, x), Val::Struct(n, y)) => match order_chars(m, n) {
                Order::Equal => order_vals(x, y),
                c => c,
            },
            _ => Order::Equal,
        }
    }
}

/// Lexicographic order on sequences of values.
pub open spec fn order_vals(a: Seq<Val>, b: Seq<Val>) -> Order
    decreases a,
{
    if a.len() == 0 {
        if b.len() == 0 {
            Order::Equal
        } else {
            Order::Less
        }
    } else if b.len() == 0 {
        Order::Greater
    } else {
        match order_val(a[0], b[0]) {
            Order::Equal => order_vals(a.drop_first(), b.drop_first()),
            c => c,
        }
    }
}

pub proof fn lemma_order_val_equal(a: Val, b: Val)
    ensures
        order_val(a, a) == Order::Equal,
        order_val(a, b) == Order::Equal ==> a == b,
        order_val(b, a) == order_val(a, b).flip(),
    decreases a,
{
    if a.rank() == b.rank() {
        match (a, b) {
            (Val::Symbol(x), Val::Symbol(y)) => {
                crate::order::lemma_order_chars(x, y);
            },
            (Val::Str(x), Val::Str(y)) => {
                crate::order::lemma_order_chars(x, y);
            },
            (Val::NativeFunc(x), Val::NativeFunc(y)) => {
                crate::native_funcs::lemma_rank_injective(x, y);
            },
            (Val::Tuple(x), Val::Tuple(y)) => {
                lemma_order_vals_equal(x, y);
            },
            (Val::List(x), Val::List(y)) => {
                lemma_order_vals_equal(x, y);
            },
            (Val::Dict(x), Val::Dict(y)) => {
                lemma_order_vals_equal(x, y);
            },
            (Val::Struct(m, x), Val::Struct(n, y)) => {
                crate::order::lemma_order_chars(m, n);
                lemma_order_vals_equal(x, y);
            },
            _ => {},
        }
    }
    match a {
        Val::Symbol(x) => {
            crate::order::lemma_order_chars(x, x);
        },
        Val::Str(x) => {
            crate::order::lemma_order_chars(x, x);
        },
        Val::Tuple(x) => {
            lemma_order_vals_equal(x, x);
        },
        Val::List(x) => {
            lemma_order_vals_equal(x, x);
        },
        Val::Dict(x) => {
            lemma_order_vals_equal(x, x);
        },
        Val::Struct(m, x) => {
            crate::order::lemma_order_chars(m, m);
            lemma_order_vals_equal(x, x);
        },
        _ => {},
    }
}

pub proof fn lemma_order_vals_equal(a: Seq<Val>, b: Seq<Val>)
    ensures
        order_vals(a, a) == Order::Equal,
        order_vals(a, b) == Order::Equal ==> a == b,
        order_vals(b, a) == order_vals(a, b).flip(),
    decreases a,
{
    if a.len() > 0 {
        lemma_order_val_equal(a[0], a[0]);
        lemma_order_vals_equal(a.drop_first(), a.drop_first());
        if b.len() > 0 {
            lemma_order_val_equal(a[0], b[0]);
            lemma_order_vals_equal(a.drop_first(), b.drop_first());
            if order_vals(a, b) == Order::Equal {
                assert(a =~= seq![a[0]] + a.drop_first());
                assert(b =~= seq![b[0]] + b.drop_first());
            }
        }
    }
}

pub proof fn lemma_order_val_transitive(a: Val, b: Val, c: Val)
    requires
        order_val(a, b) == Order::Less,
        order_val(b, c) == Order::Less,
    ensures
        order_val(a, c) == Order::Less,
    decreases a,
{
    if a.rank() == b.rank() && b.rank() == c.rank() {
        match (a, b, c) {
            (Val::Symbol(x), Val::Symbol(y), Val::Symbol(z)) => {
                crate::order::lemma_order_chars_transitive(x, y, z);
            },
            (Val::Str(x), Val::Str(y), Val::Str(z)) => {
                crate::order::lemma_order_chars_transitive(x, y, z);
            },
            (Val::Tuple(x), Val::Tuple(y), Val::Tuple(z)) => {
                lemma_order_vals_transitive(x, y, z);
            },
            (Val::List(x), Val::List(y), Val::List(z)) => {
                lemma_order_vals_transitive(x, y, z);
            },
            (Val::Dict(x), Val::Dict(y), Val::Dict(z)) => {
                lemma_order_vals_transitive(x, y, z);
            },
            (Val::Struct(m, x), Val::Struct(n, y), Val::Struct(o, z)) => {
                crate::order::lemma_order_chars(m, n);
                crate::order::lemma_order_chars(n, o);
                crate::order::lemma_order_chars(m, o);
                if order_chars(m, n) == Order::Less && order_chars(n, o) == Order::Less {
                    crate::order::lemma_order_chars_transitive(m, n, o);
                }
                if order_chars(m, n) == Order::Equal && order_chars(n, o) == Order::Equal {
                    lemma_order_vals_transitive(x, y, z);
                }
            },
            _ => {},
        }
    }
}

pub proof fn lemma_order_vals_transitive(a: Seq<Val>, b: Seq<Val>, c: Seq<Val>)
    requires
        order_vals(a, b) == Order::Less,
        order_vals(b, c) == Order::Less,
    ensures
        order_vals(a, c) == Order::Less,
    decreases a,
{
    if a.len() > 0 && b.len() > 0 && c.len() > 0 {
        lemma_order_val_equal(a[0], b[0]);
        lemma_order_val_equal(b[0], c[0]);
        lemma_order_val_equal(a[0], c[0]);
        let ab = order_val(a[0], b[0]);
        let bc = order_val(b[0], c[0]);
        if ab == Order::Less && bc == Order::Less {
            lemma_order_val_transitive(a[0], b[0], c[0]);
        } else if ab == Order::Equal && bc == Order::Equal {
            lemma_order_vals_transitive(a.drop_first(), b.drop_first(), c.drop_first());
        }
    }
}

/// The order on values is total: any two values compare one way, the other, or are the same
/// value.
pub proof fn lemma_order_total_order(a: Val, b: Val, c: Val)
    ensures
        order_val(a, a) == Order::Equal,
        order_val(a, b) == Order::Equal <==> a == b,
        order_val(a, b) == Order::Less <==> order_val(b, a) == Order::Greater,
        order_val(a, b) != Order::Greater && order_val(b, c) != Order::Greater ==> order_val(a, c)
            != Order::Greater,
        order_val(a, b) == Order::Less && order_val(b, c) == Order::Less ==> order_val(a, c) == Order::Less,
{
    lemma_order_val_equal(a, b);
    lemma_order_val_equal(b, c);
    lemma_order_val_equal(a, c);
    if order_val(a, b) == Order::Less && order_val(b, c) == Order::Less {
        lemma_order_val_transitive(a, b, c);
    }
}


// ---------------------------------------------------------------------------------------------
// Comparing and copying
// ---------------------------------------------------------------------------------------------

/// Position of the variant of `v` in the declaration order.
pub fn rank_of(v: &Value) -> (r: usize)
    ensures
        r == v@.rank(),
{
    match v {
        Value::Nil => 0,
        Value::Symbol(_) => 1,
        Value::Bool(_) => 2,
        Value::String(_) => 3,
        Value::Integer(_) => 4,
        Value::NativeFunc(_) => 5,
        Value::NativeClosure(_) => 6,
        Value::Function(_) => 7,
        Value::Closure(_) => 8,
        Value::Tuple(_) => 9,
        Value::List(_) => 10,
        Value::Dict(_) => 11,
        Value::Struct(_, _) => 12,
    }
}

/// Compares two values in the total order on values.
pub fn compare(a: &Value, b: &Value) -> (r: Order)
    ensures
        r == order_val(a@, b@),
    decreases a,
{
    let ra = rank_of(a);
    let rb = rank_of(b);
    if ra != rb {
        return crate::order::compare_usize(ra, rb);
    }
    match (a, b) {
        (Value::Symbol(x), Value::Symbol(y)) => crate::order::compare_str(x.as_str(), y.as_str()),
        (Value::Bool(x), Value::Bool(y)) => {
            let xi: usize = if *x { 1 } else { 0 };
            let yi: usize = if *y { 1 } else { 0 };
            crate::order::compare_usize(xi, yi)
        },
        (Value::String(x), Value::String(y)) => crate::order::compare_str(x.as_str(), y.as_str()),
        (Value::Integer(x), Value::Integer(y)) => crate::order::compare_i64(*x, *y),
        (Value::NativeFunc(x), Value::NativeFunc(y)) => crate::order::compare_usize(
            x.index(),
            y.index(),
        ),
        (Value::NativeClosure(x), Value::NativeClosure(y)) => crate::order::compare_usize(*x, *y),
        (Value::Function(x), Value::Function(y)) => crate::order::compare_usize(*x, *y),
        (Value::Closure(x), Value::Closure(y)) => crate::order::compare_usize(*x, *y),
        (Value::Tuple(x), Value::Tuple(y)) => compare_seq(x, y),
        (Value::List(x), Value::List(y)) => compare_seq(x, y),
        (Value::Dict(x), Value::Dict(y)) => compare_pairs(x, y),
        (Value::Struct(m, x), Value::Struct(n, y)) => {
            let c = crate::order::compare_str(m.as_str(), n.as_str());
            if c != Order::Equal {
                c
            } else {
                compare_pairs(x, y)
            }
        },
        _ => Order::Equal,
    }
}

/// Lexicographic comparison of two sequences of values.
pub fn compare_seq(a: &Vec<Value>, b: &Vec<Value>) -> (r: Order)
    ensures
        r == order_vals(views(a@), views(b@)),
    decreases a,
{
        let ghost va = views(a@);
    let ghost vb = views(b@);
    let mut i: usize = 0;
    assert(va.skip(0) =~= va);
    assert(vb.skip(0) =~= vb);
    while i < a.len() && i < b.len()
        invariant
            va == views(a@),
            vb == views(b@),
            i <= a.len(),
            i <= b.len(),
            order_vals(va, vb) == order_vals(va.skip(i as int), vb.skip(i as int)),
        decreases a.len() - i,
    {
        proof {
            broadcast use vstd::std_specs::vec::axiom_vec_decreases_to_view;
            assert(decreases_to!(a => a@[i as int]));
        }
        let c = compare(&a[i], &b[i]);
        proof {
            lemma_views(a@);
            lemma_views(b@);
        }
        assert(va.skip(i as int)[0] == va[i as int]);
        assert(vb.skip(i as int)[0] == vb[i as int]);
        assert(va.skip(i as int)[0] == a@[i as int]@);
        assert(vb.skip(i as int)[0] == b@[i as int]@);
        if c != Order::Equal {
            return c;
        }
        assert(va.skip(i as int).drop_first() =~= va.skip(i + 1));
        assert(vb.skip(i as int).drop_first() =~= vb.skip(i + 1));
        i = i + 1;
    }
    proof {
        lemma_views(a@);
        lemma_views(b@);
    }
    assert(va.skip(i as int).len() == a.len() - i);
    assert(vb.skip(i as int).len() == b.len() - i);
    if i == a.len() {
        if i == b.len() {
            Order::Equal
        } else {
            Order::Less
        }
    } else {
        Order::Greater
    }
}

/// Lexicographic comparison of two sequences of key/value pairs, each compared as the tuple
/// `(key, value)`.
pub fn compare_pairs(a: &Vec<(Value, Value)>, b: &Vec<(Value, Value)>) -> (r: Order)
    ensures
        r == order_vals(pair_views(a@), pair_views(b@)),
    decreases a,
{
        let ghost va = pair_views(a@);
    let ghost vb = pair_views(b@);
    let mut i: usize = 0;
    assert(va.skip(0) =~= va);
    assert(vb.skip(0) =~= vb);
    while i < a.len() && i < b.len()
        invariant
            va == pair_views(a@),
            vb == pair_views(b@),
            i <= a.len(),
            i <= b.len(),
            order_vals(va, vb) == order_vals(va.skip(i as int), vb.skip(i as int)),
        decreases a.len() - i,
    {
        proof {
            broadcast use vstd::std_specs::vec::axiom_vec_decreases_to_view;
            assert(decreases_to!(a => a@[i as int].0));
            assert(decreases_to!(a => a@[i as int].1));
        }
        proof {
            lemma_pair_views(a@);
            lemma_pair_views(b@);
        }
        let ghost ea = va.skip(i as int)[0];
        let ghost eb = vb.skip(i as int)[0];
        assert(ea == va[i as int]);
        assert(eb == vb[i as int]);
        assert(ea == entry(a@[i as int].0@, a@[i as int].1@));
        assert(eb == entry(b@[i as int].0@, b@[i as int].1@));
        let ck = compare(&a[i].0, &b[i].0);
        let c = if ck != Order::Equal {
            ck
        } else {
            compare(&a[i].1, &b[i].1)
        };
        proof {
            let sa = ea->Tuple_0;
            let sb = eb->Tuple_0;
            assert(sa.drop_first() =~= seq![a@[i as int].1@]);
            assert(sb.drop_first() =~= seq![b@[i as int].1@]);
            assert(sa.drop_first().drop_first() =~= Seq::<Val>::empty());
            assert(sb.drop_first().drop_first() =~= Seq::<Val>::empty());
            assert(order_val(ea, eb) == order_vals(sa, sb));
            reveal_with_fuel(order_vals, 3);
            assert(sa[0] == a@[i as int].0@);
            assert(sb[0] == b@[i as int].0@);
            assert(sa.drop_first()[0] == a@[i as int].1@);
            assert(sb.drop_first()[0] == b@[i as int].1@);
            assert(order_vals(sa, sb) == c);
        }
        if c != Order::Equal {
            return c;
        }
        assert(va.skip(i as int).drop_first() =~= va.skip(i + 1));
        assert(vb.skip(i as int).drop_first() =~= vb.skip(i + 1));
        i = i + 1;
    }
    proof {
        lemma_pair_views(a@);
        lemma_pair_views(b@);
    }
    assert(va.skip(i as int).len() == a.len() - i);
    assert(vb.skip(i as int).len() == b.len() - i);
    if i == a.len() {
        if i == b.len() {
            Order::Equal
        } else {
            Order::Less
        }
    } else {
        Order::Greater
    }
}

/// Whether two values are the same value.
pub fn equals(a: &Value, b: &Value) -> (r: bool)
    ensures
        r == (a@ == b@),
{
    proof {
        lemma_order_total_order(a@, b@, b@);
    }
    compare(a, b) == Order::Equal
}

impl Value {
    /// A copy of the value.
    pub fn duplicate(&self) -> (r: Value)
        ensures
            r@ == self@,
        decreases self,
    {
        match self {
            Value::Nil => Value::Nil,
            Value::Symbol(s) => Value::Symbol(s.clone()),
            Value::Bool(b) => Value::Bool(*b),
            Value::String(s) => Value::String(s.clone()),
            Value::Integer(i) => Value::Integer(*i),
            Value::NativeFunc(f) => Value::NativeFunc(*f),
            Value::NativeClosure(i) => Value::NativeClosure(*i),
            Value::Function(i) => Value::Function(*i),
            Value::Closure(i) => Value::Closure(*i),
            Value::Tuple(v) => Value::Tuple(duplicate_seq(v)),
            Value::List(v) => Value::List(duplicate_seq(v)),
            Value::Dict(v) => Value::Dict(duplicate_pairs(v)),
            Value::Struct(m, v) => Value::Struct(m.clone(), duplicate_pairs(v)),
        }
    }
}

/// A copy of a sequence of values.
pub fn duplicate_seq(v: &Vec<Value>) -> (r: Vec<Value>)
    ensures
        views(r@) == views(v@),
    decreases v,
{
        let mut r: Vec<Value> = Vec::new();
    let mut i: usize = 0;
    while i < v.len()
        invariant
            i <= v.len(),
            r@.len() == i,
            forall|j: int| 0 <= j < i ==> #[trigger] r@[j]@ == v@[j]@,
        decreases v.len() - i,
    {
        proof {
            broadcast use vstd::std_specs::vec::axiom_vec_decreases_to_view;
            assert(decreases_to!(v => v@[i as int]));
        }
        r.push(v[i].duplicate());
        i = i + 1;
    }
    proof {
        lemma_views(r@);
        lemma_views(v@);
    }
    assert(views(r@) =~= views(v@));
    r
}

/// A copy of a sequence of key/value pairs.
pub fn duplicate_pairs(v: &Vec<(Value, Value)>) -> (r: Vec<(Value, Value)>)
    ensures
        pair_views(r@) == pair_views(v@),
    decreases v,
{
        let mut r: Vec<(Value, Value)> = Vec::new();
    let mut i: usize = 0;
    while i < v.len()
        invariant
            i <= v.len(),
            r@.len() == i,
            forall|j: int|
                0 <= j < i ==> #[trigger] r@[j].0@ == v@[j].0@ && r@[j].1@ == v@[j].1@,
        decreases v.len() - i,
    {
        proof {
            broadcast use vstd::std_specs::vec::axiom_vec_decreases_to_view;
            assert(decreases_to!(v => v@[i as int].0));
            assert(decreases_to!(v => v@[i as int].1));
        }
        let k = v[i].0.duplicate();
        let x = v[i].1.duplicate();
        r.push((k, x));
        i = i + 1;
    }
    proof {
        lemma_pair_views(r@);
        lemma_pair_views(v@);
    }
    assert(pair_views(r@) =~= pair_views(v@));
    r
}

} // verus!

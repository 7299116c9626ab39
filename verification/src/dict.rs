use vstd::prelude::*;

use crate::order::Order;
use crate::value::{
    entry, lemma_order_total_order, lemma_pair_views, order_val, pair_views, Val, Value,
};

verus! {

/// An entry of a dictionary or struct: a two-element tuple.
pub open spec fn is_entry(e: Val) -> bool {
    e is Tuple && e->Tuple_0.len() == 2
}

pub open spec fn key_of(e: Val) -> Val {
    e->Tuple_0[0]
}

pub open spec fn val_of(e: Val) -> Val {
    e->Tuple_0[1]
}

/// Entries are well formed when each is a pair and the keys strictly increase.
pub open spec fn entries_wf(es: Seq<Val>) -> bool {
    &&& forall|i: int| 0 <= i < es.len() ==> is_entry(#[trigger] es[i])
    &&& forall|i: int, j: int|
        0 <= i < j < es.len() ==> order_val(key_of(#[trigger] es[i]), key_of(#[trigger] es[j]))
            == Order::Less
}

/// Some entry has key `k`.
pub open spec fn has_key(es: Seq<Val>, k: Val) -> bool {
    exists|i: int| 0 <= i < es.len() && key_of(#[trigger] es[i]) == k
}

/// The index of the first entry with key `k`.
pub open spec fn first_key_index(es: Seq<Val>, k: Val) -> int {
    choose|i: int|
        0 <= i < es.len() && key_of(es[i]) == k && forall|j: int|
            0 <= j < i ==> key_of(#[trigger] es[j]) != k
}

/// The value of the first entry with key `k`, if any.  (In well-formed entries there is at
/// most one.)
pub open spec fn lookup(es: Seq<Val>, k: Val) -> Option<Val> {
    if has_key(es, k) {
        Some(val_of(es[first_key_index(es, k)]))
    } else {
        None
    }
}

pub proof fn lemma_first_key_index(es: Seq<Val>, k: Val)
    requires
        has_key(es, k),
    ensures
        0 <= first_key_index(es, k) < es.len(),
        key_of(es[first_key_index(es, k)]) == k,
        forall|j: int| 0 <= j < first_key_index(es, k) ==> key_of(#[trigger] es[j]) != k,
    decreases es.len(),
{
    if key_of(es[0]) == k {
        assert(0 <= 0 < es.len() && key_of(es[0]) == k && forall|j: int|
            0 <= j < 0 ==> key_of(#[trigger] es[j]) != k);
    } else {
        let t = es.drop_first();
        let w = choose|i: int| 0 <= i < es.len() && key_of(#[trigger] es[i]) == k;
        assert(key_of(t[w - 1]) == k);
        lemma_first_key_index(t, k);
        let f = first_key_index(t, k);
        assert forall|j: int| 0 <= j < f + 1 implies key_of(#[trigger] es[j]) != k by {
            if j > 0 {
                assert(es[j] == t[j - 1]);
            }
        }
        assert(key_of(es[f + 1]) == k);
    }
}

/// The entry at `i` is the first with its key.
pub proof fn lemma_lookup_first(es: Seq<Val>, i: int)
    requires
        0 <= i < es.len(),
        forall|j: int| 0 <= j < i ==> key_of(#[trigger] es[j]) != key_of(es[i]),
    ensures
        lookup(es, key_of(es[i])) == Some(val_of(es[i])),
{
    let k = key_of(es[i]);
    assert(has_key(es, k));
    lemma_first_key_index(es, k);
    let f = first_key_index(es, k);
    if f < i {
    } else if f > i {
        assert(key_of(es[i]) != k);
    }
}

/// In well-formed entries the entry with a given key is the only one.
pub proof fn lemma_lookup_at(es: Seq<Val>, i: int)
    requires
        entries_wf(es),
        0 <= i < es.len(),
    ensures
        lookup(es, key_of(es[i])) == Some(val_of(es[i])),
{
    let k = key_of(es[i]);
    lemma_order_total_order(k, k, k);
    assert forall|j: int| 0 <= j < i implies key_of(#[trigger] es[j]) != k by {
        assert(order_val(key_of(es[j]), key_of(es[i])) == Order::Less);
    }
    lemma_lookup_first(es, i);
}

/// Inserting an entry at the place that keeps the keys increasing keeps the entries well
/// formed.
#[verifier::rlimit(50)]
#[verifier::spinoff_prover]
pub proof fn lemma_insert_entry_wf(es: Seq<Val>, i: int, e: Val)
    requires
        entries_wf(es),
        is_entry(e),
        0 <= i <= es.len(),
        forall|j: int| 0 <= j < i ==> order_val(key_of(#[trigger] es[j]), key_of(e)) == Order::Less,
        i < es.len() ==> order_val(key_of(e), key_of(es[i])) == Order::Less,
    ensures
        entries_wf(es.insert(i, e)),
{
    let n = es.insert(i, e);
    assert forall|a: int| 0 <= a < n.len() implies is_entry(#[trigger] n[a]) by {
        if a > i {
            assert(n[a] == es[a - 1]);
        } else if a < i {
            assert(n[a] == es[a]);
        }
    }
    assert forall|a: int, b: int| 0 <= a < b < n.len() implies order_val(
        key_of(#[trigger] n[a]),
        key_of(#[trigger] n[b]),
    ) == Order::Less by {
        if b < i {
            assert(n[a] == es[a]);
            assert(n[b] == es[b]);
        } else if b == i {
            assert(n[a] == es[a]);
        } else if a < i {
            assert(n[a] == es[a]);
            assert(n[b] == es[b - 1]);
            if b - 1 > a {
                assert(order_val(key_of(es[a]), key_of(es[b - 1])) == Order::Less);
                lemma_order_total_order(key_of(es[a]), key_of(e), key_of(es[b - 1]));
            }
        } else if a == i {
            assert(n[b] == es[b - 1]);
            if b - 1 > i {
                assert(order_val(key_of(es[i]), key_of(es[b - 1])) == Order::Less);
                lemma_order_total_order(key_of(e), key_of(es[i]), key_of(es[b - 1]));
            }
        } else {
            assert(n[a] == es[a - 1]);
            assert(n[b] == es[b - 1]);
        }
    }
}

/// Inserting an entry before any other entry with its key maps the key to the new value and
/// every other key as before.
#[verifier::rlimit(50)]
#[verifier::spinoff_prover]
pub proof fn lemma_insert_entry(es: Seq<Val>, i: int, e: Val)
    requires
        0 <= i <= es.len(),
        forall|j: int| 0 <= j < i ==> key_of(#[trigger] es[j]) != key_of(e),
    ensures
        forall|k: Val|
            #[trigger] lookup(es.insert(i, e), k) == if k == key_of(e) {
                Some(val_of(e))
            } else {
                lookup(es, k)
            },
{
    let n = es.insert(i, e);
    assert forall|k: Val| #[trigger]
        lookup(n, k) == if k == key_of(e) {
            Some(val_of(e))
        } else {
            lookup(es, k)
        } by {
        if k == key_of(e) {
            assert(n[i] == e);
            assert forall|j: int| 0 <= j < i implies key_of(#[trigger] n[j]) != key_of(n[i]) by {
                assert(n[j] == es[j]);
            }
            lemma_lookup_first(n, i);
        } else if has_key(es, k) {
            lemma_first_key_index(es, k);
            let f = first_key_index(es, k);
            let ff = if f < i {
                f
            } else {
                f + 1
            };
            assert(n[ff] == es[f]);
            assert forall|j: int| 0 <= j < ff implies key_of(#[trigger] n[j]) != key_of(n[ff]) by {
                if j < i {
                    assert(n[j] == es[j]);
                } else if j > i {
                    assert(n[j] == es[j - 1]);
                }
            }
            lemma_lookup_first(n, ff);
        } else {
            if has_key(n, k) {
                let j = choose|j: int| 0 <= j < n.len() && key_of(#[trigger] n[j]) == k;
                if j < i {
                    assert(n[j] == es[j]);
                    assert(key_of(es[j]) == k);
                } else if j > i {
                    assert(n[j] == es[j - 1]);
                    assert(key_of(es[j - 1]) == k);
                }
            }
        }
    }
}

/// Replacing the first entry with a key maps that key to the new value and every other key
/// as before.
#[verifier::rlimit(50)]
#[verifier::spinoff_prover]
pub proof fn lemma_replace_entry(es: Seq<Val>, i: int, e: Val)
    requires
        0 <= i < es.len(),
        key_of(es[i]) == key_of(e),
        forall|j: int| 0 <= j < i ==> key_of(#[trigger] es[j]) != key_of(e),
    ensures
        forall|k: Val|
            #[trigger] lookup(es.update(i, e), k) == if k == key_of(e) {
                Some(val_of(e))
            } else {
                lookup(es, k)
            },
{
    let n = es.update(i, e);
    assert forall|k: Val| #[trigger]
        lookup(n, k) == if k == key_of(e) {
            Some(val_of(e))
        } else {
            lookup(es, k)
        } by {
        if k == key_of(e) {
            assert forall|j: int| 0 <= j < i implies key_of(#[trigger] n[j]) != key_of(n[i]) by {
                assert(n[j] == es[j]);
            }
            lemma_lookup_first(n, i);
        } else if has_key(es, k) {
            lemma_first_key_index(es, k);
            let f = first_key_index(es, k);
            assert(f != i);
            assert(n[f] == es[f]);
            assert forall|j: int| 0 <= j < f implies key_of(#[trigger] n[j]) != key_of(n[f]) by {
                if j != i {
                    assert(n[j] == es[j]);
                }
            }
            lemma_lookup_first(n, f);
        } else {
            if has_key(n, k) {
                let j = choose|j: int| 0 <= j < n.len() && key_of(#[trigger] n[j]) == k;
                assert(j != i);
                assert(key_of(es[j]) == k);
            }
        }
    }
}

/// Replacing an entry by one with the same key keeps the entries well formed.
pub proof fn lemma_replace_entry_wf(es: Seq<Val>, i: int, e: Val)
    requires
        entries_wf(es),
        is_entry(e),
        0 <= i < es.len(),
        key_of(es[i]) == key_of(e),
    ensures
        entries_wf(es.update(i, e)),
{
    let n = es.update(i, e);
    assert forall|a: int, b: int| 0 <= a < b < n.len() implies order_val(
        key_of(#[trigger] n[a]),
        key_of(#[trigger] n[b]),
    ) == Order::Less by {
        assert(key_of(n[a]) == key_of(es[a]));
        assert(key_of(n[b]) == key_of(es[b]));
    }
}

/// The empty dictionary maps nothing.
pub proof fn lemma_empty_entries()
    ensures
        entries_wf(Seq::<Val>::empty()),
        forall|k: Val| #[trigger] lookup(Seq::<Val>::empty(), k) is None,
{
}

/// The number of leading entries of `es` whose key is below `k`: where `k` goes.
pub open spec fn put_index(es: Seq<Val>, k: Val) -> int
    decreases es.len(),
{
    if es.len() == 0 || order_val(key_of(es[0]), k) != Order::Less {
        0
    } else {
        1 + put_index(es.drop_first(), k)
    }
}

/// `es` with `x` stored under `k`: the entry at the place of `k` is replaced when it has key
/// `k`, else the new entry goes there.
pub open spec fn dict_put(es: Seq<Val>, k: Val, x: Val) -> Seq<Val> {
    let i = put_index(es, k);
    if i < es.len() && order_val(key_of(es[i]), k) == Order::Equal {
        es.update(i, entry(k, x))
    } else {
        es.insert(i, entry(k, x))
    }
}

/// The entries made by storing each pair of `ps` in turn, from the empty dictionary.
pub open spec fn dict_of(ps: Seq<Val>) -> Seq<Val>
    decreases ps.len(),
{
    if ps.len() == 0 {
        Seq::empty()
    } else {
        dict_put(dict_of(ps.drop_last()), key_of(ps.last()), val_of(ps.last()))
    }
}

pub proof fn lemma_put_index(es: Seq<Val>, k: Val)
    ensures
        0 <= put_index(es, k) <= es.len(),
        forall|j: int|
            0 <= j < put_index(es, k) ==> order_val(key_of(#[trigger] es[j]), k) == Order::Less,
        put_index(es, k) < es.len() ==> order_val(key_of(es[put_index(es, k)]), k) != Order::Less,
    decreases es.len(),
{
    if es.len() > 0 && order_val(key_of(es[0]), k) == Order::Less {
        let t = es.drop_first();
        lemma_put_index(t, k);
        assert forall|j: int| 0 <= j < put_index(es, k) implies order_val(
            key_of(#[trigger] es[j]),
            k,
        ) == Order::Less by {
            if j > 0 {
                assert(es[j] == t[j - 1]);
            }
        }
        if put_index(es, k) < es.len() {
            assert(es[put_index(es, k)] == t[put_index(t, k)]);
        }
    }
}

/// The place of `k` is the first entry whose key is not below `k`.
pub proof fn lemma_put_index_unique(es: Seq<Val>, k: Val, i: int)
    requires
        0 <= i <= es.len(),
        forall|j: int| 0 <= j < i ==> order_val(key_of(#[trigger] es[j]), k) == Order::Less,
        i < es.len() ==> order_val(key_of(es[i]), k) != Order::Less,
    ensures
        put_index(es, k) == i,
{
    lemma_put_index(es, k);
    let p = put_index(es, k);
    if p < i {
        assert(order_val(key_of(es[p]), k) == Order::Less);
    } else if i < p {
        assert(order_val(key_of(es[i]), k) == Order::Less);
    }
}

/// Storing `x` under `k` maps `k` to `x` and every other key as before, and keeps
/// well-formed entries well formed.
pub proof fn lemma_dict_put(es: Seq<Val>, k: Val, x: Val)
    ensures
        entries_wf(es) ==> entries_wf(dict_put(es, k, x)),
        forall|kk: Val|
            #[trigger] lookup(dict_put(es, k, x), kk) == if kk == k {
                Some(x)
            } else {
                lookup(es, kk)
            },
{
    lemma_put_index(es, k);
    let i = put_index(es, k);
    let e = entry(k, x);
    assert(key_of(e) == k && val_of(e) == x);
    assert(is_entry(e));
    lemma_order_total_order(k, k, k);
    assert forall|j: int| 0 <= j < i implies key_of(#[trigger] es[j]) != key_of(e) by {
        assert(order_val(key_of(es[j]), k) == Order::Less);
    }
    if i < es.len() && order_val(key_of(es[i]), k) == Order::Equal {
        lemma_order_total_order(key_of(es[i]), k, k);
        lemma_replace_entry(es, i, e);
        if entries_wf(es) {
            lemma_replace_entry_wf(es, i, e);
        }
    } else {
        if i < es.len() {
            lemma_order_total_order(key_of(es[i]), k, k);
            lemma_order_total_order(k, key_of(es[i]), k);
        }
        lemma_insert_entry(es, i, e);
        if entries_wf(es) {
            lemma_insert_entry_wf(es, i, e);
        }
    }
}

/// Stores `value` under `key`, replacing what was stored there.  Keys stay in increasing
/// order.
pub fn dict_insert(entries: &mut Vec<(Value, Value)>, key: Value, value: Value)
    ensures
        pair_views(final(entries)@) == dict_put(pair_views(old(entries)@), key@, value@),
        entries_wf(pair_views(old(entries)@)) ==> entries_wf(pair_views(final(entries)@)),
        forall|k: Val|
            #[trigger] lookup(pair_views(final(entries)@), k) == if k == key@ {
                Some(value@)
            } else {
                lookup(pair_views(old(entries)@), k)
            },
{
    let ghost es = pair_views(entries@);
    let ghost e = entry(key@, value@);
    proof {
        lemma_pair_views(entries@);
    }
    let mut i: usize = 0;
    let n = entries.len();
    while i < n && crate::value::compare(&entries[i].0, &key) == Order::Less
        invariant
            n == entries.len(),
            es == pair_views(entries@),
            es.len() == n,
            i <= n,
            forall|j: int| 0 <= j < n ==> key_of(#[trigger] es[j]) == entries@[j].0@,
            forall|j: int| 0 <= j < i ==> order_val(key_of(#[trigger] es[j]), key@) == Order::Less,
        decreases n - i,
    {
        i = i + 1;
    }
    assert(key_of(e) == key@ && val_of(e) == value@);
    assert(is_entry(e));
    proof {
        lemma_order_total_order(key@, key@, key@);
        if i < n {
            assert(key_of(es[i as int]) == entries@[i as int].0@);
        }
        lemma_put_index_unique(es, key@, i as int);
        lemma_dict_put(es, key@, value@);
        assert forall|j: int| 0 <= j < i implies key_of(#[trigger] es[j]) != key_of(e) by {
            assert(order_val(key_of(es[j]), key@) == Order::Less);
        }
    }
    if i < n && crate::value::compare(&entries[i].0, &key) == Order::Equal {
        proof {
            lemma_order_total_order(entries@[i as int].0@, key@, key@);
            assert(key_of(es[i as int]) == entries@[i as int].0@);
            lemma_replace_entry(es, i as int, e);
            if entries_wf(es) {
                lemma_replace_entry_wf(es, i as int, e);
            }
        }
        entries.set(i, (key, value));
        proof {
            lemma_pair_views(entries@);
        }
        assert(pair_views(entries@) =~= es.update(i as int, e));
    } else {
        proof {
            if i < n {
                lemma_order_total_order(entries@[i as int].0@, key@, key@);
                lemma_order_total_order(key@, entries@[i as int].0@, key@);
                assert(key_of(es[i as int]) == entries@[i as int].0@);
            }
            lemma_insert_entry(es, i as int, e);
            if entries_wf(es) {
                lemma_insert_entry_wf(es, i as int, e);
            }
        }
        entries.insert(i, (key, value));
        proof {
            lemma_pair_views(entries@);
        }
        assert(pair_views(entries@) =~= es.insert(i as int, e));
    }
}

/// The value stored under `key`, if any.
pub fn dict_get<'a>(entries: &'a Vec<(Value, Value)>, key: &Value) -> (r: Option<&'a Value>)
    ensures
        match r {
            Some(v) => lookup(pair_views(entries@), key@) == Some(v@),
            None => lookup(pair_views(entries@), key@) is None,
        },
{
    let ghost es = pair_views(entries@);
    proof {
        lemma_pair_views(entries@);
    }
    let mut i: usize = 0;
    while i < entries.len()
        invariant
            es == pair_views(entries@),
            es.len() == entries.len(),
            forall|j: int|
                0 <= j < entries.len() ==> #[trigger] es[j] == entry(
                    entries@[j].0@,
                    entries@[j].1@,
                ),
            i <= entries.len(),
            forall|j: int| 0 <= j < i ==> key_of(#[trigger] es[j]) != key@,
        decreases entries.len() - i,
    {
        if crate::value::equals(&entries[i].0, key) {
            proof {
                lemma_lookup_first(es, i as int);
            }
            return Some(&entries[i].1);
        }
        i = i + 1;
    }
    proof {
        if has_key(es, key@) {
            let j = choose|j: int| 0 <= j < es.len() && key_of(#[trigger] es[j]) == key@;
            assert(key_of(es[j]) != key@);
        }
    }
    None
}

/// Builds a dictionary from key/value pairs; a later pair replaces an earlier one with the
/// same key.
#[verifier::rlimit(100)]
#[verifier::spinoff_prover]
pub fn dict_from_pairs(pairs: Vec<(Value, Value)>) -> (r: Vec<(Value, Value)>)
    ensures
        pair_views(r@) == dict_of(pair_views(pairs@)),
        entries_wf(pair_views(r@)),
        forall|k: Val| #[trigger]
            lookup(pair_views(r@), k) == last_value_for(pair_views(pairs@), k),
{
    let mut r: Vec<(Value, Value)> = Vec::new();
    let ghost ps = pair_views(pairs@);
    proof {
        lemma_pair_views(pairs@);
        assert(pair_views(r@) =~= Seq::<Val>::empty());
        assert(dict_of(ps.take(0)) =~= Seq::<Val>::empty());
        lemma_empty_entries();
        assert forall|k: Val| #[trigger]
            lookup(pair_views(r@), k) == last_value_for(ps.take(0), k) by {
            assert(ps.take(0) =~= Seq::<Val>::empty());
        }
    }
    let ghost orig = pairs@;
    let ghost n = ps.len();
    let mut pairs = pairs;
    let mut rest: Vec<(Value, Value)> = Vec::new();
    while pairs.len() > 0
        invariant
            pairs@.len() + rest@.len() == n,
            orig.len() == n,
            forall|j: int| 0 <= j < pairs@.len() ==> #[trigger] pairs@[j] == orig[j],
            forall|j: int| 0 <= j < rest@.len() ==> #[trigger] rest@[j] == orig[n - 1 - j],
        decreases pairs.len(),
    {
        let p = pairs.pop().unwrap();
        rest.push(p);
    }
    while rest.len() > 0
        invariant
            n == ps.len(),
            rest@.len() <= n,
            forall|j: int|
                0 <= j < rest@.len() ==> #[trigger] rest@[j] == orig[n - 1 - j],
            orig.len() == n,
            ps == pair_views(orig),
            ps.len() == n,
            forall|j: int| 0 <= j < n ==> #[trigger] ps[j] == entry(orig[j].0@, orig[j].1@),
            entries_wf(pair_views(r@)),
            pair_views(r@) == dict_of(ps.take(n - rest@.len())),
            forall|k: Val| #[trigger]
                lookup(pair_views(r@), k) == last_value_for(ps.take(n - rest@.len()), k),
        decreases rest.len(),
    {
        let ghost done = n - rest@.len();
        let (k, v) = rest.pop().unwrap();
        assert(orig[done] == (k, v));
        assert(ps[done] == entry(k@, v@));
        let ghost prev = pair_views(r@);
        let ghost kv = k@;
        let ghost vv = v@;
        dict_insert(&mut r, k, v);
        proof {
            let t = ps.take(done + 1);
            assert(t.drop_last() =~= ps.take(done));
            assert(t.last() == ps[done]);
            assert(key_of(entry(kv, vv)) == kv && val_of(entry(kv, vv)) == vv);
            lemma_last_value_step(ps, done, kv, vv);
            assert forall|kk: Val| #[trigger]
                lookup(pair_views(r@), kk) == last_value_for(ps.take(n - rest@.len()), kk) by {
                assert(n - rest@.len() == done + 1);
                assert(lookup(pair_views(r@), kk) == if kk == kv {
                    Some(vv)
                } else {
                    lookup(prev, kk)
                });
                assert(last_value_for(ps.take(done + 1), kk) == if kk == kv {
                    Some(vv)
                } else {
                    last_value_for(ps.take(done), kk)
                });
            }
        }
    }
    proof {
        assert(ps.take(n as int) =~= ps);
    }
    r
}

proof fn lemma_last_value_step(ps: Seq<Val>, done: int, k: Val, v: Val)
    requires
        0 <= done < ps.len(),
        ps[done] == entry(k, v),
    ensures
        forall|kk: Val| #[trigger]
            last_value_for(ps.take(done + 1), kk) == if kk == k {
                Some(v)
            } else {
                last_value_for(ps.take(done), kk)
            },
{
    let t = ps.take(done + 1);
    assert(t.drop_last() =~= ps.take(done));
    assert(t.last() == ps[done]);
    assert(key_of(entry(k, v)) == k);
    assert(val_of(entry(k, v)) == v);
}

/// The value of the last pair whose key is `k`, if any.
pub open spec fn last_value_for(ps: Seq<Val>, k: Val) -> Option<Val>
    decreases ps.len(),
{
    if ps.len() == 0 {
        None
    } else if key_of(ps.last()) == k {
        Some(val_of(ps.last()))
    } else {
        last_value_for(ps.drop_last(), k)
    }
}

} // verus!

use vstd::prelude::*;

use vstd::multiset::Multiset;

use crate::order::Order;
use crate::value::{compare, lemma_order_total_order, lemma_views, order_val, views, Val, Value};

verus! {

/// `s` with `x` inserted before its first element that `x` does not exceed.
pub open spec fn insert_sorted(s: Seq<Val>, x: Val) -> Seq<Val>
    decreases s.len(),
{
    if s.len() == 0 {
        seq![x]
    } else if order_val(x, s[0]) != Order::Greater {
        seq![x] + s
    } else {
        seq![s[0]] + insert_sorted(s.drop_first(), x)
    }
}

/// The elements of `s` in increasing order.
pub open spec fn sort_spec(s: Seq<Val>) -> Seq<Val>
    decreases s.len(),
{
    if s.len() == 0 {
        s
    } else {
        insert_sorted(sort_spec(s.drop_last()), s.last())
    }
}

pub open spec fn is_sorted(s: Seq<Val>) -> bool {
    forall|i: int, j: int|
        0 <= i < j < s.len() ==> order_val(#[trigger] s[i], #[trigger] s[j]) != Order::Greater
}

#[verifier::rlimit(80)]
#[verifier::spinoff_prover]
proof fn lemma_insert_sorted(s: Seq<Val>, x: Val)
    requires
        is_sorted(s),
    ensures
        is_sorted(insert_sorted(s, x)),
        insert_sorted(s, x).to_multiset() == s.to_multiset().insert(x),
        insert_sorted(s, x).len() == s.len() + 1,
    decreases s.len(),
{
    broadcast use vstd::multiset::group_multiset_axioms;
    broadcast use vstd::seq_lib::group_to_multiset_ensures;

    if s.len() == 0 {
        assert(seq![x] =~= Seq::<Val>::empty().push(x));
    } else if order_val(x, s[0]) != Order::Greater {
        let r = seq![x] + s;
        assert forall|i: int, j: int| 0 <= i < j < r.len() implies order_val(
            #[trigger] r[i],
            #[trigger] r[j],
        ) != Order::Greater by {
            if i == 0 {
                assert(r[j] == s[j - 1]);
                if j - 1 > 0 {
                    assert(order_val(s[0], s[j - 1]) != Order::Greater);
                }
                lemma_order_total_order(x, s[0], s[j - 1]);
            } else {
                assert(r[i] == s[i - 1]);
                assert(r[j] == s[j - 1]);
            }
        }
        vstd::seq_lib::lemma_multiset_commutative(seq![x], s);
        assert(seq![x].to_multiset() =~= Multiset::<Val>::empty().insert(x)) by {
            assert(seq![x] =~= Seq::<Val>::empty().push(x));
        }
    } else {
        let t = s.drop_first();
        assert forall|i: int, j: int| 0 <= i < j < t.len() implies order_val(
            #[trigger] t[i],
            #[trigger] t[j],
        ) != Order::Greater by {
            assert(t[i] == s[i + 1]);
            assert(t[j] == s[j + 1]);
        }
        lemma_insert_sorted(t, x);
        let it = insert_sorted(t, x);
        let r = seq![s[0]] + it;
        lemma_order_total_order(x, s[0], s[0]);
        lemma_order_total_order(s[0], x, x);
        assert(it.to_multiset().contains(x));
        assert forall|k: int| 0 <= k < it.len() implies order_val(s[0], #[trigger] it[k])
            != Order::Greater by {
            assert(it.to_multiset().contains(it[k]));
            assert(t.to_multiset().insert(x).contains(it[k]));
            if it[k] != x {
                assert(t.to_multiset().contains(it[k]));
                let m = choose|m: int| 0 <= m < t.len() && t[m] == it[k];
                assert(t[m] == s[m + 1]);
            }
        }
        assert forall|i: int, j: int| 0 <= i < j < r.len() implies order_val(
            #[trigger] r[i],
            #[trigger] r[j],
        ) != Order::Greater by {
            if i == 0 {
                assert(r[j] == it[j - 1]);
            } else {
                assert(r[i] == it[i - 1]);
                assert(r[j] == it[j - 1]);
            }
        }
        vstd::seq_lib::lemma_multiset_commutative(seq![s[0]], it);
        vstd::seq_lib::lemma_multiset_commutative(seq![s[0]], t);
        assert(s =~= seq![s[0]] + t);
        assert(seq![s[0]].to_multiset() =~= Multiset::<Val>::empty().insert(s[0])) by {
            assert(seq![s[0]] =~= Seq::<Val>::empty().push(s[0]));
        }
        assert(r.to_multiset() =~= s.to_multiset().insert(x));
    }
}

/// Sorting gives the elements in increasing order, each as many times as before.
pub proof fn lemma_sort_spec(s: Seq<Val>)
    ensures
        is_sorted(sort_spec(s)),
        sort_spec(s).to_multiset() == s.to_multiset(),
        sort_spec(s).len() == s.len(),
    decreases s.len(),
{
    broadcast use vstd::seq_lib::group_to_multiset_ensures;

    if s.len() > 0 {
        lemma_sort_spec(s.drop_last());
        lemma_insert_sorted(sort_spec(s.drop_last()), s.last());
        assert(s =~= s.drop_last().push(s.last()));
    }
}

proof fn lemma_insert_sorted_at(s: Seq<Val>, x: Val, j: int)
    requires
        0 <= j <= s.len(),
        forall|k: int| 0 <= k < j ==> order_val(x, #[trigger] s[k]) == Order::Greater,
        j < s.len() ==> order_val(x, s[j]) != Order::Greater,
    ensures
        insert_sorted(s, x) == s.insert(j, x),
    decreases s.len(),
{
    if s.len() == 0 {
        assert(s.insert(j, x) =~= seq![x]);
    } else if j == 0 {
        assert(s.insert(0, x) =~= seq![x] + s);
    } else {
        let t = s.drop_first();
        assert forall|k: int| 0 <= k < j - 1 implies order_val(x, #[trigger] t[k])
            == Order::Greater by {
            assert(t[k] == s[k + 1]);
        }
        if j - 1 < t.len() {
            assert(t[j - 1] == s[j]);
        }
        lemma_insert_sorted_at(t, x, j - 1);
        assert(seq![s[0]] + t.insert(j - 1, x) =~= s.insert(j, x));
    }
}

/// The elements of `values` in increasing order.
pub fn sort_values(values: &Vec<Value>) -> (r: Vec<Value>)
    ensures
        views(r@) == sort_spec(views(values@)),
{
    let ghost vs = views(values@);
    proof {
        lemma_views(values@);
    }
    let mut r: Vec<Value> = Vec::new();
    let mut i: usize = 0;
    assert(vs.take(0) =~= Seq::<Val>::empty());
    proof {
        lemma_views(r@);
    }
    assert(views(r@) =~= Seq::<Val>::empty());
    while i < values.len()
        invariant
            i <= values.len(),
            vs == views(values@),
            vs.len() == values.len(),
            forall|k: int| 0 <= k < values.len() ==> #[trigger] vs[k] == values@[k]@,
            views(r@) == sort_spec(vs.take(i as int)),
        decreases values.len() - i,
    {
        let x = &values[i];
        let ghost sr = views(r@);
        proof {
            lemma_views(r@);
        }
        let mut j: usize = 0;
        while j < r.len() && compare(x, &r[j]) == Order::Greater
            invariant
                j <= r.len(),
                sr == views(r@),
                sr.len() == r.len(),
                forall|k: int| 0 <= k < r.len() ==> #[trigger] sr[k] == r@[k]@,
                forall|k: int| 0 <= k < j ==> order_val(x@, #[trigger] sr[k]) == Order::Greater,
            decreases r.len() - j,
        {
            j = j + 1;
        }
        proof {
            lemma_insert_sorted_at(sr, x@, j as int);
            assert(vs.take(i + 1).drop_last() =~= vs.take(i as int));
            assert(vs.take(i + 1).last() == x@);
        }
        r.insert(j, x.duplicate());
        proof {
            lemma_views(r@);
            assert(views(r@) =~= sr.insert(j as int, x@));
        }
        i = i + 1;
    }
    assert(vs.take(values.len() as int) =~= vs);
    r
}

} // verus!

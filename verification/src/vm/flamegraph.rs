use vstd::prelude::*;

use crate::numbers::{digits, usize_to_string};
use crate::string_utils::concat_str;

verus! {

/// How many times each call stack was sampled.  A stack lists the positions of its functions
/// in the program's function table, outermost first; each stack has one row, in the order the
/// stacks were first seen.
#[derive(Debug)]
pub struct Flamegraph {
    pub counts: Vec<(Vec<usize>, usize)>,
}

/// The rows of a flame graph as sequences.
pub open spec fn row_views(rows: Seq<(Vec<usize>, usize)>) -> Seq<(Seq<usize>, usize)> {
    Seq::new(rows.len(), |i: int| (rows[i].0@, rows[i].1))
}

impl View for Flamegraph {
    type V = Seq<(Seq<usize>, usize)>;

    open spec fn view(&self) -> Seq<(Seq<usize>, usize)> {
        row_views(self.counts@)
    }
}

/// No stack has two rows.
pub open spec fn distinct_stacks(rows: Seq<(Seq<usize>, usize)>) -> bool {
    forall|i: int, j: int| 0 <= i < j < rows.len() ==> rows[i].0 != rows[j].0
}

/// The row of `stack`.
pub open spec fn position_of(rows: Seq<(Seq<usize>, usize)>, stack: Seq<usize>) -> Option<int> {
    if exists|i: int| 0 <= i < rows.len() && rows[i].0 == stack {
        Some(choose|i: int| 0 <= i < rows.len() && rows[i].0 == stack)
    } else {
        None
    }
}

/// How many times `stack` was sampled.
pub open spec fn count_of(rows: Seq<(Seq<usize>, usize)>, stack: Seq<usize>) -> nat {
    match position_of(rows, stack) {
        Some(i) => rows[i].1 as nat,
        None => 0,
    }
}

/// The rows once `stack` is sampled once more: its row counts one more, or a new row counting
/// one comes last.
pub open spec fn incremented(rows: Seq<(Seq<usize>, usize)>, stack: Seq<usize>) -> Seq<
    (Seq<usize>, usize),
> {
    match position_of(rows, stack) {
        Some(i) => rows.update(i, (stack, (rows[i].1 + 1) as usize)),
        None => rows.push((stack, 1)),
    }
}

/// `s` with `x` inserted after the rows that count at least as much as it.
pub open spec fn insert_by_count(s: Seq<(Seq<usize>, usize)>, x: (Seq<usize>, usize)) -> Seq<
    (Seq<usize>, usize),
>
    decreases s.len(),
{
    if s.len() == 0 {
        seq![x]
    } else if s[0].1 < x.1 {
        seq![x] + s
    } else {
        seq![s[0]] + insert_by_count(s.drop_first(), x)
    }
}

/// The rows by decreasing count; rows that count the same keep their order.
pub open spec fn by_count(s: Seq<(Seq<usize>, usize)>) -> Seq<(Seq<usize>, usize)>
    decreases s.len(),
{
    if s.len() == 0 {
        s
    } else {
        insert_by_count(by_count(s.drop_last()), s.last())
    }
}

/// The names of the functions of `stack`, each followed by `;` but the last.
pub open spec fn stack_text(names: Seq<Seq<char>>, stack: Seq<usize>) -> Seq<char>
    decreases stack.len(),
{
    if stack.len() == 0 {
        Seq::empty()
    } else if stack.len() == 1 {
        names[stack[0] as int]
    } else {
        stack_text(names, stack.drop_last()) + ";"@ + names[stack.last() as int]
    }
}

/// The line of a row in the folded format that flame graph tools read: the stack, a space,
/// the count.
pub open spec fn folded_line(names: Seq<Seq<char>>, row: (Seq<usize>, usize)) -> Seq<char> {
    stack_text(names, row.0) + " "@ + digits(row.1 as nat)
}

/// Sampling a stack counts it once more and leaves the other stacks' counts as they were.
pub proof fn lemma_incremented_counts(
    rows: Seq<(Seq<usize>, usize)>,
    stack: Seq<usize>,
    other: Seq<usize>,
)
    requires
        distinct_stacks(rows),
        count_of(rows, stack) < usize::MAX,
    ensures
        distinct_stacks(incremented(rows, stack)),
        count_of(incremented(rows, stack), stack) == count_of(rows, stack) + 1,
        other != stack ==> count_of(incremented(rows, stack), other) == count_of(rows, other),
{
    let r = incremented(rows, stack);
    match position_of(rows, stack) {
        Some(i) => {
            assert(r[i].0 == stack);
            if exists|j: int| 0 <= j < r.len() && r[j].0 == other {
                let j = choose|j: int| 0 <= j < r.len() && r[j].0 == other;
                assert(rows[j].0 == other || j == i);
            }
            if exists|j: int| 0 <= j < rows.len() && rows[j].0 == other {
                let j = choose|j: int| 0 <= j < rows.len() && rows[j].0 == other;
                assert(r[j].0 == other || j == i);
            }
        },
        None => {
            let n = rows.len() as int;
            assert(r[n].0 == stack);
            if exists|j: int| 0 <= j < r.len() && r[j].0 == other {
                let j = choose|j: int| 0 <= j < r.len() && r[j].0 == other;
                assert(j < n ==> rows[j].0 == other);
            }
            if exists|j: int| 0 <= j < rows.len() && rows[j].0 == other {
                let j = choose|j: int| 0 <= j < rows.len() && rows[j].0 == other;
                assert(r[j].0 == other);
            }
        },
    }
}

proof fn lemma_insert_by_count_at(s: Seq<(Seq<usize>, usize)>, x: (Seq<usize>, usize), j: int)
    requires
        0 <= j <= s.len(),
        forall|k: int| 0 <= k < j ==> x.1 <= (#[trigger] s[k]).1,
        j < s.len() ==> s[j].1 < x.1,
    ensures
        insert_by_count(s, x) == s.insert(j, x),
    decreases s.len(),
{
    if s.len() == 0 {
        assert(s.insert(j, x) =~= seq![x]);
    } else if j == 0 {
        assert(s.insert(0, x) =~= seq![x] + s);
    } else {
        let t = s.drop_first();
        assert forall|k: int| 0 <= k < j - 1 implies x.1 <= (#[trigger] t[k]).1 by {
            assert(t[k] == s[k + 1]);
        }
        if j - 1 < t.len() {
            assert(t[j - 1] == s[j]);
        }
        lemma_insert_by_count_at(t, x, j - 1);
        assert(seq![s[0]] + t.insert(j - 1, x) =~= s.insert(j, x));
    }
}

/// The positions of `v`, in order.
fn copy_stack(v: &Vec<usize>) -> (r: Vec<usize>)
    ensures
        r@ == v@,
{
    let mut r: Vec<usize> = Vec::new();
    let mut i: usize = 0;
    while i < v.len()
        invariant
            i <= v@.len(),
            r@ == v@.take(i as int),
        decreases v.len() - i,
    {
        r.push(v[i]);
        assert(r@ =~= v@.take(i + 1));
        i = i + 1;
    }
    assert(v@.take(v@.len() as int) =~= v@);
    r
}

/// Whether two stacks are the same.
fn same_stack(a: &Vec<usize>, b: &Vec<usize>) -> (r: bool)
    ensures
        r == (a@ == b@),
{
    if a.len() != b.len() {
        return false;
    }
    let mut i: usize = 0;
    while i < a.len()
        invariant
            i <= a@.len(),
            a@.len() == b@.len(),
            forall|k: int| 0 <= k < i ==> a@[k] == b@[k],
        decreases a.len() - i,
    {
        if a[i] != b[i] {
            return false;
        }
        i = i + 1;
    }
    assert(a@ =~= b@);
    true
}

impl Flamegraph {
    /// No stack sampled yet.
    pub fn new() -> (r: Flamegraph)
        ensures
            r@ == Seq::<(Seq<usize>, usize)>::empty(),
    {
        let r = Flamegraph { counts: Vec::new() };
        assert(r@ =~= Seq::<(Seq<usize>, usize)>::empty());
        r
    }

    /// Counts one more sample of `stack`.
    pub fn increment(&mut self, stack: Vec<usize>)
        requires
            distinct_stacks(old(self)@),
            count_of(old(self)@, stack@) < usize::MAX,
        ensures
            final(self)@ == incremented(old(self)@, stack@),
            distinct_stacks(final(self)@),
    {
        let ghost rows = self@;
        proof {
            lemma_incremented_counts(rows, stack@, stack@);
        }
        let mut i: usize = 0;
        while i < self.counts.len()
            invariant
                i <= self.counts@.len(),
                rows == self@,
                rows == old(self)@,
                distinct_stacks(rows),
                count_of(rows, stack@) < usize::MAX,
                forall|k: int| 0 <= k < i ==> rows[k].0 != stack@,
            decreases self.counts.len() - i,
        {
            assert(rows[i as int] == (self.counts@[i as int].0@, self.counts@[i as int].1));
            if same_stack(&self.counts[i].0, &stack) {
                proof {
                    let p = choose|p: int| 0 <= p < rows.len() && rows[p].0 == stack@;
                    assert(p == i);
                }
                let n = self.counts[i].1;
                let old_stack = copy_stack(&self.counts[i].0);
                self.counts.set(i, (old_stack, n + 1));
                assert(self@ =~= incremented(rows, stack@));
                return;
            }
            i = i + 1;
        }
        self.counts.push((stack, 1));
        assert(self@ =~= incremented(rows, stack@));
    }

    /// The rows by decreasing count; rows that count the same keep their order.
    pub fn rows_by_count(&self) -> (r: Vec<(Vec<usize>, usize)>)
        ensures
            row_views(r@) == by_count(self@),
    {
        let ghost rows = self@;
        let mut r: Vec<(Vec<usize>, usize)> = Vec::new();
        let mut i: usize = 0;
        assert(rows.take(0) =~= Seq::<(Seq<usize>, usize)>::empty());
        assert(row_views(r@) =~= Seq::<(Seq<usize>, usize)>::empty());
        while i < self.counts.len()
            invariant
                i <= self.counts@.len(),
                rows == self@,
                row_views(r@) == by_count(rows.take(i as int)),
            decreases self.counts.len() - i,
        {
            let ghost sr = row_views(r@);
            let count = self.counts[i].1;
            let mut j: usize = 0;
            while j < r.len() && count <= r[j].1
                invariant
                    j <= r@.len(),
                    sr == row_views(r@),
                    count == rows[i as int].1,
                    forall|k: int| 0 <= k < j ==> count <= (#[trigger] sr[k]).1,
                decreases r.len() - j,
            {
                j = j + 1;
            }
            let x = (copy_stack(&self.counts[i].0), count);
            proof {
                let xv = (self.counts@[i as int].0@, count);
                assert(xv == rows[i as int]);
                lemma_insert_by_count_at(sr, xv, j as int);
                assert(rows.take(i + 1).drop_last() =~= rows.take(i as int));
                assert(rows.take(i + 1).last() == xv);
            }
            r.insert(j, x);
            assert(row_views(r@) =~= sr.insert(j as int, rows[i as int]));
            i = i + 1;
        }
        assert(rows.take(self.counts@.len() as int) =~= rows);
        r
    }
}

/// The names of the functions of `stack`, each followed by `;` but the last.
fn write_stack(names: &Vec<String>, stack: &Vec<usize>) -> (r: String)
    requires
        forall|k: int| 0 <= k < stack@.len() ==> (#[trigger] stack@[k]) < names@.len(),
    ensures
        r@ == stack_text(Seq::new(names@.len(), |i: int| names@[i]@), stack@),
{
    let ghost ns = Seq::new(names@.len(), |i: int| names@[i]@);
    let mut out = String::new();
    let mut i: usize = 0;
    proof {
        reveal_strlit(";");
        assert(stack@.take(0) =~= Seq::<usize>::empty());
    }
    while i < stack.len()
        invariant
            i <= stack@.len(),
            ns == Seq::new(names@.len(), |i: int| names@[i]@),
            forall|k: int| 0 <= k < stack@.len() ==> (#[trigger] stack@[k]) < names@.len(),
            out@ == stack_text(ns, stack@.take(i as int)),
        decreases stack.len() - i,
    {
        let name = names[stack[i]].as_str();
        let ghost t = stack@.take(i + 1);
        assert(t.drop_last() =~= stack@.take(i as int));
        if i == 0 {
            out = concat_str(out.as_str(), name);
            assert(out@ =~= stack_text(ns, t));
        } else {
            let with_sep = concat_str(out.as_str(), ";");
            out = concat_str(with_sep.as_str(), name);
        }
        i = i + 1;
    }
    assert(stack@.take(stack@.len() as int) =~= stack@);
    out
}

impl Flamegraph {
    /// The samples in the folded format that flame graph tools read: a line for each stack,
    /// by decreasing count, giving the names of its functions separated by `;`, a space and the
    /// count.
    pub fn folded_lines(&self, names: &Vec<String>) -> (r: Vec<String>)
        requires
            forall|i: int, k: int|
                0 <= i < self@.len() && 0 <= k < self@[i].0.len() ==> #[trigger] self@[i].0[k]
                    < names@.len(),
        ensures
            r@.len() == self@.len(),
            forall|i: int|
                0 <= i < r@.len() ==> (#[trigger] r@[i])@ == folded_line(
                    Seq::new(names@.len(), |j: int| names@[j]@),
                    by_count(self@)[i],
                ),
    {
        let rows = self.rows_by_count();
        let ghost sorted = by_count(self@);
        proof {
            lemma_by_count_rows(self@);
        }
        let mut out: Vec<String> = Vec::new();
        let mut i: usize = 0;
        while i < rows.len()
            invariant
                i <= rows@.len(),
                row_views(rows@) == sorted,
                sorted == by_count(self@),
                sorted.len() == self@.len(),
                forall|k: int|
                    0 <= k < sorted.len() ==> exists|p: int|
                        0 <= p < self@.len() && #[trigger] sorted[k] == self@[p],
                forall|i: int, k: int|
                    0 <= i < self@.len() && 0 <= k < self@[i].0.len() ==> #[trigger] self@[i].0[k]
                        < names@.len(),
                out@.len() == i,
                forall|k: int|
                    0 <= k < i ==> (#[trigger] out@[k])@ == folded_line(
                        Seq::new(names@.len(), |j: int| names@[j]@),
                        sorted[k],
                    ),
            decreases rows.len() - i,
        {
            assert(sorted[i as int] == (rows@[i as int].0@, rows@[i as int].1));
            proof {
                let p = choose|p: int| 0 <= p < self@.len() && sorted[i as int] == self@[p];
                assert forall|k: int| 0 <= k < rows@[i as int].0@.len() implies (
                #[trigger] rows@[i as int].0@[k]) < names@.len() by {
                    assert(self@[p].0[k] == rows@[i as int].0@[k]);
                }
                reveal_strlit(" ");
            }
            let stack = write_stack(names, &rows[i].0);
            let with_space = concat_str(stack.as_str(), " ");
            let count = usize_to_string(rows[i].1);
            let line = concat_str(with_space.as_str(), count.as_str());
            out.push(line);
            i = i + 1;
        }
        out
    }
}

/// Ordering the rows by count keeps their number, and each row comes from the rows given.
proof fn lemma_by_count_rows(s: Seq<(Seq<usize>, usize)>)
    ensures
        by_count(s).len() == s.len(),
        forall|k: int|
            0 <= k < by_count(s).len() ==> exists|p: int|
                0 <= p < s.len() && #[trigger] by_count(s)[k] == s[p],
    decreases s.len(),
{
    if s.len() > 0 {
        let t = s.drop_last();
        lemma_by_count_rows(t);
        lemma_insert_by_count_rows(by_count(t), s.last());
        let r = by_count(s);
        assert forall|k: int| 0 <= k < r.len() implies exists|p: int|
            0 <= p < s.len() && #[trigger] r[k] == s[p] by {
            if r[k] == s.last() {
                assert(r[k] == s[s.len() - 1]);
            } else {
                let q = choose|q: int| 0 <= q < by_count(t).len() && r[k] == by_count(t)[q];
                let p = choose|p: int| 0 <= p < t.len() && by_count(t)[q] == t[p];
                assert(r[k] == s[p]);
            }
        }
    }
}

proof fn lemma_insert_by_count_rows(s: Seq<(Seq<usize>, usize)>, x: (Seq<usize>, usize))
    ensures
        insert_by_count(s, x).len() == s.len() + 1,
        forall|k: int|
            0 <= k < insert_by_count(s, x).len() ==> #[trigger] insert_by_count(s, x)[k] == x
                || exists|q: int| 0 <= q < s.len() && insert_by_count(s, x)[k] == s[q],
    decreases s.len(),
{
    if s.len() > 0 && !(s[0].1 < x.1) {
        let t = s.drop_first();
        lemma_insert_by_count_rows(t, x);
        let r = insert_by_count(s, x);
        assert forall|k: int| 0 <= k < r.len() implies #[trigger] r[k] == x || exists|q: int|
            0 <= q < s.len() && r[k] == s[q] by {
            if k == 0 {
                assert(r[0] == s[0]);
            } else {
                assert(r[k] == insert_by_count(t, x)[k - 1]);
                if insert_by_count(t, x)[k - 1] != x {
                    let q = choose|q: int|
                        0 <= q < t.len() && insert_by_count(t, x)[k - 1] == t[q];
                    assert(r[k] == s[q + 1]);
                }
            }
        }
    } else if s.len() > 0 {
        let r = insert_by_count(s, x);
        assert forall|k: int| 0 <= k < r.len() implies #[trigger] r[k] == x || exists|q: int|
            0 <= q < s.len() && r[k] == s[q] by {
            if k > 0 {
                assert(r[k] == s[k - 1]);
            }
        }
    }
}

} // verus!

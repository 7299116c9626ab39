use vstd::prelude::*;

use super::inst::{OpCode, OPCODE_COUNT};

verus! {

/// The number of slots, one per possible opcode byte.
pub const STAT_SLOTS: usize = 256;

/// How often each opcode ran, and for how many nanoseconds in all.
#[derive(Debug)]
pub struct StatsCollector {
    counts: Vec<usize>,
    nanos: Vec<i64>,
}

/// One line of the statistics: an opcode, how often it ran, and its total time.
pub type StatsRow = (usize, usize, i64);

/// `x` goes after every row whose total time is at least its own.
pub open spec fn insert_by_time(s: Seq<StatsRow>, x: StatsRow) -> Seq<StatsRow>
    decreases s.len(),
{
    if s.len() == 0 {
        seq![x]
    } else if s[0].2 >= x.2 {
        seq![s[0]] + insert_by_time(s.drop_first(), x)
    } else {
        seq![x] + s
    }
}

/// The rows ordered by total time, longest first; rows with equal times keep their order.
pub open spec fn order_by_time(s: Seq<StatsRow>) -> Seq<StatsRow>
    decreases s.len(),
{
    if s.len() == 0 {
        Seq::empty()
    } else {
        insert_by_time(order_by_time(s.drop_last()), s.last())
    }
}

/// The rows of the opcodes below `n` that ran at least once, in opcode order.
pub open spec fn used_rows(counts: Seq<usize>, nanos: Seq<i64>, n: int) -> Seq<StatsRow>
    decreases n,
{
    if n <= 0 {
        Seq::empty()
    } else if counts[n - 1] > 0 {
        used_rows(counts, nanos, n - 1).push(((n - 1) as usize, counts[n - 1], nanos[n - 1]))
    } else {
        used_rows(counts, nanos, n - 1)
    }
}

impl StatsCollector {
    pub closed spec fn wf(&self) -> bool {
        self.counts@.len() == STAT_SLOTS && self.nanos@.len() == STAT_SLOTS
    }

    /// How often the opcode with index `i` ran.
    pub closed spec fn count(&self, i: int) -> usize {
        self.counts@[i]
    }

    /// The total nanoseconds recorded for the opcode with index `i`.
    pub closed spec fn total(&self, i: int) -> i64 {
        self.nanos@[i]
    }

    pub closed spec fn counts_seq(&self) -> Seq<usize> {
        self.counts@
    }

    pub closed spec fn totals_seq(&self) -> Seq<i64> {
        self.nanos@
    }

    /// Nothing recorded yet.
    pub fn new() -> (r: Self)
        ensures
            r.wf(),
            forall|i: int| 0 <= i < STAT_SLOTS ==> r.count(i) == 0 && r.total(i) == 0,
    {
        let mut counts: Vec<usize> = Vec::new();
        let mut nanos: Vec<i64> = Vec::new();
        let mut i: usize = 0;
        while i < STAT_SLOTS
            invariant
                i <= STAT_SLOTS,
                counts@.len() == i,
                nanos@.len() == i,
                forall|j: int| 0 <= j < i ==> counts@[j] == 0 && nanos@[j] == 0,
            decreases STAT_SLOTS - i,
        {
            counts.push(0);
            nanos.push(0);
            i = i + 1;
        }
        StatsCollector { counts, nanos }
    }

    /// Records one run of `opcode` that took `nanos` nanoseconds (counts and totals wrap
    /// around on overflow).
    pub fn record(&mut self, opcode: OpCode, nanos: i64)
        requires
            old(self).wf(),
        ensures
            final(self).wf(),
            forall|i: int|
                0 <= i < STAT_SLOTS && i != opcode.spec_index() ==> final(self).count(i)
                    == old(self).count(i) && final(self).total(i) == old(self).total(i),
            final(self).count(opcode.spec_index() as int) == vstd::wrapping::usize_specs::wrapping_add(
                old(self).count(opcode.spec_index() as int),
                1,
            ),
            final(self).total(opcode.spec_index() as int) == vstd::wrapping::i64_specs::wrapping_add(
                old(self).total(opcode.spec_index() as int),
                nanos,
            ),
    {
        let i = opcode.index();
        let c = self.counts[i].wrapping_add(1);
        self.counts.set(i, c);
        let t = self.nanos[i].wrapping_add(nanos);
        self.nanos.set(i, t);
    }

    /// The opcodes that ran, with their counts and total times, longest total first.
    pub fn rows(&self) -> (r: Vec<StatsRow>)
        requires
            self.wf(),
        ensures
            r@ == order_by_time(used_rows(self.counts_seq(), self.totals_seq(), OPCODE_COUNT as int)),
    {
        let ghost used = used_rows(self.counts@, self.nanos@, OPCODE_COUNT as int);
        let mut rows: Vec<StatsRow> = Vec::new();
        let mut i: usize = 0;
        while i < OPCODE_COUNT
            invariant
                i <= OPCODE_COUNT,
                OPCODE_COUNT <= STAT_SLOTS,
                self.wf(),
                rows@ == order_by_time(used_rows(self.counts@, self.nanos@, i as int)),
            decreases OPCODE_COUNT - i,
        {
            if self.counts[i] > 0 {
                let row = (i, self.counts[i], self.nanos[i]);
                let ghost before = rows@;
                let mut j: usize = 0;
                while j < rows.len() && rows[j].2 >= row.2
                    invariant
                        j <= rows@.len(),
                        rows@ == before,
                        forall|k: int| 0 <= k < j ==> (#[trigger] rows@[k]).2 >= row.2,
                    decreases rows.len() - j,
                {
                    j = j + 1;
                }
                proof {
                    lemma_insert_by_time_at(before, row, j as int);
                    let u = used_rows(self.counts@, self.nanos@, i + 1);
                    assert(u.drop_last() == used_rows(self.counts@, self.nanos@, i as int));
                    assert(u.last() == row);
                }
                rows.insert(j, row);
            }
            i = i + 1;
        }
        rows
    }
}

/// Inserting by time places the row after the leading rows whose time is at least its own.
proof fn lemma_insert_by_time_at(s: Seq<StatsRow>, x: StatsRow, j: int)
    requires
        0 <= j <= s.len(),
        forall|k: int| 0 <= k < j ==> (#[trigger] s[k]).2 >= x.2,
        j < s.len() ==> s[j].2 < x.2,
    ensures
        insert_by_time(s, x) == s.insert(j, x),
    decreases j,
{
    if j == 0 {
        if s.len() > 0 {
            assert(seq![x] + s =~= s.insert(0, x));
        } else {
            assert(seq![x] =~= s.insert(0, x));
        }
    } else {
        let t = s.drop_first();
        assert forall|k: int| 0 <= k < j - 1 implies (#[trigger] t[k]).2 >= x.2 by {
            assert(t[k] == s[k + 1]);
        }
        if j - 1 < t.len() {
            assert(t[j - 1] == s[j]);
        }
        lemma_insert_by_time_at(t, x, j - 1);
        assert(seq![s[0]] + t.insert(j - 1, x) =~= s.insert(j, x));
    }
}

/// A point in time, `std::time::Instant`.
#[verifier::external_type_specification]
#[verifier::external_body]
pub struct ExInstant(std::time::Instant);

/// Reads the clock with `std::time::Instant::now`; nothing is claimed of the result.
#[verifier::external_body]
fn instant_now() -> (r: std::time::Instant) {
    std::time::Instant::now()
}

/// The time since `start`, from `std::time::Instant::elapsed`; nothing is claimed of it.
#[verifier::external_body]
fn elapsed_since(start: &std::time::Instant) -> (r: std::time::Duration) {
    start.elapsed()
}

/// The whole nanoseconds of `d`, from `std::time::Duration::as_nanos`; nothing is claimed of
/// the number.
#[verifier::external_body]
fn duration_nanos(d: &std::time::Duration) -> (r: u128) {
    d.as_nanos()
}

/// Measures how long one instruction takes.
#[derive(Debug)]
pub struct InstructionTimer {
    start: std::time::Instant,
    op: OpCode,
}

impl InstructionTimer {
    pub closed spec fn op(&self) -> OpCode {
        self.op
    }

    /// Starts timing an instruction with opcode `op`.
    pub fn new(op: OpCode) -> (r: Self)
        ensures
            r.op() == op,
    {
        InstructionTimer { start: instant_now(), op }
    }

    /// Records the time since the timer started as one run of its opcode (see `stop_after`).
    pub fn stop(&mut self, stats: &mut StatsCollector)
        requires
            old(stats).wf(),
        ensures
            final(stats).wf(),
            *final(self) == *old(self),
            forall|i: int|
                0 <= i < STAT_SLOTS && i != old(self).op().spec_index() ==> final(stats).count(i)
                    == old(stats).count(i) && final(stats).total(i) == old(stats).total(i),
            final(stats).count(old(self).op().spec_index() as int)
                == vstd::wrapping::usize_specs::wrapping_add(
                old(stats).count(old(self).op().spec_index() as int),
                1,
            ),
    {
        let elapsed = elapsed_since(&self.start);
        let nanos = duration_nanos(&elapsed);
        self.stop_after(stats, nanos);
    }

    /// Records one run of the timer's opcode that took `nanos` nanoseconds: the count goes up
    /// by one and the total by `nanos` (as an `i64`), both wrapping.
    pub fn stop_after(&self, stats: &mut StatsCollector, nanos: u128)
        requires
            old(stats).wf(),
        ensures
            final(stats).wf(),
            forall|i: int|
                0 <= i < STAT_SLOTS && i != self.op().spec_index() ==> final(stats).count(i)
                    == old(stats).count(i) && final(stats).total(i) == old(stats).total(i),
            final(stats).count(self.op().spec_index() as int)
                == vstd::wrapping::usize_specs::wrapping_add(
                old(stats).count(self.op().spec_index() as int),
                1,
            ),
            final(stats).total(self.op().spec_index() as int)
                == vstd::wrapping::i64_specs::wrapping_add(
                old(stats).total(self.op().spec_index() as int),
                nanos as i64,
            ),
    {
        stats.record(self.op, nanos as i64);
    }
}

} // verus!

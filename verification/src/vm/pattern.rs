use vstd::prelude::*;

use crate::exception::{raise, shown_view, Exception};
use crate::value::{equals, lemma_views, views, Val, Value};

verus! {

#[derive(Debug)]
pub struct Pattern {
    /// How many stack slots to store the result of the pattern match.
    pub stack_slot_count: usize,
    /// Root node of the pattern.
    pub node: PatternNode,
}

#[derive(Debug)]
pub enum PatternNode {
    /// A variable, eg. `x`
    Variable { stack_slot: usize },
    /// A wildcard, eg. `_`
    Wildcard,
    /// A constant, eg. `5`, `true`, `"hello"`, etc.
    Constant(Value),
    /// A tuple, eg. `(x, y)`
    Tuple(Vec<PatternNode>),
    /// A list, with matching on individual elements, eg. `[x, y, z.., z]`
    List { start: Vec<PatternNode>, rest: Option<Box<PatternNode>>, end: Vec<PatternNode> },
}

/// Every variable of the pattern stores into a slot below `n`.
pub open spec fn node_wf(p: PatternNode, n: nat) -> bool
    decreases p,
{
    match p {
        PatternNode::Variable { stack_slot } => stack_slot < n,
        PatternNode::Wildcard => true,
        PatternNode::Constant(_) => true,
        PatternNode::Tuple(ps) => nodes_wf(ps@, n),
        PatternNode::List { start, rest, end } => {
            &&& nodes_wf(start@, n)
            &&& nodes_wf(end@, n)
            &&& match rest {
                Some(r) => node_wf(*r, n),
                None => true,
            }
        },
    }
}

pub open spec fn nodes_wf(ps: Seq<PatternNode>, n: nat) -> bool
    decreases ps,
{
    if ps.len() == 0 {
        true
    } else {
        node_wf(ps.last(), n) && nodes_wf(ps.drop_last(), n)
    }
}

/// Matches `v` against `p`, storing bound values into `slots`; `None` when `v` doesn't match.
pub open spec fn match_node(p: PatternNode, v: Val, slots: Seq<Val>) -> Option<Seq<Val>>
    decreases p,
{
    match p {
        PatternNode::Variable { stack_slot } => Some(slots.update(stack_slot as int, v)),
        PatternNode::Wildcard => Some(slots),
        PatternNode::Constant(c) => if c@ == v {
            Some(slots)
        } else {
            None
        },
        PatternNode::Tuple(ps) => match v {
            Val::Tuple(vs) => if ps@.len() == vs.len() {
                match_front(ps@, vs, slots)
            } else {
                None
            },
            _ => None,
        },
        PatternNode::List { start, rest, end } => match v {
            Val::List(vs) => match rest {
                None => if start@.len() + end@.len() == vs.len() {
                    match match_front(start@, vs.take(start@.len() as int), slots) {
                        Some(s1) => match_front(end@, vs.skip(start@.len() as int), s1),
                        None => None,
                    }
                } else {
                    None
                },
                Some(r) => if vs.len() >= start@.len() + end@.len() {
                    match match_front(start@, vs.take(start@.len() as int), slots) {
                        Some(s1) => match match_node(
                            *r,
                            Val::List(
                                vs.subrange(start@.len() as int, vs.len() - end@.len()),
                            ),
                            s1,
                        ) {
                            Some(s2) => match_back(end@, vs, s2),
                            None => None,
                        },
                        None => None,
                    }
                } else {
                    None
                },
            },
            _ => None,
        },
    }
}

/// Matches the values against the patterns pairwise, first to last, up to the shorter length.
pub open spec fn match_front(ps: Seq<PatternNode>, vs: Seq<Val>, slots: Seq<Val>) -> Option<
    Seq<Val>,
>
    decreases ps,
{
    if ps.len() == 0 || vs.len() == 0 {
        Some(slots)
    } else {
        match match_node(ps[0], vs[0], slots) {
            Some(s1) => match_front(ps.drop_first(), vs.drop_first(), s1),
            None => None,
        }
    }
}

/// Matches the last patterns against the last values pairwise, last to first, up to the
/// shorter length.
pub open spec fn match_back(ps: Seq<PatternNode>, vs: Seq<Val>, slots: Seq<Val>) -> Option<
    Seq<Val>,
>
    decreases ps,
{
    if ps.len() == 0 || vs.len() == 0 {
        Some(slots)
    } else {
        match match_node(ps.last(), vs.last(), slots) {
            Some(s1) => match_back(ps.drop_last(), vs.drop_last(), s1),
            None => None,
        }
    }
}

proof fn lemma_nodes_wf(ps: Seq<PatternNode>, n: nat)
    requires
        nodes_wf(ps, n),
    ensures
        forall|i: int| 0 <= i < ps.len() ==> #[trigger] node_wf(ps[i], n),
    decreases ps.len(),
{
    if ps.len() > 0 {
        lemma_nodes_wf(ps.drop_last(), n);
        assert forall|i: int| 0 <= i < ps.len() implies #[trigger] node_wf(ps[i], n) by {
            if i < ps.len() - 1 {
                assert(ps.drop_last()[i] == ps[i]);
            }
        }
    }
}

/// Whether every variable of the patterns stores into a slot below `n`.
fn check_all(ps: &Vec<PatternNode>, n: usize) -> (r: bool)
    ensures
        r == nodes_wf(ps@, n as nat),
    decreases ps@, 0nat,
{
    let mut ok = true;
    let mut i: usize = 0;
    assert(ps@.take(0) =~= Seq::<PatternNode>::empty());
    while i < ps.len()
        invariant
            i <= ps.len(),
            ok == nodes_wf(ps@.take(i as int), n as nat),
        decreases ps.len() - i,
    {
        assert(ps@.take(i + 1).drop_last() =~= ps@.take(i as int));
        assert(ps@.take(i + 1).last() == ps@[i as int]);
        ok = ps[i].check_slots(n) && ok;
        i = i + 1;
    }
    assert(ps@.take(ps.len() as int) =~= ps@);
    ok
}

impl PatternNode {
    /// Whether every variable of the pattern stores into a slot below `n`.
    pub fn check_slots(&self, n: usize) -> (r: bool)
        ensures
            r == node_wf(*self, n as nat),
        decreases self, 1nat,
    {
        proof {
            broadcast use vstd::std_specs::vec::axiom_vec_decreases_to_view;
        }
        match self {
            PatternNode::Variable { stack_slot } => *stack_slot < n,
            PatternNode::Wildcard => true,
            PatternNode::Constant(_) => true,
            PatternNode::Tuple(ps) => check_all(ps, n),
            PatternNode::List { start, rest, end } => {
                let a = check_all(start, n);
                let b = check_all(end, n);
                let c = match rest {
                    Some(r) => r.check_slots(n),
                    None => true,
                };
                a && b && c
            },
        }
    }
}

impl Pattern {
    pub fn new(stack_slot_count: usize, node: PatternNode) -> (r: Self)
        ensures
            r.stack_slot_count == stack_slot_count,
            r.node == node,
    {
        Pattern { stack_slot_count, node }
    }

    /// The pattern is well formed when its variables store into its slots.
    pub open spec fn wf(&self) -> bool {
        node_wf(self.node, self.stack_slot_count as nat)
    }

    /// Whether the pattern is well formed.
    pub fn is_wf(&self) -> (r: bool)
        ensures
            r == self.wf(),
    {
        self.node.check_slots(self.stack_slot_count)
    }

    /// Matches `value`; on success gives the values bound to the slots (`nil` for a slot
    /// that no variable stores into).
    pub fn match_pattern(&self, value: &Value) -> (r: Result<Vec<Value>, Exception>)
        requires
            self.wf(),
        ensures
            match r {
                Ok(s) => match_node(
                    self.node,
                    value@,
                    Seq::new(self.stack_slot_count as nat, |i: int| Val::Nil),
                ) == Some(views(s@)),
                Err(e) => e.message@ == "Pattern match failed, got "@ && shown_view(e.shown) == Some(
                    value@,
                ) && match_node(
                    self.node,
                    value@,
                    Seq::new(self.stack_slot_count as nat, |i: int| Val::Nil),
                ) is None,
            },
    {
        let mut stack: Vec<Value> = Vec::new();
        let mut i: usize = 0;
        while i < self.stack_slot_count
            invariant
                i <= self.stack_slot_count,
                stack@.len() == i,
                forall|j: int| 0 <= j < i ==> #[trigger] stack@[j]@ == Val::Nil,
            decreases self.stack_slot_count - i,
        {
            stack.push(Value::Nil);
            i = i + 1;
        }
        proof {
            lemma_views(stack@);
            assert(views(stack@) =~= Seq::new(self.stack_slot_count as nat, |i: int| Val::Nil));
        }
        if self.node.match_pattern(value, &mut stack) {
            Ok(stack)
        } else {
            Err(Exception::showing("Pattern match failed, got ", value.duplicate()))
        }
    }
}

impl PatternNode {
    /// Matches `value`, storing bound values into `stack`; whether it matched.
    pub fn match_pattern(&self, value: &Value, stack: &mut Vec<Value>) -> (r: bool)
        requires
            node_wf(*self, old(stack)@.len()),
        ensures
            final(stack)@.len() == old(stack)@.len(),
            r ==> match_node(*self, value@, views(old(stack)@)) == Some(views(final(stack)@)),
            !r ==> match_node(*self, value@, views(old(stack)@)) is None,
        decreases self, 0nat,
    {
        proof {
            lemma_views(old(stack)@);
        }
        match self {
            PatternNode::Variable { stack_slot } => {
                let ghost before = stack@;
                stack.set(*stack_slot, value.duplicate());
                proof {
                    lemma_views(stack@);
                    assert(views(stack@) =~= views(before).update(*stack_slot as int, value@));
                }
                true
            },
            PatternNode::Wildcard => true,
            PatternNode::Constant(c) => equals(c, value),
            PatternNode::Tuple(patterns) => {
                if let Value::Tuple(values) = value {
                    proof {
                        lemma_views(values@);
                    }
                    if patterns.len() != values.len() {
                        return false;
                    }
                    proof {
                        broadcast use vstd::std_specs::vec::axiom_vec_decreases_to_view;
                        lemma_nodes_wf(patterns@, old(stack)@.len());
                    }
                    let ok = match_front_exec(patterns, 0, values, 0, stack);
                    proof {
                        assert(patterns@.skip(0) =~= patterns@);
                        assert(views(values@).skip(0) =~= views(values@));
                    }
                    ok
                } else {
                    false
                }
            },
            PatternNode::List { start, rest, end } => {
                if let Value::List(values) = value {
                    proof {
                        lemma_views(values@);
                        broadcast use vstd::std_specs::vec::axiom_vec_decreases_to_view;
                        lemma_nodes_wf(start@, old(stack)@.len());
                        lemma_nodes_wf(end@, old(stack)@.len());
                    }
                    let ghost vs = views(values@);
                    match rest {
                        None => {
                            if start.len() > values.len() || end.len() != values.len()
                                - start.len() {
                                return false;
                            }
                            let ghost s0 = views(stack@);
                            let ok1 = match_front_exec(start, 0, values, 0, stack);
                            proof {
                                lemma_match_front_prefix(start@, vs, s0);
                                assert(vs.skip(0) =~= vs);
                                assert(start@.skip(0) =~= start@);
                            }
                            if !ok1 {
                                return false;
                            }
                            let ghost s1 = views(stack@);
                            let ok2 = match_front_exec(end, 0, values, start.len(), stack);
                            proof {
                                assert(vs.skip(start@.len() as int).skip(0) =~= vs.skip(
                                    start@.len() as int,
                                ));
                                assert(vs.skip(0) =~= vs);
                                assert(start@.skip(0) =~= start@);
                                assert(end@.skip(0) =~= end@);
                            }
                            ok2
                        },
                        Some(r) => {
                            if start.len() > values.len() || end.len() > values.len()
                                - start.len() {
                                return false;
                            }
                            let ghost s0 = views(stack@);
                            let ok1 = match_front_exec(start, 0, values, 0, stack);
                            proof {
                                lemma_match_front_prefix(start@, vs, s0);
                                assert(vs.skip(0) =~= vs);
                                assert(start@.skip(0) =~= start@);
                            }
                            if !ok1 {
                                return false;
                            }
                            let lo = start.len();
                            let hi = values.len() - end.len();
                            let mut middle: Vec<Value> = Vec::new();
                            let mut k = lo;
                            while k < hi
                                invariant
                                    lo <= k <= hi,
                                    hi <= values.len(),
                                    vs == views(values@),
                                    vs.len() == values.len(),
                                    forall|j: int|
                                        0 <= j < values.len() ==> #[trigger] vs[j]
                                            == values@[j]@,
                                    middle@.len() == k - lo,
                                    forall|j: int|
                                        0 <= j < k - lo ==> #[trigger] middle@[j]@ == vs[lo + j],
                                decreases hi - k,
                            {
                                middle.push(values[k].duplicate());
                                k = k + 1;
                            }
                            proof {
                                lemma_views(middle@);
                                assert(views(middle@) =~= vs.subrange(lo as int, hi as int));
                            }
                            let rest_list = Value::List(middle);
                            let ok2 = r.match_pattern(&rest_list, stack);
                            if !ok2 {
                                return false;
                            }
                            let ok3 = match_back_exec(end, end.len(), values, values.len(), stack);
                            proof {
                                assert(end@.take(end@.len() as int) =~= end@);
                                assert(vs.take(vs.len() as int) =~= vs);
                            }
                            ok3
                        },
                    }
                } else {
                    false
                }
            },
        }
    }
}

proof fn lemma_match_front_prefix(ps: Seq<PatternNode>, vs: Seq<Val>, slots: Seq<Val>)
    requires
        ps.len() <= vs.len(),
    ensures
        match_front(ps, vs, slots) == match_front(ps, vs.take(ps.len() as int), slots),
    decreases ps.len(),
{
    if ps.len() > 0 {
        assert(vs.take(ps.len() as int).drop_first() =~= vs.drop_first().take(
            ps.drop_first().len() as int,
        ));
        assert(vs.take(ps.len() as int)[0] == vs[0]);
        match match_node(ps[0], vs[0], slots) {
            Some(s1) => {
                lemma_match_front_prefix(ps.drop_first(), vs.drop_first(), s1);
            },
            None => {},
        }
    }
}

/// Matches `values[vi..]` against `patterns[pi..]`, pairwise from the front.
fn match_front_exec(
    patterns: &Vec<PatternNode>,
    pi: usize,
    values: &Vec<Value>,
    vi: usize,
    stack: &mut Vec<Value>,
) -> (r: bool)
    requires
        pi <= patterns.len(),
        vi <= values.len(),
        forall|j: int| 0 <= j < patterns@.len() ==> #[trigger] node_wf(patterns@[j], old(stack)@.len()),
    ensures
        final(stack)@.len() == old(stack)@.len(),
        r ==> match_front(
            patterns@.skip(pi as int),
            views(values@).skip(vi as int),
            views(old(stack)@),
        ) == Some(views(final(stack)@)),
        !r ==> match_front(
            patterns@.skip(pi as int),
            views(values@).skip(vi as int),
            views(old(stack)@),
        ) is None,
    decreases patterns@, patterns.len() - pi,
{
    proof {
        lemma_views(values@);
    }
    if pi == patterns.len() || vi == values.len() {
        return true;
    }
    let ghost ps = patterns@.skip(pi as int);
    let ghost vs = views(values@).skip(vi as int);
    assert(ps[0] == patterns@[pi as int]);
    assert(vs[0] == values@[vi as int]@);
    assert(ps.drop_first() =~= patterns@.skip(pi + 1));
    assert(vs.drop_first() =~= views(values@).skip(vi + 1));
    let ok = patterns[pi].match_pattern(&values[vi], stack);
    if !ok {
        return false;
    }
    match_front_exec(patterns, pi + 1, values, vi + 1, stack)
}

/// Matches `values[..vj]` against `patterns[..pj]`, pairwise from the back.
fn match_back_exec(
    patterns: &Vec<PatternNode>,
    pj: usize,
    values: &Vec<Value>,
    vj: usize,
    stack: &mut Vec<Value>,
) -> (r: bool)
    requires
        pj <= patterns.len(),
        vj <= values.len(),
        forall|j: int| 0 <= j < patterns@.len() ==> #[trigger] node_wf(patterns@[j], old(stack)@.len()),
    ensures
        final(stack)@.len() == old(stack)@.len(),
        r ==> match_back(
            patterns@.take(pj as int),
            views(values@).take(vj as int),
            views(old(stack)@),
        ) == Some(views(final(stack)@)),
        !r ==> match_back(
            patterns@.take(pj as int),
            views(values@).take(vj as int),
            views(old(stack)@),
        ) is None,
    decreases patterns@, pj,
{
    proof {
        lemma_views(values@);
    }
    if pj == 0 || vj == 0 {
        return true;
    }
    let ghost ps = patterns@.take(pj as int);
    let ghost vs = views(values@).take(vj as int);
    assert(ps.last() == patterns@[pj - 1]);
    assert(vs.last() == values@[vj - 1]@);
    assert(ps.drop_last() =~= patterns@.take(pj - 1));
    assert(vs.drop_last() =~= views(values@).take(vj - 1));
    let ok = patterns[pj - 1].match_pattern(&values[vj - 1], stack);
    if !ok {
        return false;
    }
    match_back_exec(patterns, pj - 1, values, vj - 1, stack)
}

/// Whether a pattern matches a value does not depend on the slots it stores into.
proof fn lemma_match_slots(p: PatternNode, v: Val, a: Seq<Val>, b: Seq<Val>)
    ensures
        match_node(p, v, a) is Some <==> match_node(p, v, b) is Some,
    decreases p,
{
    match p {
        PatternNode::Tuple(ps) => {
            match v {
                Val::Tuple(vs) => {
                    if ps@.len() == vs.len() {
                        lemma_front_slots(ps@, vs, a, b);
                    }
                },
                _ => {},
            }
        },
        PatternNode::List { start, rest, end } => {
            match v {
                Val::List(vs) => {
                    let k = start@.len() as int;
                    lemma_front_slots(start@, vs.take(k), a, b);
                    match rest {
                        None => {
                            if k + end@.len() == vs.len() {
                                match (
                                    match_front(start@, vs.take(k), a),
                                    match_front(start@, vs.take(k), b),
                                ) {
                                    (Some(sa), Some(sb)) => {
                                        lemma_front_slots(end@, vs.skip(k), sa, sb);
                                    },
                                    _ => {},
                                }
                            }
                        },
                        Some(r) => {
                            if vs.len() >= k + end@.len() {
                                match (
                                    match_front(start@, vs.take(k), a),
                                    match_front(start@, vs.take(k), b),
                                ) {
                                    (Some(sa), Some(sb)) => {
                                        let mid = Val::List(vs.subrange(k, vs.len() - end@.len()));
                                        lemma_match_slots(*r, mid, sa, sb);
                                        match (match_node(*r, mid, sa), match_node(*r, mid, sb)) {
                                            (Some(ta), Some(tb)) => {
                                                lemma_back_slots(end@, vs, ta, tb);
                                            },
                                            _ => {},
                                        }
                                    },
                                    _ => {},
                                }
                            }
                        },
                    }
                },
                _ => {},
            }
        },
        _ => {},
    }
}

proof fn lemma_front_slots(ps: Seq<PatternNode>, vs: Seq<Val>, a: Seq<Val>, b: Seq<Val>)
    ensures
        match_front(ps, vs, a) is Some <==> match_front(ps, vs, b) is Some,
    decreases ps,
{
    if ps.len() > 0 && vs.len() > 0 {
        lemma_match_slots(ps[0], vs[0], a, b);
        match (match_node(ps[0], vs[0], a), match_node(ps[0], vs[0], b)) {
            (Some(sa), Some(sb)) => {
                lemma_front_slots(ps.drop_first(), vs.drop_first(), sa, sb);
            },
            _ => {},
        }
    }
}

proof fn lemma_back_slots(ps: Seq<PatternNode>, vs: Seq<Val>, a: Seq<Val>, b: Seq<Val>)
    ensures
        match_back(ps, vs, a) is Some <==> match_back(ps, vs, b) is Some,
    decreases ps,
{
    if ps.len() > 0 && vs.len() > 0 {
        lemma_match_slots(ps.last(), vs.last(), a, b);
        match (match_node(ps.last(), vs.last(), a), match_node(ps.last(), vs.last(), b)) {
            (Some(sa), Some(sb)) => {
                lemma_back_slots(ps.drop_last(), vs.drop_last(), sa, sb);
            },
            _ => {},
        }
    }
}

/// Patterns matched pairwise against as many values succeed exactly when each pattern
/// matches its value.
proof fn lemma_front_each(ps: Seq<PatternNode>, vs: Seq<Val>, slots: Seq<Val>)
    requires
        ps.len() == vs.len(),
    ensures
        match_front(ps, vs, slots) is Some <==> forall|i: int|
            0 <= i < ps.len() ==> (#[trigger] match_node(ps[i], vs[i], slots)) is Some,
    decreases ps,
{
    if ps.len() > 0 {
        let ps1 = ps.drop_first();
        let vs1 = vs.drop_first();
        lemma_front_each(ps1, vs1, slots);
        match match_node(ps[0], vs[0], slots) {
            Some(s1) => {
                lemma_front_slots(ps1, vs1, s1, slots);
                if forall|i: int| 0 <= i < ps1.len() ==> (#[trigger] match_node(ps1[i], vs1[i], slots)) is Some {
                    assert forall|i: int| 0 <= i < ps.len() implies (#[trigger] match_node(
                        ps[i],
                        vs[i],
                        slots,
                    )) is Some by {
                        if i > 0 {
                            assert(ps1[i - 1] == ps[i] && vs1[i - 1] == vs[i]);
                        }
                    }
                }
                if forall|i: int| 0 <= i < ps.len() ==> (#[trigger] match_node(ps[i], vs[i], slots)) is Some {
                    assert forall|i: int| 0 <= i < ps1.len() implies (#[trigger] match_node(
                        ps1[i],
                        vs1[i],
                        slots,
                    )) is Some by {
                        assert(ps1[i] == ps[i + 1] && vs1[i] == vs[i + 1]);
                        assert(match_node(ps[i + 1], vs[i + 1], slots) is Some);
                    }
                }
            },
            None => {},
        }
    }
}

/// A list pattern without a rest part matches exactly the lists with one value per element
/// pattern, where each of its first patterns matches the value at its position and each of
/// its last patterns the value at its position counted from the end.  With a rest part it
/// matches only lists at least as long as its element patterns.  No other value matches a
/// list pattern, and a tuple pattern matches exactly the tuples with one value per element
/// pattern, each matching its pattern.
pub proof fn lemma_list_pattern(
    start: Vec<PatternNode>,
    rest: Option<Box<PatternNode>>,
    end: Vec<PatternNode>,
    v: Val,
    slots: Seq<Val>,
)
    ensures
        match_node(PatternNode::List { start, rest, end }, v, slots) is Some ==> v is List,
        rest is None ==> (match_node(
            PatternNode::List { start, rest, end },
            Val::List(v->List_0),
            slots,
        ) is Some <==> {
            let vs = v->List_0;
            &&& vs.len() == start@.len() + end@.len()
            &&& forall|i: int|
                0 <= i < start@.len() ==> (#[trigger] match_node(start@[i], vs[i], slots)) is Some
            &&& forall|j: int|
                0 <= j < end@.len() ==> (#[trigger] match_node(end@[j], vs[start@.len() + j], slots))
                    is Some
        }),
        match_node(PatternNode::List { start, rest, end }, v, slots) is Some ==> v->List_0.len()
            >= start@.len() + end@.len(),
        match_node(PatternNode::Tuple(start), v, slots) is Some <==> (v is Tuple && v->Tuple_0.len()
            == start@.len() && forall|i: int|
            0 <= i < start@.len() ==> (#[trigger] match_node(start@[i], v->Tuple_0[i], slots)) is Some),
{
    if v is Tuple && v->Tuple_0.len() == start@.len() {
        lemma_front_each(start@, v->Tuple_0, slots);
    }
    let vs = v->List_0;
    let k = start@.len() as int;
    if rest is None && vs.len() == k + end@.len() {
        let front = vs.take(k);
        let back = vs.skip(k);
        lemma_front_each(start@, front, slots);
        lemma_front_each(end@, back, slots);
        assert forall|i: int| 0 <= i < k implies front[i] == vs[i] by {}
        assert forall|j: int| 0 <= j < end@.len() implies back[j] == vs[k + j] by {}
        match match_front(start@, front, slots) {
            Some(s1) => {
                lemma_front_slots(end@, back, s1, slots);
            },
            None => {},
        }
        let lhs = match_node(PatternNode::List { start, rest, end }, Val::List(vs), slots) is Some;
        let each_front = forall|i: int|
            0 <= i < k ==> (#[trigger] match_node(start@[i], vs[i], slots)) is Some;
        let each_back = forall|j: int|
            0 <= j < end@.len() ==> (#[trigger] match_node(end@[j], vs[k + j], slots)) is Some;
        assert(each_front == (forall|i: int|
            0 <= i < k ==> (#[trigger] match_node(start@[i], front[i], slots)) is Some));
        if each_back {
            assert forall|j: int| 0 <= j < end@.len() implies (#[trigger] match_node(
                end@[j],
                back[j],
                slots,
            )) is Some by {
                assert(back[j] == vs[k + j]);
            }
        }
        if forall|j: int|
            0 <= j < end@.len() ==> (#[trigger] match_node(end@[j], back[j], slots)) is Some {
            assert forall|j: int| 0 <= j < end@.len() implies (#[trigger] match_node(
                end@[j],
                vs[k + j],
                slots,
            )) is Some by {
                assert(back[j] == vs[k + j]);
            }
        }
    }
}

} // verus!

use vstd::prelude::*;

verus! {

/// The outcome of comparing two things.
#[derive(Debug, Clone, Copy, PartialEq, Eq, Structural)]
pub enum Order {
    Less,
    Equal,
    Greater,
}

impl Order {
    /// The outcome of the comparison with the two sides exchanged.
    pub open spec fn flip(self) -> Order {
        match self {
            Order::Less => Order::Greater,
            Order::Equal => Order::Equal,
            Order::Greater => Order::Less,
        }
    }
}

pub open spec fn order_int(a: int, b: int) -> Order {
    if a < b {
        Order::Less
    } else if a == b {
        Order::Equal
    } else {
        Order::Greater
    }
}

/// Lexicographic order on strings by code point, which is also the order of their UTF-8 bytes.
pub open spec fn order_chars(a: Seq<char>, b: Seq<char>) -> Order
    decreases a.len(),
{
    if a.len() == 0 {
        if b.len() == 0 {
            Order::Equal
        } else {
            Order::Less
        }
    } else if b.len() == 0 {
        Order::Greater
    } else {
        match order_int(a[0] as int, b[0] as int) {
            Order::Equal => order_chars(a.drop_first(), b.drop_first()),
            c => c,
        }
    }
}

pub proof fn lemma_order_chars(a: Seq<char>, b: Seq<char>)
    ensures
        order_chars(a, a) == Order::Equal,
        order_chars(a, b) == Order::Equal ==> a == b,
        order_chars(b, a) == order_chars(a, b).flip(),
    decreases a.len(),
{
    if a.len() > 0 {
        lemma_order_chars(a.drop_first(), a.drop_first());
        if b.len() > 0 {
            lemma_order_chars(a.drop_first(), b.drop_first());
            if order_chars(a, b) == Order::Equal {
                assert(a[0] == b[0]);
                assert(a =~= seq![a[0]] + a.drop_first());
                assert(b =~= seq![b[0]] + b.drop_first());
            }
        }
    }
}

pub proof fn lemma_order_chars_transitive(a: Seq<char>, b: Seq<char>, c: Seq<char>)
    requires
        order_chars(a, b) == Order::Less,
        order_chars(b, c) == Order::Less,
    ensures
        order_chars(a, c) == Order::Less,
    decreases a.len(),
{
    if a.len() > 0 && b.len() > 0 && c.len() > 0 {
        if a[0] == b[0] && b[0] == c[0] {
            lemma_order_chars_transitive(a.drop_first(), b.drop_first(), c.drop_first());
        }
    }
}

/// Compares two integers.
pub fn compare_i64(a: i64, b: i64) -> (r: Order)
    ensures
        r == order_int(a as int, b as int),
{
    if a < b {
        Order::Less
    } else if a == b {
        Order::Equal
    } else {
        Order::Greater
    }
}

/// Compares two sizes.
pub fn compare_usize(a: usize, b: usize) -> (r: Order)
    ensures
        r == order_int(a as int, b as int),
{
    if a < b {
        Order::Less
    } else if a == b {
        Order::Equal
    } else {
        Order::Greater
    }
}

/// Compares two strings by code point.
pub fn compare_str(a: &str, b: &str) -> (r: Order)
    ensures
        r == order_chars(a@, b@),
{
    let x = crate::string_utils::to_chars(a);
    let y = crate::string_utils::to_chars(b);
    let mut i: usize = 0;
    assert(a@.skip(0) =~= a@);
    assert(b@.skip(0) =~= b@);
    while i < x.len() && i < y.len() && x[i] == y[i]
        invariant
            x@ == a@,
            y@ == b@,
            i <= x.len(),
            i <= y.len(),
            order_chars(a@, b@) == order_chars(a@.skip(i as int), b@.skip(i as int)),
        decreases x.len() - i,
    {
        assert(a@.skip(i as int).drop_first() =~= a@.skip(i + 1));
        assert(b@.skip(i as int).drop_first() =~= b@.skip(i + 1));
        i = i + 1;
    }
    let ghost sa = a@.skip(i as int);
    let ghost sb = b@.skip(i as int);
    assert(sa.len() == x.len() - i);
    assert(sb.len() == y.len() - i);
    if i < x.len() && i < y.len() {
        assert(sa[0] == x[i as int]);
        assert(sb[0] == y[i as int]);
    }
    if i == x.len() {
        if i == y.len() {
            Order::Equal
        } else {
            Order::Less
        }
    } else if i == y.len() {
        Order::Greater
    } else if x[i] < y[i] {
        Order::Less
    } else {
        Order::Greater
    }
}

} // verus!

use vstd::prelude::*;

use crate::string_utils::string_from_chars;

verus! {

/// The character of the decimal digit `d`.
pub open spec fn digit_char(d: int) -> char {
    if d == 0 {
        '0'
    } else if d == 1 {
        '1'
    } else if d == 2 {
        '2'
    } else if d == 3 {
        '3'
    } else if d == 4 {
        '4'
    } else if d == 5 {
        '5'
    } else if d == 6 {
        '6'
    } else if d == 7 {
        '7'
    } else if d == 8 {
        '8'
    } else {
        '9'
    }
}

/// The value of a decimal digit character.
pub open spec fn digit_value(c: char) -> int {
    (c as int) - ('0' as int)
}

pub open spec fn is_digit(c: char) -> bool {
    '0' <= c && c <= '9'
}

/// The decimal digits of `n`, most significant first, without leading zeros.
pub open spec fn digits(n: nat) -> Seq<char>
    decreases n,
{
    if n < 10 {
        seq![digit_char(n as int)]
    } else {
        digits(n / 10).push(digit_char((n % 10) as int))
    }
}

/// The decimal representation of `i`, with a leading `-` when it is negative.
pub open spec fn decimal(i: int) -> Seq<char> {
    if i < 0 {
        seq!['-'] + digits((-i) as nat)
    } else {
        digits(i as nat)
    }
}

fn digit_to_char(d: u64) -> (r: char)
    requires
        d < 10,
    ensures
        r == digit_char(d as int),
{
    if d == 0 {
        '0'
    } else if d == 1 {
        '1'
    } else if d == 2 {
        '2'
    } else if d == 3 {
        '3'
    } else if d == 4 {
        '4'
    } else if d == 5 {
        '5'
    } else if d == 6 {
        '6'
    } else if d == 7 {
        '7'
    } else if d == 8 {
        '8'
    } else {
        '9'
    }
}

/// The decimal digits of `n`.
pub fn digits_of(n: u64) -> (r: Vec<char>)
    ensures
        r@ == digits(n as nat),
{
    let mut m = n;
    let mut acc: Vec<char> = Vec::new();
    while m >= 10
        invariant
            digits(n as nat) == digits(m as nat) + acc@,
        decreases m,
    {
        let d = digit_to_char(m % 10);
        assert(digits(m as nat) == digits((m / 10) as nat).push(digit_char((m % 10) as int)));
        let ghost prev = acc@;
        acc.insert(0, d);
        assert(acc@ =~= seq![d] + prev);
        assert(digits((m / 10) as nat).push(d) + prev =~= digits((m / 10) as nat) + acc@);
        m = m / 10;
    }
    let mut r: Vec<char> = Vec::new();
    r.push(digit_to_char(m));
    let mut i: usize = 0;
    while i < acc.len()
        invariant
            i <= acc.len(),
            r@ == digits(m as nat) + acc@.take(i as int),
        decreases acc.len() - i,
    {
        r.push(acc[i]);
        assert(acc@.take(i + 1) =~= acc@.take(i as int).push(acc@[i as int]));
        assert(digits(m as nat) + acc@.take(i + 1) =~= (digits(m as nat) + acc@.take(
            i as int,
        )).push(acc@[i as int]));
        i = i + 1;
    }
    assert(acc@.take(acc.len() as int) =~= acc@);
    r
}

/// The decimal representation of `i`.
pub fn int_to_string(i: i64) -> (r: String)
    ensures
        r@ == decimal(i as int),
{
    if i < 0 {
        let magnitude: u64 = if i == i64::MIN {
            0x8000_0000_0000_0000u64
        } else {
            (-i) as u64
        };
        let d = digits_of(magnitude);
        let mut v: Vec<char> = Vec::new();
        v.push('-');
        let mut k: usize = 0;
        while k < d.len()
            invariant
                k <= d.len(),
                v@ == seq!['-'] + d@.take(k as int),
            decreases d.len() - k,
        {
            v.push(d[k]);
            assert(d@.take(k + 1) =~= d@.take(k as int).push(d@[k as int]));
            assert(seq!['-'] + d@.take(k + 1) =~= (seq!['-'] + d@.take(k as int)).push(
                d@[k as int],
            ));
            k = k + 1;
        }
        assert(d@.take(d.len() as int) =~= d@);
        string_from_chars(&v)
    } else {
        let d = digits_of(i as u64);
        string_from_chars(&d)
    }
}

/// The decimal digits of `n`.
pub fn usize_to_string(n: usize) -> (r: String)
    ensures
        r@ == digits(n as nat),
{
    let ds = digits_of(n as u64);
    crate::string_utils::string_from_chars(&ds)
}

/// The value of the decimal digits `s`, most significant first.
pub open spec fn digits_value(s: Seq<char>) -> int
    decreases s.len(),
{
    if s.len() == 0 {
        0
    } else {
        digits_value(s.drop_last()) * 10 + digit_value(s.last())
    }
}

/// `s` without a leading `+` or `-`.
pub open spec fn unsigned_part(s: Seq<char>) -> Seq<char> {
    if s.len() > 0 && (s[0] == '-' || s[0] == '+') {
        s.drop_first()
    } else {
        s
    }
}

pub open spec fn all_digits(s: Seq<char>) -> bool {
    forall|i: int| 0 <= i < s.len() ==> is_digit(#[trigger] s[i])
}

/// The integer that `s` spells the way Rust's `i64::from_str` reads it: an optional `+` or
/// `-`, then one or more ASCII digits, within the range of `i64`.
pub open spec fn parse_i64(s: Seq<char>) -> Option<i64> {
    let body = unsigned_part(s);
    if body.len() == 0 || !all_digits(body) {
        None
    } else {
        let v = if s[0] == '-' {
            -digits_value(body)
        } else {
            digits_value(body)
        };
        if i64::MIN <= v <= i64::MAX {
            Some(v as i64)
        } else {
            None
        }
    }
}

proof fn lemma_digits_value_nonneg(s: Seq<char>)
    requires
        forall|i: int| 0 <= i < s.len() ==> is_digit(#[trigger] s[i]),
    ensures
        digits_value(s) >= 0,
    decreases s.len(),
{
    if s.len() > 0 {
        lemma_digits_value_nonneg(s.drop_last());
        assert(is_digit(s[s.len() - 1]));
    }
}

/// Reads an integer the way Rust's `i64::from_str` does.
pub fn parse_int(s: &str) -> (r: Option<i64>)
    ensures
        r == parse_i64(s@),
{
    let v = crate::string_utils::to_chars(s);
    let ghost sv = s@;
    let neg = v.len() > 0 && v[0] == '-';
    let start: usize = if v.len() > 0 && (v[0] == '-' || v[0] == '+') {
        1
    } else {
        0
    };
    let ghost body = unsigned_part(sv);
    assert(body =~= sv.skip(start as int));
    if start == v.len() {
        return None;
    }
    let limit: u64 = 0x8000_0000_0000_0000u64;
    let mut acc: u64 = 0;
    let mut over = false;
    let mut i: usize = start;
    while i < v.len()
        invariant
            v@ == sv,
            sv == s@,
            start <= i <= v.len(),
            start <= 1,
            body == sv.skip(start as int),
            body == unsigned_part(sv),
            neg == (sv.len() > 0 && sv[0] == '-'),
            forall|j: int| start <= j < i ==> is_digit(#[trigger] sv[j]),
            over ==> digits_value(sv.subrange(start as int, i as int)) > limit,
            !over ==> acc == digits_value(sv.subrange(start as int, i as int)),
            acc <= limit,
            limit == 0x8000_0000_0000_0000u64,
        decreases v.len() - i,
    {
        let c = v[i];
        if !('0' <= c && c <= '9') {
            proof {
                assert(body[i - start] == c);
                assert(!is_digit(body[i - start]));
                assert(!all_digits(body));
            }
            return None;
        }
        let d = (c as u32 - '0' as u32) as u64;
        let ghost prev = sv.subrange(start as int, i as int);
        let ghost next = sv.subrange(start as int, i + 1);
        assert(next.drop_last() =~= prev);
        assert(next.last() == c);
        proof {
            assert forall|j: int| 0 <= j < prev.len() implies is_digit(#[trigger] prev[j]) by {
                assert(prev[j] == sv[start + j]);
            }
            lemma_digits_value_nonneg(prev);
        }
        if !over {
            if acc > (limit - d) / 10 {
                over = true;
                assert(digits_value(next) > limit) by (nonlinear_arith)
                    requires
                        digits_value(next) == acc * 10 + d,
                        acc > (limit - d) / 10,
                        d < 10,
                        limit == 0x8000_0000_0000_0000u64,
                ;
            } else {
                assert(acc * 10 + d <= limit) by (nonlinear_arith)
                    requires
                        acc <= (limit - d) / 10,
                        d < 10,
                        limit == 0x8000_0000_0000_0000u64,
                ;
                acc = acc * 10 + d;
            }
        } else {
            assert(digits_value(next) > limit) by (nonlinear_arith)
                requires
                    digits_value(next) == digits_value(prev) * 10 + (d as int),
                    digits_value(prev) > limit,
                    d >= 0,
            ;
        }
        i = i + 1;
    }
    assert(sv.subrange(start as int, v.len() as int) =~= body);
    assert forall|j: int| 0 <= j < body.len() implies is_digit(#[trigger] body[j]) by {
        assert(body[j] == sv[start + j]);
    }
    assert(all_digits(body));
    if over {
        return None;
    }
    if neg {
        if acc == limit {
            Some(i64::MIN)
        } else {
            Some(-(acc as i64))
        }
    } else if acc == limit {
        None
    } else {
        Some(acc as i64)
    }
}

/// Rust's `/` on integers: the quotient rounded toward zero.
pub open spec fn div_trunc(a: int, b: int) -> int {
    let q = abs(a) / abs(b);
    if (a < 0) == (b < 0) {
        q
    } else {
        -q
    }
}

/// Rust's `%` on integers: the remainder of the quotient rounded toward zero, of the sign of
/// the dividend.
pub open spec fn rem_trunc(a: int, b: int) -> int {
    let r = abs(a) % abs(b);
    if a < 0 {
        -r
    } else {
        r
    }
}

pub open spec fn abs(a: int) -> int {
    if a < 0 {
        -a
    } else {
        a
    }
}

/// The quotient rounded toward zero of two `i64` values fits in an `i64` except for
/// `i64::MIN / -1`.
pub proof fn lemma_div_trunc_range(a: int, b: int)
    requires
        i64::MIN <= a <= i64::MAX,
        i64::MIN <= b <= i64::MAX,
        b != 0,
    ensures
        (i64::MIN <= div_trunc(a, b) <= i64::MAX) <==> !(a == i64::MIN && b == -1),
{
    let q = abs(a) / abs(b);
    assert(0 <= q <= abs(a)) by (nonlinear_arith)
        requires
            abs(b) >= 1,
            abs(a) >= 0,
            q == abs(a) / abs(b),
    ;
    if abs(b) >= 2 {
        assert(q <= abs(a) / 2) by (nonlinear_arith)
            requires
                abs(b) >= 2,
                abs(a) >= 0,
                q == abs(a) / abs(b),
        ;
    } else {
        assert(q == abs(a));
    }
}

fn magnitude(a: i64) -> (r: u64)
    ensures
        r == abs(a as int),
{
    if a == i64::MIN {
        0x8000_0000_0000_0000u64
    } else if a < 0 {
        (-a) as u64
    } else {
        a as u64
    }
}

/// Division rounding toward zero; `None` where Rust's `/` would panic (division by zero, or
/// the quotient does not fit).
pub fn checked_div_trunc(a: i64, b: i64) -> (r: Option<i64>)
    ensures
        r matches Some(q) ==> q == div_trunc(a as int, b as int),
        r is None <==> (b == 0 || (a == i64::MIN && b == -1)),
{
    if b == 0 || (a == i64::MIN && b == -1) {
        return None;
    }
    let ua = magnitude(a);
    let ub = magnitude(b);
    let q = ua / ub;
    assert(q <= ua) by (nonlinear_arith)
        requires
            ub >= 1,
            q == ua / ub,
    ;
    if (a < 0) == (b < 0) {
        assert(q < 0x8000_0000_0000_0000u64) by (nonlinear_arith)
            requires
                ub >= 1,
                q == ua / ub,
                ua <= 0x8000_0000_0000_0000u64,
                ua == 0x8000_0000_0000_0000u64 ==> ub >= 2,
        ;
        Some(q as i64)
    } else if q == 0x8000_0000_0000_0000u64 {
        Some(i64::MIN)
    } else {
        Some(-(q as i64))
    }
}

/// Remainder of the division rounding toward zero; `None` where Rust's `%` would panic.
pub fn checked_rem_trunc(a: i64, b: i64) -> (r: Option<i64>)
    ensures
        r matches Some(m) ==> m == rem_trunc(a as int, b as int),
        r is None <==> (b == 0 || (a == i64::MIN && b == -1)),
{
    if b == 0 || (a == i64::MIN && b == -1) {
        return None;
    }
    let ua = magnitude(a);
    let ub = magnitude(b);
    let m = ua % ub;
    assert(m < ub);
    if a < 0 {
        Some(-(m as i64))
    } else {
        Some(m as i64)
    }
}

} // verus!

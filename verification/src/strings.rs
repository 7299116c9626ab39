use vstd::prelude::*;

use crate::string_utils::{string_from_chars, to_chars, char_to_string};
use crate::value::{lemma_views, views, Val, Value};

verus! {

/// `p` occurs in `s` at character index `i`.
pub open spec fn occurs_at(s: Seq<char>, p: Seq<char>, i: int) -> bool {
    0 <= i && i + p.len() <= s.len() && s.subrange(i, i + p.len()) == p
}

/// The character index of the first occurrence of `p` in `s`, as Rust's `str::find` followed
/// by the conversion of the byte index to a character index: `None` when there is none, or
/// when it is at the very end of `s` (only possible for an empty `p`).
pub open spec fn find_first(s: Seq<char>, p: Seq<char>) -> Option<int> {
    if exists|i: int| 0 <= i < s.len() && occurs_at(s, p, i) {
        Some(
            choose|i: int|
                0 <= i < s.len() && occurs_at(s, p, i) && forall|j: int|
                    0 <= j < i ==> !occurs_at(s, p, j),
        )
    } else {
        None
    }
}

/// The character index of the last occurrence of `p` in `s`, as Rust's `str::rfind`
/// followed by the conversion of the byte index to a character index: `None` when there is
/// none, or when it is at the very end of `s` (always the case for an empty `p`).
pub open spec fn find_last(s: Seq<char>, p: Seq<char>) -> Option<int> {
    if p.len() > 0 && exists|i: int| 0 <= i < s.len() && occurs_at(s, p, i) {
        Some(
            choose|i: int|
                0 <= i < s.len() && occurs_at(s, p, i) && forall|j: int|
                    i < j < s.len() ==> !occurs_at(s, p, j),
        )
    } else {
        None
    }
}

fn occurs_at_exec(s: &Vec<char>, p: &Vec<char>, i: usize) -> (r: bool)
    ensures
        r == occurs_at(s@, p@, i as int),
{
    if i > s.len() || p.len() > s.len() - i {
        return false;
    }
    let mut k: usize = 0;
    while k < p.len()
        invariant
            i + p.len() <= s.len(),
            k <= p.len(),
            forall|j: int| 0 <= j < k ==> s@[i + j] == p@[j],
        decreases p.len() - k,
    {
        if s[i + k] != p[k] {
            assert(s@.subrange(i as int, i + p.len())[k as int] != p@[k as int]);
            return false;
        }
        k = k + 1;
    }
    assert(s@.subrange(i as int, i + p.len()) =~= p@);
    true
}

/// The character index of the first occurrence of `pattern` in `string`.
pub fn str_find(string: &str, pattern: &str) -> (r: Option<usize>)
    ensures
        match r {
            Some(i) => find_first(string@, pattern@) == Some(i as int) && occurs_at(
                string@,
                pattern@,
                i as int,
            ),
            None => find_first(string@, pattern@) is None,
        },
{
    let s = to_chars(string);
    let p = to_chars(pattern);
    let mut i: usize = 0;
    while i < s.len()
        invariant
            s@ == string@,
            p@ == pattern@,
            i <= s.len(),
            forall|j: int| 0 <= j < i ==> !occurs_at(s@, p@, j),
        decreases s.len() - i,
    {
        if occurs_at_exec(&s, &p, i) {
            proof {
                let k = choose|k: int|
                    0 <= k < s@.len() && occurs_at(s@, p@, k) && forall|j: int|
                        0 <= j < k ==> !occurs_at(s@, p@, j);
                if k < i {
                } else if k > i {
                }
                assert(k == i);
            }
            return Some(i);
        }
        i = i + 1;
    }
    None
}

/// The character index of the last occurrence of `pattern` in `string`.
pub fn str_rfind(string: &str, pattern: &str) -> (r: Option<usize>)
    ensures
        match r {
            Some(i) => find_last(string@, pattern@) == Some(i as int) && occurs_at(
                string@,
                pattern@,
                i as int,
            ),
            None => find_last(string@, pattern@) is None,
        },
{
    let s = to_chars(string);
    let p = to_chars(pattern);
    if p.len() == 0 {
        return None;
    }
    let mut i: usize = s.len();
    while i > 0
        invariant
            s@ == string@,
            p@ == pattern@,
            p@.len() > 0,
            i <= s.len(),
            forall|j: int| i <= j < s.len() ==> !occurs_at(s@, p@, j),
        decreases i,
    {
        if occurs_at_exec(&s, &p, i - 1) {
            proof {
                let k = choose|k: int|
                    0 <= k < s@.len() && occurs_at(s@, p@, k) && forall|j: int|
                        k < j < s@.len() ==> !occurs_at(s@, p@, j);
                if k < i - 1 {
                } else if k > i - 1 {
                }
                assert(k == i - 1);
            }
            return Some(i - 1);
        }
        i = i - 1;
    }
    None
}

/// Whether `string` begins with `prefix`.
pub fn str_starts_with(string: &str, prefix: &str) -> (r: bool)
    ensures
        r == (prefix@.len() <= string@.len() && string@.take(prefix@.len() as int) == prefix@),
{
    let s = to_chars(string);
    let p = to_chars(prefix);
    let r = occurs_at_exec(&s, &p, 0);
    assert(s@.subrange(0, p@.len() as int) =~= s@.take(p@.len() as int));
    r
}

/// Whether `string` ends with `suffix`.
pub fn str_ends_with(string: &str, suffix: &str) -> (r: bool)
    ensures
        r == (suffix@.len() <= string@.len() && string@.skip(string@.len() - suffix@.len())
            == suffix@),
{
    let s = to_chars(string);
    let p = to_chars(suffix);
    if p.len() > s.len() {
        return false;
    }
    let r = occurs_at_exec(&s, &p, s.len() - p.len());
    assert(s@.subrange((s@.len() - p@.len()) as int, s@.len() as int) =~= s@.skip(
        s@.len() - p@.len(),
    ));
    r
}

/// The characters of `string` in reverse order.
pub fn str_reverse(string: &str) -> (r: String)
    ensures
        r@ == string@.reverse(),
{
    let s = to_chars(string);
    let mut v: Vec<char> = Vec::new();
    let mut i: usize = s.len();
    while i > 0
        invariant
            s@ == string@,
            i <= s.len(),
            v@.len() == s.len() - i,
            forall|j: int| 0 <= j < v@.len() ==> #[trigger] v@[j] == s@[s.len() - 1 - j],
        decreases i,
    {
        v.push(s[i - 1]);
        i = i - 1;
    }
    assert(v@ =~= string@.reverse());
    string_from_chars(&v)
}

/// Characters with the Unicode `White_Space` property, which `str::trim` removes.
pub open spec fn is_whitespace(c: char) -> bool {
    let n = c as u32;
    (0x9 <= n <= 0xd) || n == 0x20 || n == 0x85 || n == 0xa0 || n == 0x1680 || (0x2000 <= n
        <= 0x200a) || n == 0x2028 || n == 0x2029 || n == 0x202f || n == 0x205f || n == 0x3000
}

fn is_whitespace_exec(c: char) -> (r: bool)
    ensures
        r == is_whitespace(c),
{
    let n = c as u32;
    (0x9 <= n && n <= 0xd) || n == 0x20 || n == 0x85 || n == 0xa0 || n == 0x1680 || (0x2000 <= n
        && n <= 0x200a) || n == 0x2028 || n == 0x2029 || n == 0x202f || n == 0x205f || n == 0x3000
}

/// `s` without its leading and trailing white space: the part from the first to the last
/// character that is not white space.
pub open spec fn trimmed(s: Seq<char>, lo: int, hi: int) -> bool {
    &&& 0 <= lo <= hi <= s.len()
    &&& forall|j: int| 0 <= j < lo ==> is_whitespace(#[trigger] s[j])
    &&& forall|j: int| hi <= j < s.len() ==> is_whitespace(#[trigger] s[j])
    &&& lo < hi ==> !is_whitespace(s[lo]) && !is_whitespace(s[hi - 1])
}

/// `string` without leading and trailing white space.
pub fn str_trim(string: &str) -> (r: String)
    ensures
        exists|lo: int, hi: int| trimmed(string@, lo, hi) && r@ == string@.subrange(lo, hi),
{
    let s = to_chars(string);
    let mut lo: usize = 0;
    while lo < s.len() && is_whitespace_exec(s[lo])
        invariant
            lo <= s.len(),
            forall|j: int| 0 <= j < lo ==> is_whitespace(#[trigger] s@[j]),
        decreases s.len() - lo,
    {
        lo = lo + 1;
    }
    let mut hi: usize = s.len();
    while hi > lo && is_whitespace_exec(s[hi - 1])
        invariant
            lo <= hi <= s.len(),
            forall|j: int| hi <= j < s.len() ==> is_whitespace(#[trigger] s@[j]),
        decreases hi,
    {
        hi = hi - 1;
    }
    let mut v: Vec<char> = Vec::new();
    let mut k = lo;
    while k < hi
        invariant
            lo <= k <= hi,
            hi <= s.len(),
            v@ == s@.subrange(lo as int, k as int),
        decreases hi - k,
    {
        v.push(s[k]);
        assert(s@.subrange(lo as int, k + 1) =~= s@.subrange(lo as int, k as int).push(
            s@[k as int],
        ));
        k = k + 1;
    }
    assert(trimmed(string@, lo as int, hi as int));
    string_from_chars(&v)
}

/// The pieces of `s` between the occurrences of the non-empty `p`, as Rust's `str::split`
/// gives them: occurrences are found from the left and do not overlap.
#[verifier::opaque]
pub open spec fn split_nonempty(s: Seq<char>, p: Seq<char>) -> Seq<Seq<char>>
    decreases s.len(),
{
    if p.len() == 0 {
        seq![s]
    } else {
        match find_occurrence(s, p) {
            Some(i) => if 0 <= i && i + p.len() <= s.len() {
                seq![s.take(i)] + split_nonempty(s.skip(i + p.len()), p)
            } else {
                seq![s]
            },
            None => seq![s],
        }
    }
}

/// The first index at which `p` occurs in `s`, end of `s` included.
pub open spec fn find_occurrence(s: Seq<char>, p: Seq<char>) -> Option<int> {
    if exists|i: int| 0 <= i <= s.len() && occurs_at(s, p, i) {
        Some(
            choose|i: int|
                0 <= i <= s.len() && occurs_at(s, p, i) && forall|j: int|
                    0 <= j < i ==> !occurs_at(s, p, j),
        )
    } else {
        None
    }
}

/// The pieces that Rust's `str::split` gives: for an empty separator, an empty string, each
/// character, and an empty string.
pub open spec fn split_spec(s: Seq<char>, p: Seq<char>) -> Seq<Seq<char>> {
    if p.len() == 0 {
        seq![Seq::<char>::empty()] + Seq::new(s.len(), |i: int| seq![s[i]]) + seq![
            Seq::<char>::empty(),
        ]
    } else {
        split_nonempty(s, p)
    }
}


/// `s` without its leading white space.
pub open spec fn trim_start(s: Seq<char>) -> Seq<char>
    decreases s.len(),
{
    if s.len() > 0 && is_whitespace(s[0]) {
        trim_start(s.drop_first())
    } else {
        s
    }
}

/// `s` without its trailing white space.
pub open spec fn trim_end(s: Seq<char>) -> Seq<char>
    decreases s.len(),
{
    if s.len() > 0 && is_whitespace(s.last()) {
        trim_end(s.drop_last())
    } else {
        s
    }
}

/// `s` without leading and trailing white space, as Rust's `str::trim`.
pub open spec fn trim_spec(s: Seq<char>) -> Seq<char> {
    trim_end(trim_start(s))
}

/// `s` with every occurrence of `p` replaced by `r`, as Rust's `str::replace`: occurrences
/// of a non-empty `p` are found from the left and do not overlap; an empty `p` occurs before
/// every character and at the end.
#[verifier::opaque]
pub open spec fn replace_spec(s: Seq<char>, p: Seq<char>, r: Seq<char>) -> Seq<char>
    decreases s.len(),
{
    if p.len() == 0 {
        if s.len() == 0 {
            r
        } else {
            r + seq![s[0]] + replace_spec(s.drop_first(), p, r)
        }
    } else {
        match find_occurrence(s, p) {
            Some(i) => if 0 <= i && i + p.len() <= s.len() {
                s.take(i) + r + replace_spec(s.skip(i + p.len()), p, r)
            } else {
                s
            },
            None => s,
        }
    }
}

/// The first occurrence of `p` in `s` at or after `from`.
fn next_occurrence(s: &Vec<char>, p: &Vec<char>, from: usize) -> (r: Option<usize>)
    requires
        from <= s.len(),
    ensures
        match r {
            Some(i) => from <= i <= s.len() && occurs_at(s@, p@, i as int) && forall|j: int|
                from <= j < i ==> !occurs_at(s@, p@, j),
            None => forall|j: int| from <= j <= s.len() ==> !occurs_at(s@, p@, j),
        },
{
    let mut i = from;
    while i <= s.len()
        invariant
            from <= i <= s.len() + 1,
            forall|j: int| from <= j < i ==> !occurs_at(s@, p@, j),
        decreases s.len() + 1 - i,
    {
        if occurs_at_exec(s, p, i) {
            return Some(i);
        }
        if i == s.len() {
            return None;
        }
        i = i + 1;
    }
    None
}

proof fn lemma_find_occurrence_skip(s: Seq<char>, p: Seq<char>, from: int)
    requires
        0 <= from <= s.len(),
    ensures
        forall|i: int|
            #![trigger occurs_at(s.skip(from), p, i)]
            0 <= i <= s.len() - from ==> (occurs_at(s.skip(from), p, i) <==> occurs_at(
                s,
                p,
                from + i,
            )),
{
    assert forall|i: int| 0 <= i <= s.len() - from implies (occurs_at(s.skip(from), p, i)
        <==> occurs_at(s, p, from + i)) by {
        if i + p.len() <= s.len() - from {
            assert(s.skip(from).subrange(i, i + p.len()) =~= s.subrange(from + i, from + i
                + p.len()));
        }
    }
}

/// The first occurrence in `s.skip(from)` is the first one at or after `from`.
proof fn lemma_find_occurrence_from(s: Seq<char>, p: Seq<char>, from: int, r: Option<int>)
    requires
        0 <= from <= s.len(),
        match r {
            Some(i) => from <= i <= s.len() && occurs_at(s, p, i) && forall|j: int|
                from <= j < i ==> !occurs_at(s, p, j),
            None => forall|j: int| from <= j <= s.len() ==> !occurs_at(s, p, j),
        },
    ensures
        find_occurrence(s.skip(from), p) == match r {
            Some(i) => Some(i - from),
            None => None::<int>,
        },
{
    lemma_find_occurrence_skip(s, p, from);
    let t = s.skip(from);
    match r {
        Some(i) => {
            assert(occurs_at(t, p, i - from));
            let k = choose|k: int|
                0 <= k <= t.len() && occurs_at(t, p, k) && forall|j: int|
                    0 <= j < k ==> !occurs_at(t, p, j);
            if k < i - from {
                assert(occurs_at(s, p, from + k));
            } else if k > i - from {
                assert(!occurs_at(t, p, i - from));
            }
        },
        None => {
            if exists|k: int| 0 <= k <= t.len() && occurs_at(t, p, k) {
                let k = choose|k: int| 0 <= k <= t.len() && occurs_at(t, p, k);
                assert(occurs_at(s, p, from + k));
            }
        },
    }
}

fn push_all(v: &mut Vec<char>, w: &Vec<char>, lo: usize, hi: usize)
    requires
        lo <= hi <= w.len(),
    ensures
        final(v)@ == old(v)@ + w@.subrange(lo as int, hi as int),
{
    let mut k = lo;
    while k < hi
        invariant
            lo <= k <= hi,
            hi <= w.len(),
            v@ == old(v)@ + w@.subrange(lo as int, k as int),
        decreases hi - k,
    {
        v.push(w[k]);
        assert(old(v)@ + w@.subrange(lo as int, k + 1) =~= (old(v)@ + w@.subrange(
            lo as int,
            k as int,
        )).push(w@[k as int]));
        k = k + 1;
    }
}

/// `string` with every occurrence of `pattern` replaced by `replacement`.
#[verifier::rlimit(50)]
pub fn str_replace(string: &str, pattern: &str, replacement: &str) -> (r: String)
    ensures
        r@ == replace_spec(string@, pattern@, replacement@),
{
    let s = to_chars(string);
    let p = to_chars(pattern);
    let rep = to_chars(replacement);
    let mut out: Vec<char> = Vec::new();
    if p.len() == 0 {
        let mut i: usize = 0;
        assert(s@.skip(0) =~= s@);
        assert(out@ + replace_spec(s@, p@, rep@) =~= replace_spec(s@, p@, rep@));
        while i < s.len()
            invariant
                i <= s.len(),
                s@ == string@,
                p@ == pattern@,
                rep@ == replacement@,
                p@.len() == 0,
                out@ + replace_spec(s@.skip(i as int), p@, rep@) == replace_spec(s@, p@, rep@),
            decreases s.len() - i,
        {
            let ghost before = out@;
            push_all(&mut out, &rep, 0, rep.len());
            out.push(s[i]);
            proof {
                reveal(replace_spec);
                let t = s@.skip(i as int);
                assert(t[0] == s@[i as int]);
                assert(t.drop_first() =~= s@.skip(i + 1));
                assert(rep@.subrange(0, rep@.len() as int) =~= rep@);
                assert(out@ =~= before + rep@ + seq![s@[i as int]]);
                assert(before + (rep@ + seq![t[0]] + replace_spec(t.drop_first(), p@, rep@))
                    =~= out@ + replace_spec(s@.skip(i + 1), p@, rep@));
            }
            i = i + 1;
        }
        push_all(&mut out, &rep, 0, rep.len());
        proof {
            reveal(replace_spec);
            assert(rep@.subrange(0, rep@.len() as int) =~= rep@);
            assert(s@.skip(s@.len() as int) =~= Seq::<char>::empty());
        }
        return string_from_chars(&out);
    }
    let mut pos: usize = 0;
    assert(s@.skip(0) =~= s@);
    loop
        invariant
            pos <= s.len(),
            s@ == string@,
            p@ == pattern@,
            rep@ == replacement@,
            p@.len() > 0,
            out@ + replace_spec(s@.skip(pos as int), p@, rep@) == replace_spec(s@, p@, rep@),
        decreases s.len() - pos,
    {
        let found = next_occurrence(&s, &p, pos);
        proof {
            lemma_find_occurrence_from(
                s@,
                p@,
                pos as int,
                match found {
                    Some(i) => Some(i as int),
                    None => None,
                },
            );
        }
        match found {
            None => {
                push_all(&mut out, &s, pos, s.len());
                proof {
                    lemma_replace_none(s@, p@, rep@, pos as int);
                }
                return string_from_chars(&out);
            },
            Some(i) => {
                let ghost before = out@;
                push_all(&mut out, &s, pos, i);
                push_all(&mut out, &rep, 0, rep.len());
                proof {
                    lemma_replace_some(s@, p@, rep@, pos as int, i as int);
                    assert(rep@.subrange(0, rep@.len() as int) =~= rep@);
                    assert(out@ == before + s@.subrange(pos as int, i as int) + rep@);
                    assert(before + (s@.subrange(pos as int, i as int) + rep@ + replace_spec(
                        s@.skip(i + p@.len()),
                        p@,
                        rep@,
                    )) =~= out@ + replace_spec(s@.skip(i + p@.len()), p@, rep@));
                }
                pos = i + p.len();
            },
        }
    }
}

proof fn lemma_replace_none(s: Seq<char>, p: Seq<char>, r: Seq<char>, pos: int)
    requires
        0 <= pos <= s.len(),
        p.len() > 0,
        find_occurrence(s.skip(pos), p) is None,
    ensures
        replace_spec(s.skip(pos), p, r) == s.subrange(pos, s.len() as int),
{
    reveal(replace_spec);
    assert(s.skip(pos) =~= s.subrange(pos, s.len() as int));
}

proof fn lemma_replace_some(s: Seq<char>, p: Seq<char>, r: Seq<char>, pos: int, i: int)
    requires
        0 <= pos <= i,
        i + p.len() <= s.len(),
        p.len() > 0,
        find_occurrence(s.skip(pos), p) == Some(i - pos),
    ensures
        replace_spec(s.skip(pos), p, r) == s.subrange(pos, i) + r + replace_spec(
            s.skip(i + p.len()),
            p,
            r,
        ),
{
    reveal(replace_spec);
    let t = s.skip(pos);
    assert(t.take(i - pos) =~= s.subrange(pos, i));
    assert(t.skip(i - pos + p.len()) =~= s.skip(i + p.len()));
}

/// `string` without leading and trailing white space.
pub fn str_trim_spec(string: &str) -> (r: String)
    ensures
        r@ == trim_spec(string@),
{
    let s = to_chars(string);
    let mut lo: usize = 0;
    assert(s@.skip(0) =~= s@);
    while lo < s.len() && is_whitespace_exec(s[lo])
        invariant
            lo <= s.len(),
            s@ == string@,
            trim_start(s@) == trim_start(s@.skip(lo as int)),
        decreases s.len() - lo,
    {
        assert(s@.skip(lo as int).drop_first() =~= s@.skip(lo + 1));
        lo = lo + 1;
    }
    let ghost mid = s@.skip(lo as int);
    assert(trim_start(s@) == mid);
    let mut hi: usize = s.len();
    assert(mid.take(mid.len() as int) =~= mid);
    while hi > lo && is_whitespace_exec(s[hi - 1])
        invariant
            lo <= hi <= s.len(),
            s@ == string@,
            mid == s@.skip(lo as int),
            trim_end(mid) == trim_end(mid.take(hi - lo)),
        decreases hi,
    {
        assert(mid.take(hi - lo).drop_last() =~= mid.take(hi - 1 - lo));
        hi = hi - 1;
    }
    let mut out: Vec<char> = Vec::new();
    push_all(&mut out, &s, lo, hi);
    assert(mid.take(hi - lo) =~= s@.subrange(lo as int, hi as int));
    string_from_chars(&out)
}


proof fn lemma_split_none(s: Seq<char>, p: Seq<char>, pos: int)
    requires
        0 <= pos <= s.len(),
        p.len() > 0,
        find_occurrence(s.skip(pos), p) is None,
    ensures
        split_nonempty(s.skip(pos), p) == seq![s.subrange(pos, s.len() as int)],
{
    reveal(split_nonempty);
    assert(s.skip(pos) =~= s.subrange(pos, s.len() as int));
}

proof fn lemma_split_some(s: Seq<char>, p: Seq<char>, pos: int, i: int)
    requires
        0 <= pos <= i,
        i + p.len() <= s.len(),
        p.len() > 0,
        find_occurrence(s.skip(pos), p) == Some(i - pos),
    ensures
        split_nonempty(s.skip(pos), p) == seq![s.subrange(pos, i)] + split_nonempty(
            s.skip(i + p.len()),
            p,
        ),
{
    reveal(split_nonempty);
    let t = s.skip(pos);
    assert(t.take(i - pos) =~= s.subrange(pos, i));
    assert(t.skip(i - pos + p.len()) =~= s.skip(i + p.len()));
}

fn string_of_range(s: &Vec<char>, lo: usize, hi: usize) -> (r: String)
    requires
        lo <= hi <= s.len(),
    ensures
        r@ == s@.subrange(lo as int, hi as int),
{
    let mut v: Vec<char> = Vec::new();
    push_all(&mut v, s, lo, hi);
    assert(v@ =~= s@.subrange(lo as int, hi as int));
    string_from_chars(&v)
}

/// Each string of `qs` as a string value.
pub open spec fn str_vals(qs: Seq<Seq<char>>) -> Seq<Val> {
    qs.map_values(|q: Seq<char>| Val::Str(q))
}

/// The pieces of `string` between the occurrences of `pattern`, as string values.
#[verifier::rlimit(50)]
pub fn split_values(string: &str, pattern: &str) -> (r: Vec<Value>)
    ensures
        views(r@) == str_vals(split_spec(string@, pattern@)),
{
    let s = to_chars(string);
    let p = to_chars(pattern);
    let mut out: Vec<Value> = Vec::new();
    let ghost target = str_vals(split_spec(string@, pattern@));
    if p.len() == 0 {
        out.push(Value::String(String::new()));
        let mut i: usize = 0;
        while i < s.len()
            invariant
                i <= s.len(),
                s@ == string@,
                out@.len() == i + 1,
                out@[0]@ == Val::Str(Seq::<char>::empty()),
                forall|k: int| 1 <= k <= i ==> #[trigger] out@[k]@ == Val::Str(seq![s@[k - 1]]),
            decreases s.len() - i,
        {
            out.push(Value::String(char_to_string(s[i])));
            i = i + 1;
        }
        out.push(Value::String(String::new()));
        proof {
            lemma_views(out@);
            let sp = split_spec(string@, pattern@);
            assert(sp.len() == s@.len() + 2);
            assert forall|k: int| 0 <= k < out@.len() implies #[trigger] views(out@)[k]
                == target[k] by {
                if k == 0 {
                } else if k <= s@.len() {
                    assert(sp[k] == seq![s@[k - 1]]);
                } else {
                    assert(sp[k] == Seq::<char>::empty());
                }
            }
            assert(views(out@) =~= target);
        }
        return out;
    }
    let ghost pieces: Seq<Seq<char>> = Seq::empty();
    let mut pos: usize = 0;
    assert(s@.skip(0) =~= s@);
    assert(pieces + split_nonempty(s@.skip(0), p@) =~= split_nonempty(s@, p@));
    loop
        invariant
            pos <= s.len(),
            s@ == string@,
            p@ == pattern@,
            p@.len() > 0,
            target == str_vals(split_spec(string@, pattern@)),
            out@.len() == pieces.len(),
            forall|k: int| 0 <= k < pieces.len() ==> #[trigger] out@[k]@ == Val::Str(pieces[k]),
            pieces + split_nonempty(s@.skip(pos as int), p@) == split_nonempty(s@, p@),
        decreases s.len() - pos,
    {
        let found = next_occurrence(&s, &p, pos);
        proof {
            lemma_find_occurrence_from(
                s@,
                p@,
                pos as int,
                match found {
                    Some(i) => Some(i as int),
                    None => None,
                },
            );
        }
        match found {
            None => {
                let piece = string_of_range(&s, pos, s.len());
                let ghost old_out = out@;
                out.push(Value::String(piece));
                proof {
                    lemma_split_none(s@, p@, pos as int);
                    let all = pieces.push(s@.subrange(pos as int, s@.len() as int));
                    assert(all =~= pieces + seq![s@.subrange(pos as int, s@.len() as int)]);
                    lemma_views(out@);
                    assert(split_spec(string@, pattern@) == all);
                    assert(target == str_vals(all));
                    assert(target.len() == out@.len());
                    assert forall|k: int| 0 <= k < out@.len() implies #[trigger] views(out@)[k]
                        == target[k] by {
                        if k < pieces.len() {
                            assert(out@[k] == old_out[k]);
                            assert(all[k] == pieces[k]);
                        } else {
                            assert(all[k] == s@.subrange(pos as int, s@.len() as int));
                        }
                    }
                    assert(views(out@) =~= target);
                }
                return out;
            },
            Some(i) => {
                let piece = string_of_range(&s, pos, i);
                out.push(Value::String(piece));
                proof {
                    lemma_split_some(s@, p@, pos as int, i as int);
                    let np = pieces.push(s@.subrange(pos as int, i as int));
                    assert(np + split_nonempty(s@.skip(i + p@.len()), p@) =~= pieces + (seq![
                        s@.subrange(pos as int, i as int),
                    ] + split_nonempty(s@.skip(i + p@.len()), p@)));
                    pieces = np;
                }
                pos = i + p.len();
            },
        }
    }
}

} // verus!

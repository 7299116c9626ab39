use vstd::prelude::*;

verus! {

/// Whether the `regex` crate accepts `pattern` (what `regex::Regex::new` decides).
pub uninterp spec fn regex_valid(pattern: Seq<char>) -> bool;

/// Whether the regex `pattern` matches somewhere in `text` (what `regex::Regex::is_match`
/// answers).
pub uninterp spec fn regex_is_match(pattern: Seq<char>, text: Seq<char>) -> bool;

/// The leftmost-first match of the regex `pattern` in `text`, as `regex::Regex::find` gives
/// it: the byte offsets of its start and end in `text`, and the matched text.
pub uninterp spec fn regex_first_match(pattern: Seq<char>, text: Seq<char>) -> Option<
    (nat, nat, Seq<char>),
>;

/// The text of the error `regex::Regex::new` gives for a pattern it does not accept (its
/// `Display`).
pub uninterp spec fn regex_error_text(pattern: Seq<char>) -> Seq<char>;

/// Compiles `pattern` with `regex::Regex::new` and asks `regex::Regex::is_match` whether it
/// matches in `text`.  The contract claims that compilation succeeds exactly for the patterns
/// the crate accepts, and names the answer and the error's text.
#[verifier::external_body]
pub(crate) fn regex_match_in(pattern: &str, text: &str) -> (r: Result<bool, String>)
    ensures
        r is Ok <==> regex_valid(pattern@),
        r matches Ok(b) ==> b == regex_is_match(pattern@, text@),
        r matches Err(m) ==> m@ == regex_error_text(pattern@),
{
    match regex::Regex::new(pattern) {
        Ok(re) => Ok(re.is_match(text)),
        Err(e) => Err(e.to_string()),
    }
}

/// Compiles `pattern` with `regex::Regex::new` and asks `regex::Regex::find` for the first
/// match in `text`, giving its start and end byte offsets and its text.  The contract claims
/// that compilation succeeds exactly for the patterns the crate accepts, names the match, and
/// states that the offsets are ordered; it names the error's text.
#[verifier::external_body]
pub(crate) fn regex_find_in(pattern: &str, text: &str) -> (r: Result<
    Option<(usize, usize, String)>,
    String,
>)
    ensures
        r is Ok <==> regex_valid(pattern@),
        r matches Ok(m) ==> match m {
            Some((a, b, t)) => regex_first_match(pattern@, text@) == Some(
                (a as nat, b as nat, t@),
            ) && a <= b,
            None => regex_first_match(pattern@, text@) is None,
        },
        r matches Err(m) ==> m@ == regex_error_text(pattern@),
{
    match regex::Regex::new(pattern) {
        Ok(re) => Ok(re.find(text).map(|m| (m.start(), m.end(), m.as_str().to_string()))),
        Err(e) => Err(e.to_string()),
    }
}

} // verus!

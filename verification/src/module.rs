use vstd::prelude::*;

use crate::string_utils::{concat_str, to_chars};
use crate::strings::{find_last, str_rfind, str_starts_with};

verus! {

/// The path of the source file of module `name`.
pub fn module_name_to_file_path(name: &str) -> (r: String)
    ensures
        r@ == name@ + ".dang"@,
{
    concat_str(name, ".dang")
}

/// The name of a module, such as `Std/Enum`.
#[derive(Debug, Clone, PartialEq, Eq)]
pub struct ModuleName(pub String);

/// The last `/`-separated component of `s`.
pub open spec fn last_component(s: Seq<char>) -> Seq<char> {
    match find_last(s, "/"@) {
        Some(i) => s.skip(i + 1),
        None => s,
    }
}

impl ModuleName {
    pub fn new(name: &str) -> (r: Self)
        ensures
            r.0@ == name@,
    {
        ModuleName(name.to_owned())
    }

    /// The name is empty.
    pub fn is_unspecified(&self) -> (r: bool)
        ensures
            r == (self.0@.len() == 0),
    {
        to_chars(self.0.as_str()).len() == 0
    }

    /// The module belongs to the standard library.
    pub fn is_std(&self) -> (r: bool)
        ensures
            r == (3 <= self.0@.len() && self.0@.take(3) == "Std"@),
    {
        proof {
            reveal_strlit("Std");
        }
        str_starts_with(self.0.as_str(), "Std")
    }

    pub fn as_str(&self) -> (r: &str)
        ensures
            r@ == self.0@,
    {
        self.0.as_str()
    }

    /// The last component of the name: `Enum` for `Std/Enum`.
    pub fn short_name(&self) -> (r: String)
        ensures
            r@ == last_component(self.0@),
    {
        proof {
            reveal_strlit("/");
        }
        match str_rfind(self.0.as_str(), "/") {
            Some(i) => {
                let chars = to_chars(self.0.as_str());
                assert("/"@.len() == 1);
                let n = chars.len();
                assert(i + 1 <= n);

                let mut out: Vec<char> = Vec::new();
                let mut k = i + 1;
                while k < chars.len()
                    invariant
                        i + 1 <= k <= chars@.len(),
                        chars@ == self.0@,
                        out@ == chars@.subrange(i + 1, k as int),
                    decreases chars.len() - k,
                {
                    out.push(chars[k]);
                    assert(chars@.subrange(i + 1, k + 1) =~= chars@.subrange(i + 1, k as int).push(
                        chars@[k as int],
                    ));
                    k = k + 1;
                }
                assert(chars@.subrange(i + 1, chars@.len() as int) =~= chars@.skip(i + 1));
                crate::string_utils::string_from_chars(&out)
            },
            None => self.0.clone(),
        }
    }
}

} // verus!

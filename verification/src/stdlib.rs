use vstd::prelude::*;

use crate::order::{compare_str, lemma_order_chars, Order};

verus! {

/// The contents of the standard-library file at `path`, among the embedded `files` (path and
/// contents); the first file with that path.
pub fn load_stdlib_file<'a>(files: &'a Vec<(String, String)>, path: &str) -> (r: Option<&'a String>)
    ensures
        match r {
            Some(c) => exists|i: int|
                0 <= i < files@.len() && (#[trigger] files@[i]).0@ == path@ && files@[i].1 == *c
                    && forall|j: int| 0 <= j < i ==> (#[trigger] files@[j]).0@ != path@,
            None => forall|i: int| 0 <= i < files@.len() ==> (#[trigger] files@[i]).0@ != path@,
        },
{
    let mut i: usize = 0;
    while i < files.len()
        invariant
            i <= files@.len(),
            forall|j: int| 0 <= j < i ==> (#[trigger] files@[j]).0@ != path@,
        decreases files.len() - i,
    {
        proof {
            lemma_order_chars(files@[i as int].0@, path@);
        }
        if compare_str(files[i].0.as_str(), path) == Order::Equal {
            return Some(&files[i].1);
        }
        i = i + 1;
    }
    None
}

} // verus!

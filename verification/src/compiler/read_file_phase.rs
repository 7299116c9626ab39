use vstd::prelude::*;

use crate::exception::Exception;
use crate::module::module_name_to_file_path;
use crate::stdlib::load_stdlib_file;
use crate::strings::str_starts_with;
use crate::string_utils::concat_str;

use super::Input;

verus! {

/// Where a module's source text comes from.
#[derive(Debug)]
pub enum SourceText {
    /// The text itself.
    Found(String),
    /// The file at this path, relative to one of the module search paths: the first search
    /// path under which it can be read.
    InSearchPaths(String),
}

/// The error for a module whose source cannot be found.
pub open spec fn missing_module_message(name: Seq<char>) -> Seq<char> {
    "unable to find module: "@ + name
}

/// A module of the standard library: its name begins with `Std`.
pub open spec fn is_std_name(name: Seq<char>) -> bool {
    3 <= name.len() && name.take(3) == "Std"@
}

/// Finds the source text of the module to compile: the text given, a file of the standard
/// library (among `stdlib`, by path and contents), or else a file to read from the module
/// search paths (`<name>.dang`).  A standard-library module without a file is an error.
pub fn read_file_phase(input: &Input, stdlib: &Vec<(String, String)>) -> (r: Result<
    SourceText,
    Exception,
>)
    ensures
        match *input {
            Input::SourceCode { text, .. } => r matches Ok(SourceText::Found(t)) && t@ == text@,
            Input::ModuleName(name) => {
                let path = name@ + ".dang"@;
                if is_std_name(name@) {
                    if exists|i: int| 0 <= i < stdlib@.len() && (#[trigger] stdlib@[i]).0@ == path {
                        r matches Ok(SourceText::Found(t)) && exists|i: int|
                            0 <= i < stdlib@.len() && (#[trigger] stdlib@[i]).0@ == path
                                && stdlib@[i].1@ == t@ && forall|j: int|
                                0 <= j < i ==> (#[trigger] stdlib@[j]).0@ != path
                    } else {
                        r matches Err(e) && e.message@ == missing_module_message(name@)
                    }
                } else {
                    r matches Ok(SourceText::InSearchPaths(p)) && p@ == path
                }
            },
        },
{
    match input {
        Input::SourceCode { text, name: _ } => Ok(SourceText::Found(text.clone())),
        Input::ModuleName(name) => {
            let path = module_name_to_file_path(name.as_str());
            proof {
                reveal_strlit("Std");
            }
            if str_starts_with(name.as_str(), "Std") {
                match load_stdlib_file(stdlib, path.as_str()) {
                    Some(contents) => Ok(SourceText::Found(contents.clone())),
                    None => Err(missing_module(name.as_str())),
                }
            } else {
                Ok(SourceText::InSearchPaths(path))
            }
        },
    }
}

/// The error for a module whose source cannot be found.
pub fn missing_module(name: &str) -> (r: Exception)
    ensures
        r.message@ == missing_module_message(name@),
        r.source is None,
{
    proof {
        reveal_strlit("unable to find module: ");
    }
    Exception::new(concat_str("unable to find module: ", name))
}

} // verus!

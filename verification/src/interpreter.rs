use vstd::prelude::*;

use crate::ast::Source;
use crate::numbers::digits;

verus! {

/// An error raised by the tree-walking interpreter.
#[derive(Debug, Clone)]
pub struct Exception {
    pub source: Option<Source>,
    pub message: String,
}

impl Exception {
    /// An exception with the given message and no source location.
    pub fn new(message: String) -> (r: Exception)
        ensures
            r.source is None,
            r.message@ == message@,
    {
        Exception { source: None, message }
    }

    /// How the exception is shown: where it was raised (file, line and column), then its
    /// message.
    pub fn describe(&self) -> (r: String)
        ensures
            r@ == match self.source {
                Some(s) => "exception at "@ + s.file@ + ":"@ + digits(s.line as nat) + ":"@
                    + digits(s.col as nat) + ": "@ + self.message@,
                None => "exception: "@ + self.message@,
            },
    {
        let source = match &self.source {
            Some(s) => Some(s.copy()),
            None => None,
        };
        let e = crate::exception::Exception { source, message: self.message.clone(), shown: None };
        e.describe()
    }
}

} // verus!

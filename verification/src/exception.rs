use vstd::prelude::*;

use crate::ast::{Node, Source};
use crate::numbers::{digits, usize_to_string};
use crate::string_utils::concat_str;
use crate::value::{Val, Value};

verus! {

/// An error raised while compiling or running a program.
#[derive(Debug, Clone)]
pub struct Exception {
    pub source: Option<Source>,
    pub message: String,
    /// A value that the message ends with, to be laid out as a document after it (the layout
    /// is the terminal's business).
    pub shown: Option<Value>,
}

/// The model of the value an exception shows.
pub open spec fn shown_view(shown: Option<Value>) -> Option<Val> {
    match shown {
        Some(v) => Some(v@),
        None => None,
    }
}

impl Exception {
    /// An exception with the given message and no source location.
    pub fn new(message: String) -> (r: Exception)
        ensures
            r.source is None,
            r.message@ == message@,
            r.shown is None,
    {
        Exception { source: None, message, shown: None }
    }

    /// An exception whose message ends with the value `v`, with no source location.
    pub fn showing(message: &str, v: Value) -> (r: Exception)
        ensures
            r.source is None,
            r.message@ == message@,
            shown_view(r.shown) == Some(v@),
    {
        Exception { source: None, message: message.to_owned(), shown: Some(v) }
    }

    /// An exception with the given message, raised at `source`.
    pub fn at_source(source: &Source, message: &str) -> (r: Exception)
        ensures
            r.source matches Some(s) && s.file@ == source.file@ && s.line == source.line
                && s.col == source.col,
            r.message@ == message@,
            r.shown is None,
    {
        Exception { source: Some(source.copy()), message: message.to_owned(), shown: None }
    }

    /// An exception with the given message, raised at `node`.
    pub fn at_node(node: &Node, message: &str) -> (r: Exception)
        ensures
            r.source matches Some(s) && s.file@ == node.source.file@ && s.line == node.source.line
                && s.col == node.source.col,
            r.message@ == message@,
            r.shown is None,
    {
        Self::at_source(&node.source, message)
    }

    /// Records `node`'s location as the place where the exception was raised.
    pub fn set_source_from_node(&mut self, node: &Node)
        ensures
            final(self).source matches Some(s) && s.file@ == node.source.file@ && s.line
                == node.source.line && s.col == node.source.col,
            final(self).message@ == old(self).message@,
            final(self).shown == old(self).shown,
    {
        self.set_source(&node.source);
    }

    /// Records `source` as the place where the exception was raised.
    pub fn set_source(&mut self, source: &Source)
        ensures
            final(self).source matches Some(s) && s.file@ == source.file@ && s.line == source.line
                && s.col == source.col,
            final(self).message@ == old(self).message@,
            final(self).shown == old(self).shown,
    {
        self.source = Some(source.copy());
    }
}

/// How an exception is shown: where it was raised (file, line and column), then its message.
pub open spec fn exception_text(e: Exception) -> Seq<char> {
    match e.source {
        Some(s) => "exception at "@ + s.file@ + ":"@ + digits(s.line as nat) + ":"@ + digits(
            s.col as nat,
        ) + ": "@ + e.message@,
        None => "exception: "@ + e.message@,
    }
}

impl Exception {
    /// How the exception is shown: where it was raised (file, line and column), then its
    /// message.
    pub fn describe(&self) -> (r: String)
        ensures
            r@ == exception_text(*self),
    {
        proof {
            reveal_strlit("exception at ");
            reveal_strlit(":");
            reveal_strlit(": ");
            reveal_strlit("exception: ");
        }
        match &self.source {
            Some(s) => {
                let a = concat_str("exception at ", s.file.as_str());
                let b = concat_str(a.as_str(), ":");
                let line = usize_to_string(s.line);
                let c = concat_str(b.as_str(), line.as_str());
                let d = concat_str(c.as_str(), ":");
                let col = usize_to_string(s.col);
                let e = concat_str(d.as_str(), col.as_str());
                let f = concat_str(e.as_str(), ": ");
                concat_str(f.as_str(), self.message.as_str())
            },
            None => concat_str("exception: ", self.message.as_str()),
        }
    }
}

/// An exception with the given message, built from a string literal.
pub fn raise<T>(message: &str) -> (r: Result<T, Exception>)
    ensures
        r matches Err(e) && e.message@ == message@ && e.source is None && e.shown is None,
{
    Err(Exception::new(message.to_owned()))
}

} // verus!

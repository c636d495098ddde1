//! The command and query interfaces.

use vstd::prelude::*;
use crate::edit::error::CommandError;
use crate::types::document::{Document, DocumentView};

verus! {

/// An edit of a document that can be undone. A command remembers what it
/// needs to undo itself when it runs.
///
/// The four spec functions say what a command's runs do; a command that does
/// not define them promises nothing beyond its results' type.
pub trait Command {
    /// What `execute` does, judged from the command before it runs: with the
    /// document valued `before`, it may leave the document valued
    /// `doc_after` and return `r`.
    open spec fn executes(&self, before: DocumentView, doc_after: DocumentView, r: Result<(), CommandError>) -> bool {
        true
    }

    /// What the command holds after `execute` ran on the document valued
    /// `before`, left it valued `doc_after` and returned `r`.
    open spec fn executed(&self, before: DocumentView, doc_after: DocumentView, r: Result<(), CommandError>) -> bool {
        true
    }

    /// What `undo` does, judged from the command before it runs.
    open spec fn undoes(&self, before: DocumentView, doc_after: DocumentView, r: Result<(), CommandError>) -> bool {
        true
    }

    /// What the command holds after `undo` ran.
    open spec fn undone(&self, before: DocumentView, doc_after: DocumentView, r: Result<(), CommandError>) -> bool {
        true
    }

    /// Applies the edit. An edit that fails leaves the command as it was.
    fn execute(&mut self, doc: &mut Document) -> (r: Result<(), CommandError>)
        ensures
            old(self).executes(old(doc)@, final(doc)@, r),
            final(self).executed(old(doc)@, final(doc)@, r),
            r is Err ==> &*final(self) == &*old(self),
    ;

    /// Reverts the edit made by `execute`. An undo that fails leaves the
    /// command as it was.
    fn undo(&mut self, doc: &mut Document) -> (r: Result<(), CommandError>)
        ensures
            old(self).undoes(old(doc)@, final(doc)@, r),
            final(self).undone(old(doc)@, final(doc)@, r),
            r is Err ==> &*final(self) == &*old(self),
    ;

    /// The name of the command.
    fn name(&self) -> &'static str;
}

/// A read-only operation that builds something from a document.
pub trait Query {
    type Output;

    /// Builds the output.
    fn execute(&self, doc: &Document) -> Result<Self::Output, CommandError>;
}

} // verus!

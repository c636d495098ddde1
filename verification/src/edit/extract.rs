//! Extracting a range of pages into a new document.

use vstd::prelude::*;
use crate::edit::error::{
    CommandError, failed_with, msg_no_pages, msg_one_based, msg_out_of_bounds, msg_start_after_end, out_of_bounds,
    start_after_end,
};
use crate::edit::reindex_pages;
use crate::edit::reindexed;
use crate::edit::traits::Query;
use crate::parser::error::text;
use crate::types::document::{Document, DocumentMetadata, Page, clone_metadata, clone_page, opt_metadata, pages_view};

verus! {

/// Builds a new document from pages `start..=end` of a document, with the
/// source's metadata; its pages are renumbered from 0.
#[derive(Debug)]
pub struct ExtractPagesCommand {
    start: usize,
    end: usize,
}

impl ExtractPagesCommand {
    #[verifier::type_invariant]
    closed spec fn ordered(&self) -> bool {
        self.start <= self.end
    }

    /// The first page taken, from 0.
    pub closed spec fn spec_start(&self) -> usize {
        self.start
    }

    /// The last page taken, from 0.
    pub closed spec fn spec_end(&self) -> usize {
        self.end
    }

    /// A command for pages `start_page..=end_page`, numbered from 1. Fails
    /// when a number is 0 or `start_page > end_page`.
    pub fn new(start_page: usize, end_page: usize) -> (r: Result<ExtractPagesCommand, CommandError>)
        ensures
            match r {
                Ok(c) => 0 < start_page <= end_page && c.spec_start() == start_page - 1 && c.spec_end() == end_page - 1,
                Err(e) => if start_page == 0 || end_page == 0 {
                    failed_with(e, msg_one_based())
                } else {
                    start_page > end_page && failed_with(e, msg_start_after_end(start_page as nat, end_page as nat))
                },
            },
    {
        if start_page == 0 || end_page == 0 {
            return Err(CommandError::ExecutionFailed(text("page numbers are 1-based, got 0")));
        }
        if start_page > end_page {
            return Err(CommandError::ExecutionFailed(start_after_end(start_page as u64, end_page as u64)));
        }
        Ok(ExtractPagesCommand { start: start_page - 1, end: end_page - 1 })
    }
}

/// Copies of `pages[start..=end]`, renumbered from 0.
pub fn copy_pages(pages: &Vec<Page>, start: usize, end: usize) -> (r: Vec<Page>)
    requires
        start <= end < pages.len(),
    ensures
        pages_view(r@) == reindexed(pages_view(pages@).subrange(start as int, end + 1)),
{
    let mut out: Vec<Page> = Vec::new();
    let mut i = start;
    while i <= end
        invariant
            start <= i <= end + 1,
            end < pages.len(),
            pages_view(out@) == pages_view(pages@).subrange(start as int, i as int),
        decreases end + 1 - i,
    {
        let p = clone_page(&pages[i]);
        let ghost before = pages_view(out@);
        out.push(p);
        assert(pages_view(pages@)[i as int] == p@);
        assert(pages_view(out@) =~= before.push(p@));
        assert(pages_view(out@) =~= pages_view(pages@).subrange(start as int, i + 1));
        i += 1;
    }
    reindex_pages(&mut out);
    out
}

/// A copy of optional metadata.
pub fn clone_opt_metadata(m: &Option<DocumentMetadata>) -> (r: Option<DocumentMetadata>)
    ensures
        opt_metadata(r) == opt_metadata(*m),
{
    match m {
        Some(m) => Some(clone_metadata(m)),
        None => None,
    }
}

impl Query for ExtractPagesCommand {
    type Output = Document;

    /// The new document. Fails when the document has no page or the range
    /// ends past its last page.
    fn execute(&self, doc: &Document) -> (r: Result<Document, CommandError>)
        ensures
            match r {
                Ok(d) => 0 < doc.pages@.len() && self.spec_end() < doc.pages@.len() && d@ == (
                    reindexed(pages_view(doc.pages@).subrange(self.spec_start() as int, self.spec_end() + 1)),
                    doc@.1,
                ),
                Err(e) => if doc.pages@.len() == 0 {
                    failed_with(e, msg_no_pages())
                } else {
                    self.spec_end() >= doc.pages@.len() && failed_with(e, msg_out_of_bounds(self.spec_end() as nat))
                },
            },
    {
        proof {
            use_type_invariant(self);
        }
        if doc.pages.len() == 0 {
            return Err(CommandError::ExecutionFailed(text("document has no pages")));
        }
        if self.end >= doc.pages.len() {
            return Err(CommandError::ExecutionFailed(out_of_bounds(self.end as u64)));
        }
        let pages = copy_pages(&doc.pages, self.start, self.end);
        let metadata = clone_opt_metadata(&doc.metadata);
        Ok(Document { pages, metadata })
    }
}

} // verus!

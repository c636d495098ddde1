//! Appending the pages of other documents.

use vstd::prelude::*;
use crate::edit::error::{CommandError, failed_with, msg_undo_before_execute, undo_failed_with};
use crate::edit::reindex_pages;
use crate::edit::reindexed;
use crate::edit::traits::Command;
use crate::parser::error::text;
use crate::types::document::{Document, DocumentView, PageView, clone_page, pages_view};

verus! {

/// The pages of the documents, one after another.
pub open spec fn all_pages(docs: Seq<Document>) -> Seq<PageView>
    decreases docs.len(),
{
    if docs.len() == 0 {
        Seq::empty()
    } else {
        all_pages(docs.drop_last()) + pages_view(docs.last().pages@)
    }
}

/// Appends copies of the pages of `sources`, in order, to a document; undo
/// cuts the document back to its length before.
pub struct MergeCommand {
    sources: Vec<Document>,
    snapshot: Option<usize>,
}

impl MergeCommand {
    /// The documents whose pages are appended.
    pub closed spec fn spec_sources(&self) -> Seq<Document> {
        self.sources@
    }

    /// The page count before the last execution.
    pub closed spec fn spec_snapshot(&self) -> Option<usize> {
        self.snapshot
    }

    /// A command that appends the pages of `sources`.
    pub fn new(sources: Vec<Document>) -> (r: MergeCommand)
        ensures
            r.spec_sources() == sources@,
            r.spec_snapshot() is None,
    {
        MergeCommand { sources, snapshot: None }
    }
}

impl Command for MergeCommand {
    /// Appending the pages and renumbering all pages (with no source,
    /// nothing changes). Fails, changing nothing, when the command has
    /// already run.
    open spec fn executes(&self, before: DocumentView, doc_after: DocumentView, r: Result<(), CommandError>) -> bool {
        let ps = before.0;
        if self.spec_snapshot() is None {
            &&& r is Ok
            &&& doc_after == (
                if self.spec_sources().len() == 0 { ps } else { reindexed(ps + all_pages(self.spec_sources())) },
                before.1,
            )
        } else {
            &&& r matches Err(e) && failed_with(e, "MergeCommand already executed"@)
            &&& doc_after == before
        }
    }

    /// After a merge, the command remembers the page count before it.
    open spec fn executed(&self, before: DocumentView, doc_after: DocumentView, r: Result<(), CommandError>) -> bool {
        r is Ok ==> self.spec_snapshot() == Some(before.0.len() as usize)
    }

    /// Cutting the document back to the page count it had before
    /// `execute`, and renumbering the pages. Fails, changing nothing, when
    /// the command has not run (or was undone already).
    open spec fn undoes(&self, before: DocumentView, doc_after: DocumentView, r: Result<(), CommandError>) -> bool {
        let ps = before.0;
        match self.spec_snapshot() {
            Some(n) => r is Ok && doc_after == (reindexed(if n < ps.len() { ps.take(n as int) } else { ps }), before.1),
            None => {
                &&& r matches Err(e) && undo_failed_with(e, msg_undo_before_execute())
                &&& doc_after == before
            },
        }
    }

    /// After an undo, the command remembers nothing and can run again.
    open spec fn undone(&self, before: DocumentView, doc_after: DocumentView, r: Result<(), CommandError>) -> bool {
        self.spec_snapshot() is None
    }

    fn name(&self) -> (r: &'static str)
        ensures
            r@ == "MergeCommand"@,
    {
        proof {
            reveal_strlit("MergeCommand");
        }
        "MergeCommand"
    }

    /// Appends the pages and renumbers all pages (with no source, nothing
    /// changes). Fails, changing nothing, when the command has already run.
    fn execute(&mut self, doc: &mut Document) -> (r: Result<(), CommandError>)
        ensures
            final(self).spec_sources() == old(self).spec_sources(),
    {
        if self.snapshot.is_some() {
            return Err(CommandError::ExecutionFailed(text("MergeCommand already executed")));
        }
        let original_len = doc.pages.len();
        if self.sources.len() == 0 {
            self.snapshot = Some(original_len);
            return Ok(());
        }
        let ghost p0 = pages_view(doc.pages@);
        let mut k: usize = 0;
        assert(all_pages(self.sources@.take(0)) =~= Seq::<PageView>::empty());
        assert(p0 + Seq::<PageView>::empty() =~= p0);
        while k < self.sources.len()
            invariant
                k <= self.sources@.len(),
                pages_view(doc.pages@) == p0 + all_pages(self.sources@.take(k as int)),
                doc.metadata == old(doc).metadata,
                p0 == pages_view(old(doc).pages@),
            decreases self.sources@.len() - k,
        {
            let src = &self.sources[k];
            let mut j: usize = 0;
            let ghost base = pages_view(doc.pages@);
            while j < src.pages.len()
                invariant
                    j <= src.pages@.len(),
                    doc.metadata == old(doc).metadata,
                    pages_view(doc.pages@) == base + pages_view(src.pages@).take(j as int),
                decreases src.pages@.len() - j,
            {
                let p = clone_page(&src.pages[j]);
                let ghost before = pages_view(doc.pages@);
                doc.pages.push(p);
                assert(pages_view(doc.pages@) =~= before.push(p@));
                assert(pages_view(src.pages@).take(j + 1) =~= pages_view(src.pages@).take(j as int).push(src.pages@[j as int]@));
                j += 1;
            }
            proof {
                assert(pages_view(src.pages@).take(src.pages@.len() as int) =~= pages_view(src.pages@));
                assert(self.sources@.take(k + 1).drop_last() =~= self.sources@.take(k as int));
                assert(all_pages(self.sources@.take(k + 1)) == all_pages(self.sources@.take(k as int)) + pages_view(src.pages@));
                assert(p0 + all_pages(self.sources@.take(k + 1)) =~= base + pages_view(src.pages@));
            }
            k += 1;
        }
        assert(self.sources@.take(self.sources@.len() as int) =~= self.sources@);
        reindex_pages(&mut doc.pages);
        self.snapshot = Some(original_len);
        Ok(())
    }

    /// Cuts the document back to the page count it had before `execute`,
    /// and renumbers the pages. Fails when the command has not run (or was
    /// undone already).
    fn undo(&mut self, doc: &mut Document) -> (r: Result<(), CommandError>)
        ensures
            final(self).spec_sources() == old(self).spec_sources(),
    {
        let original_len = match self.snapshot {
            Some(n) => n,
            None => {
                return Err(CommandError::UndoFailed(text("undo called before execute")));
            },
        };
        self.snapshot = None;
        let ghost before = doc.pages@;
        doc.pages.truncate(original_len);
        assert(pages_view(doc.pages@) =~= (if original_len < before.len() { pages_view(before).take(original_len as int) } else { pages_view(before) }));
        reindex_pages(&mut doc.pages);
        Ok(())
    }
}

/// Undoing a merge gives back the pages as they were, renumbered: the
/// pages that were there come first, unchanged.
pub proof fn lemma_merge_undo_restores(pages: Seq<PageView>, added: Seq<PageView>)
    ensures
        reindexed(reindexed(pages + added).take(pages.len() as int)) == reindexed(pages),
        well_indexed_implies_reindexed_id(pages),
{
    assert(reindexed(reindexed(pages + added).take(pages.len() as int)) =~= reindexed(pages));
    lemma_reindex_identity(pages);
}

/// Renumbering pages that are numbered by position changes nothing.
pub proof fn lemma_reindex_identity(pages: Seq<PageView>)
    ensures
        well_indexed_implies_reindexed_id(pages),
{
    if crate::edit::well_indexed(pages) {
        assert forall|i: int| 0 <= i < pages.len() implies #[trigger] reindexed(pages)[i] == pages[i] by {
            assert(pages[i].0 == i);
        }
        assert(reindexed(pages) =~= pages);
    }
}

/// Renumbering pages that are numbered by position changes nothing.
pub open spec fn well_indexed_implies_reindexed_id(pages: Seq<PageView>) -> bool {
    crate::edit::well_indexed(pages) ==> reindexed(pages) == pages
}

} // verus!

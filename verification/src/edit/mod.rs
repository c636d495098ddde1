//! Page-editing commands: delete, rotate and merge pages with undo and
//! redo, and extract or split pages into new documents.

pub mod delete;
pub mod error;
pub mod extract;
pub mod merge;
pub mod rotate;
pub mod split;
pub mod stack;
pub mod traits;


pub use delete::DeletePagesCommand;
pub use error::CommandError;
pub use extract::ExtractPagesCommand;
pub use merge::MergeCommand;
pub use rotate::RotatePageCommand;
pub use split::SplitCommand;
pub use stack::CommandStack;





pub use traits::{Command, Query};

use vstd::prelude::*;
use crate::types::document::{Page, PageView, pages_view};

verus! {

/// The pages renumbered in order from 0.
pub open spec fn reindexed(ps: Seq<PageView>) -> Seq<PageView> {
    Seq::new(ps.len(), |i: int| (i as usize, ps[i].1, ps[i].2, ps[i].3, ps[i].4, ps[i].5))
}

/// Whether every page's index is its position.
pub open spec fn well_indexed(ps: Seq<PageView>) -> bool {
    forall|i: int| 0 <= i < ps.len() ==> #[trigger] ps[i].0 == i
}

/// Renumbers the pages in order from 0.
pub fn reindex_pages(pages: &mut Vec<Page>)
    ensures
        pages_view(final(pages)@) == reindexed(pages_view(old(pages)@)),
{
    let ghost orig = pages_view(pages@);
    let mut i: usize = 0;
    while i < pages.len()
        invariant
            i <= pages@.len(),
            orig.len() == pages@.len(),
            forall|j: int| 0 <= j < i ==> #[trigger] pages_view(pages@)[j] == reindexed(orig)[j],
            forall|j: int| i <= j < pages@.len() ==> #[trigger] pages_view(pages@)[j] == orig[j],
        decreases pages@.len() - i,
    {
        let ghost before = pages@;
        pages[i].index = i;
        proof {
            let b = before[i as int];
            assert(pages_view(before)[i as int] == orig[i as int]);
            assert(orig[i as int] == b@);
            assert(pages@ == before.update(
                i as int,
                Page {
                    index: i,
                    content: b.content,
                    resources: b.resources,
                    media_box: b.media_box,
                    crop_box: b.crop_box,
                    rotation: b.rotation,
                },
            ));
            assert(pages_view(pages@)[i as int] == reindexed(orig)[i as int]);
            assert forall|j: int| 0 <= j < pages@.len() && j != i implies #[trigger] pages_view(pages@)[j] == pages_view(before)[j] by {
                assert(pages@[j] == before[j]);
            }
        }
        i += 1;
    }
    assert(pages_view(pages@) =~= reindexed(orig));
}

} // verus!

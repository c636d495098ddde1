//! Rotating one page.

use vstd::prelude::*;
use crate::edit::error::{
    CommandError, failed_with, msg_not_right_angle, msg_out_of_bounds_during_undo, msg_out_of_bounds_of,
    msg_undo_before_execute, not_right_angle, out_of_bounds_during_undo, out_of_bounds_of, undo_failed_with,
};
use crate::edit::traits::Command;
use crate::types::document::{Document, DocumentView, Page, PageView, pages_view};
use crate::parser::error::text;

verus! {

/// A page with another rotation.
pub open spec fn with_rotation(p: PageView, r: i32) -> PageView {
    (p.0, p.1, p.2, p.3, p.4, r)
}

/// `cur` turned by `deg` degrees, normalised into `0..360`.
pub open spec fn rotated(cur: i32, deg: i32) -> i32 {
    ((cur + deg) % 360) as i32
}

/// `(cur + deg) mod 360`, in `0..360`.
fn rotation_after(cur: i32, deg: i32) -> (r: i32)
    ensures
        r == rotated(cur, deg),
{
    let sum: i64 = cur as i64 + deg as i64;
    let m: i64 = sum % 360;
    let r: i64 = if m < 0 { m + 360 } else { m };
    assert(r == (cur + deg) % 360);
    r as i32
}

/// Sets the rotation of page `i`.
pub fn set_rotation(pages: &mut Vec<Page>, i: usize, r: i32)
    requires
        i < old(pages)@.len(),
    ensures
        pages_view(final(pages)@) == pages_view(old(pages)@).update(i as int, with_rotation(old(pages)@[i as int]@, r)),
{
    let ghost before = pages@;
    pages[i].rotation = r;
    proof {
        let b = before[i as int];
        assert(pages@ == before.update(
            i as int,
            Page {
                index: b.index,
                content: b.content,
                resources: b.resources,
                media_box: b.media_box,
                crop_box: b.crop_box,
                rotation: r,
            },
        ));
        assert(pages_view(pages@) =~= pages_view(before).update(i as int, with_rotation(before[i as int]@, r)));
    }
}

/// Turns one page by a multiple of 90 degrees; undo restores the rotation
/// the page had.
pub struct RotatePageCommand {
    page_index: usize,
    degrees: i32,
    prev_rotation: Option<i32>,
}

impl RotatePageCommand {
    /// The page it turns.
    pub closed spec fn spec_page_index(&self) -> usize {
        self.page_index
    }

    /// By how many degrees.
    pub closed spec fn spec_degrees(&self) -> i32 {
        self.degrees
    }

    /// The rotation the page had before the last execution.
    pub closed spec fn spec_prev_rotation(&self) -> Option<i32> {
        self.prev_rotation
    }

    /// A command that turns page `page_index` (from 0) by `degrees`.
    pub fn new(page_index: usize, degrees: i32) -> (r: RotatePageCommand)
        ensures
            r.spec_page_index() == page_index,
            r.spec_degrees() == degrees,
            r.spec_prev_rotation() is None,
    {
        RotatePageCommand { page_index, degrees, prev_rotation: None }
    }
}

impl Command for RotatePageCommand {
    /// Turning the page: its rotation becomes `(rotation + degrees) mod
    /// 360`. Fails, changing nothing, when the page does not exist or the
    /// degrees are not a multiple of 90.
    open spec fn executes(&self, before: DocumentView, doc_after: DocumentView, r: Result<(), CommandError>) -> bool {
        let i = self.spec_page_index() as int;
        let ps = before.0;
        if i < ps.len() && self.spec_degrees() % 90 == 0 {
            r is Ok && doc_after == (ps.update(i, with_rotation(ps[i], rotated(ps[i].5, self.spec_degrees()))), before.1)
        } else {
            &&& r matches Err(e) && if i >= ps.len() {
                failed_with(e, msg_out_of_bounds_of(i as nat, ps.len()))
            } else {
                failed_with(e, msg_not_right_angle(self.spec_degrees() as int))
            }
            &&& doc_after == before
        }
    }

    /// After turning its page, the command remembers the rotation the page
    /// had.
    open spec fn executed(&self, before: DocumentView, doc_after: DocumentView, r: Result<(), CommandError>) -> bool {
        r is Ok ==> self.spec_page_index() < before.0.len() && self.spec_prev_rotation() == Some(
            before.0[self.spec_page_index() as int].5,
        )
    }

    /// Giving the page back the rotation it had before `execute`. Fails,
    /// changing nothing, when the page does not exist or the command has not
    /// run.
    open spec fn undoes(&self, before: DocumentView, doc_after: DocumentView, r: Result<(), CommandError>) -> bool {
        let i = self.spec_page_index() as int;
        let ps = before.0;
        if i < ps.len() && self.spec_prev_rotation() is Some {
            r is Ok && doc_after == (ps.update(i, with_rotation(ps[i], self.spec_prev_rotation()->0)), before.1)
        } else {
            &&& r matches Err(e) && if i >= ps.len() {
                undo_failed_with(e, msg_out_of_bounds_during_undo(i as nat))
            } else {
                undo_failed_with(e, msg_undo_before_execute())
            }
            &&& doc_after == before
        }
    }

    /// After an undo, the command still remembers the rotation, so that it
    /// can run again.
    open spec fn undone(&self, before: DocumentView, doc_after: DocumentView, r: Result<(), CommandError>) -> bool {
        r is Ok ==> self.spec_prev_rotation() is Some
    }

    fn name(&self) -> (r: &'static str)
        ensures
            r@ == "RotatePageCommand"@,
    {
        proof {
            reveal_strlit("RotatePageCommand");
        }
        "RotatePageCommand"
    }

    fn execute(&mut self, doc: &mut Document) -> (r: Result<(), CommandError>)
        ensures
            final(self).spec_page_index() == old(self).spec_page_index(),
            final(self).spec_degrees() == old(self).spec_degrees(),
    {
        if self.page_index >= doc.pages.len() {
            return Err(CommandError::ExecutionFailed(out_of_bounds_of(self.page_index, doc.pages.len())));
        }
        if self.degrees % 90 != 0 {
            return Err(CommandError::ExecutionFailed(not_right_angle(self.degrees)));
        }
        let cur = doc.pages[self.page_index].rotation;
        self.prev_rotation = Some(cur);
        set_rotation(&mut doc.pages, self.page_index, rotation_after(cur, self.degrees));
        Ok(())
    }

    fn undo(&mut self, doc: &mut Document) -> (r: Result<(), CommandError>)
        ensures
            *final(self) == *old(self),
    {
        if self.page_index >= doc.pages.len() {
            return Err(CommandError::UndoFailed(out_of_bounds_during_undo(self.page_index)));
        }
        let prev = match self.prev_rotation {
            Some(p) => p,
            None => {
                return Err(CommandError::UndoFailed(text("undo called before execute")));
            },
        };
        set_rotation(&mut doc.pages, self.page_index, prev);
        Ok(())
    }
}

/// Undoing a rotation gives every page back its view: the page's rotation
/// is set back to what it was, and nothing else changed.
pub proof fn lemma_rotate_undo_restores(pages: Seq<PageView>, i: int, deg: i32)
    requires
        0 <= i < pages.len(),
    ensures
        pages.update(i, with_rotation(pages[i], rotated(pages[i].5, deg))).update(
            i,
            with_rotation(pages.update(i, with_rotation(pages[i], rotated(pages[i].5, deg)))[i], pages[i].5),
        ) == pages,
{
    assert(pages.update(i, with_rotation(pages[i], rotated(pages[i].5, deg))).update(
        i,
        with_rotation(pages.update(i, with_rotation(pages[i], rotated(pages[i].5, deg)))[i], pages[i].5),
    ) =~= pages);
}

/// A rotation always lands in `0..360`.
pub proof fn lemma_rotation_normalised(cur: i32, deg: i32)
    ensures
        0 <= rotated(cur, deg) < 360,
{
}

} // verus!

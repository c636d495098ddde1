//! Deleting pages.

use vstd::prelude::*;
use crate::edit::error::{
    CommandError, failed_with, msg_out_of_bounds_of, msg_undo_before_execute, out_of_bounds_of, undo_failed_with,
};
use crate::edit::reindex_pages;
use crate::edit::{reindexed, well_indexed};
use crate::edit::merge::lemma_reindex_identity;
use crate::edit::traits::Command;
use crate::parser::error::text;
use crate::types::document::{Document, DocumentView, Page, PageView, clone_page, pages_view};

verus! {

/// The elements of `ps` whose positions are not listed in `idx`.
pub open spec fn remove_positions(ps: Seq<PageView>, idx: Seq<usize>) -> Seq<PageView>
    decreases ps.len(),
{
    if ps.len() == 0 {
        Seq::empty()
    } else {
        let r = remove_positions(ps.drop_last(), idx);
        if idx.contains((ps.len() - 1) as usize) { r } else { r.push(ps.last()) }
    }
}

/// The elements of `ps` whose positions are listed in `idx`, each with its
/// position, in increasing order of position.
pub open spec fn removed_entries(ps: Seq<PageView>, idx: Seq<usize>) -> Seq<(usize, PageView)>
    decreases ps.len(),
{
    if ps.len() == 0 {
        Seq::empty()
    } else {
        let r = removed_entries(ps.drop_last(), idx);
        if idx.contains((ps.len() - 1) as usize) { r.push(((ps.len() - 1) as usize, ps.last())) } else { r }
    }
}

/// `ps` with each entry of `snap`, in order, inserted at its position.
pub open spec fn restore(ps: Seq<PageView>, snap: Seq<(usize, PageView)>) -> Seq<PageView>
    decreases snap.len(),
{
    if snap.len() == 0 {
        ps
    } else {
        restore(ps, snap.drop_last()).insert(snap.last().0 as int, snap.last().1)
    }
}

/// Each entry of `snap` can be inserted in turn into `n` elements: its
/// position is at most the length at that point.
pub open spec fn fits(n: int, snap: Seq<(usize, PageView)>) -> bool {
    forall|j: int| 0 <= j < snap.len() ==> #[trigger] snap[j].0 <= n + j
}

/// The value of a snapshot.
pub open spec fn snapshot_view(s: Seq<(usize, Page)>) -> Seq<(usize, PageView)> {
    Seq::new(s.len(), |i: int| (s[i].0, s[i].1@))
}

/// Deletes pages; undo puts them back where they were.
pub struct DeletePagesCommand {
    indices: Vec<usize>,
    snapshot: Option<Vec<(usize, Page)>>,
}

impl DeletePagesCommand {
    /// The positions to delete, from 0.
    pub closed spec fn spec_indices(&self) -> Seq<usize> {
        self.indices@
    }

    /// The deleted pages with their positions, once executed.
    pub closed spec fn spec_snapshot(&self) -> Option<Seq<(usize, PageView)>> {
        match self.snapshot {
            Some(s) => Some(snapshot_view(s@)),
            None => None,
        }
    }

    /// A command that deletes the pages at `indices` (from 0; repeats count once).
    pub fn new(indices: Vec<usize>) -> (r: DeletePagesCommand)
        ensures
            r.spec_indices() == indices@,
            r.spec_snapshot() is None,
    {
        DeletePagesCommand { indices, snapshot: None }
    }
}

/// Whether `v` holds `x`.
fn contains_index(v: &Vec<usize>, x: usize) -> (r: bool)
    ensures
        r == v@.contains(x),
{
    let mut i: usize = 0;
    while i < v.len()
        invariant
            i <= v@.len(),
            forall|j: int| 0 <= j < i ==> v@[j] != x,
        decreases v@.len() - i,
    {
        if v[i] == x {
            return true;
        }
        i += 1;
    }
    false
}

impl Command for DeletePagesCommand {
    /// Deleting the listed pages and renumbering the rest (with no index,
    /// nothing changes). Fails, changing nothing, when the command has
    /// already run or an index is past the last page; the error names the
    /// smallest such index.
    open spec fn executes(&self, before: DocumentView, doc_after: DocumentView, r: Result<(), CommandError>) -> bool {
        let ps = before.0;
        let idx = self.spec_indices();
        if self.spec_snapshot() is None && forall|j: int| 0 <= j < idx.len() ==> #[trigger] idx[j] < ps.len() {
            r is Ok && doc_after == (if idx.len() == 0 { ps } else { reindexed(remove_positions(ps, idx)) }, before.1)
        } else {
            &&& doc_after == before
            &&& r matches Err(e) && if self.spec_snapshot() is Some {
                failed_with(e, "DeletePagesCommand already executed"@)
            } else {
                exists|j: int| {
                    &&& 0 <= j < idx.len()
                    &&& #[trigger] idx[j] >= ps.len()
                    &&& forall|t: int| 0 <= t < idx.len() && idx[t] >= ps.len() ==> idx[t] >= idx[j]
                    &&& failed_with(e, msg_out_of_bounds_of(idx[j] as nat, ps.len()))
                }
            }
        }
    }

    /// After a deletion, the command remembers the deleted pages with their
    /// positions.
    open spec fn executed(&self, before: DocumentView, doc_after: DocumentView, r: Result<(), CommandError>) -> bool {
        r is Ok ==> self.spec_snapshot() == Some(removed_entries(before.0, self.spec_indices()))
    }

    /// Putting the deleted pages back at their positions, in increasing
    /// order of position, and renumbering all pages. Fails, changing
    /// nothing, when the command has not run or a position no longer fits
    /// the document.
    open spec fn undoes(&self, before: DocumentView, doc_after: DocumentView, r: Result<(), CommandError>) -> bool {
        let ps = before.0;
        match self.spec_snapshot() {
            Some(snap) => if fits(ps.len() as int, snap) {
                r is Ok && doc_after == (reindexed(restore(ps, snap)), before.1)
            } else {
                &&& r matches Err(e) && undo_failed_with(e, "a deleted page no longer fits the document"@)
                &&& doc_after == before
            },
            None => {
                &&& r matches Err(e) && undo_failed_with(e, msg_undo_before_execute())
                &&& doc_after == before
            },
        }
    }

    /// After an undo, the command remembers nothing and can run again.
    open spec fn undone(&self, before: DocumentView, doc_after: DocumentView, r: Result<(), CommandError>) -> bool {
        r is Ok ==> self.spec_snapshot() is None
    }

    fn name(&self) -> (r: &'static str)
        ensures
            r@ == "DeletePagesCommand"@,
    {
        proof {
            reveal_strlit("DeletePagesCommand");
        }
        "DeletePagesCommand"
    }

    /// Deletes the listed pages and renumbers the rest. With no index,
    /// nothing changes. Fails, changing nothing, when the command has
    /// already run or an index is past the last page.
    fn execute(&mut self, doc: &mut Document) -> (r: Result<(), CommandError>)
        ensures
            final(self).spec_indices() == old(self).spec_indices(),
    {
        if self.snapshot.is_some() {
            return Err(CommandError::ExecutionFailed(text("DeletePagesCommand already executed")));
        }
        let ghost ps = pages_view(doc.pages@);
        if self.indices.len() == 0 {
            let empty: Vec<(usize, Page)> = Vec::new();
            self.snapshot = Some(empty);
            proof {
                lemma_nothing_removed(ps, self.indices@);
                assert(snapshot_view(empty@) =~= Seq::<(usize, PageView)>::empty());
            }
            return Ok(());
        }
        let len = doc.pages.len();
        let mut k: usize = 0;
        let mut worst: Option<usize> = None;
        let mut at: usize = 0;
        while k < self.indices.len()
            invariant
                k <= self.indices@.len(),
                len == doc.pages@.len(),
                *doc == *old(doc),
                *self == *old(self),
                worst is None ==> forall|j: int| 0 <= j < k ==> #[trigger] self.indices@[j] < len,
                worst matches Some(m) ==> {
                    &&& at < k
                    &&& self.indices@[at as int] == m
                    &&& m >= len
                    &&& forall|j: int| 0 <= j < k && #[trigger] self.indices@[j] >= len ==> self.indices@[j] >= m
                },
            decreases self.indices@.len() - k,
        {
            let i = self.indices[k];
            if i >= len {
                match worst {
                    Some(m) => {
                        if i < m {
                            worst = Some(i);
                            at = k;
                        }
                    },
                    None => {
                        worst = Some(i);
                        at = k;
                    },
                }
            }
            k += 1;
        }
        if let Some(m) = worst {
            let e = CommandError::ExecutionFailed(out_of_bounds_of(m, len));
            proof {
                let idx = old(self).spec_indices();
                assert(idx[at as int] >= len);
            }
            return Err(e);
        }
        let mut kept: Vec<Page> = Vec::new();
        let mut removed: Vec<(usize, Page)> = Vec::new();
        let mut i: usize = 0;
        assert(ps.take(0) =~= Seq::<PageView>::empty());
        while i < len
            invariant
                i <= len,
                len == doc.pages@.len(),
                ps == pages_view(doc.pages@),
                *doc == *old(doc),
                *self == *old(self),
                ps == pages_view(old(doc).pages@),
                forall|j: int| 0 <= j < self.indices@.len() ==> #[trigger] self.indices@[j] < len,
                pages_view(kept@) == remove_positions(ps.take(i as int), self.indices@),
                snapshot_view(removed@) == removed_entries(ps.take(i as int), self.indices@),
            decreases len - i,
        {
            let p = clone_page(&doc.pages[i]);
            proof {
                assert(ps.take(i + 1).drop_last() =~= ps.take(i as int));
                assert(ps.take(i + 1).last() == ps[i as int]);
            }
            if contains_index(&self.indices, i) {
                let ghost before = removed@;
                removed.push((i, p));
                assert(snapshot_view(removed@) =~= snapshot_view(before).push((i, p@)));
            } else {
                let ghost before = kept@;
                kept.push(p);
                assert(pages_view(kept@) =~= pages_view(before).push(p@));
            }
            i += 1;
        }
        assert(ps.take(len as int) =~= ps);
        doc.pages = kept;
        reindex_pages(&mut doc.pages);
        self.snapshot = Some(removed);
        Ok(())
    }

    /// Puts the deleted pages back at their positions, in increasing order
    /// of position, and renumbers all pages. Fails, changing nothing, when
    /// the command has not run or a position no longer fits the document.
    fn undo(&mut self, doc: &mut Document) -> (r: Result<(), CommandError>)
        ensures
            final(self).spec_indices() == old(self).spec_indices(),
    {
        let snap = match &self.snapshot {
            Some(s) => s,
            None => {
                return Err(CommandError::UndoFailed(text("undo called before execute")));
            },
        };
        let ghost sv = snapshot_view(snap@);
        let n = doc.pages.len();
        let mut j: usize = 0;
        while j < snap.len()
            invariant
                j <= snap@.len(),
                n == doc.pages@.len(),
                sv == snapshot_view(snap@),
                *doc == *old(doc),
                old(self).spec_snapshot() == Some(sv),
                forall|t: int| 0 <= t < j ==> #[trigger] sv[t].0 <= n + t,
            decreases snap@.len() - j,
        {
            if snap[j].0 > n && snap[j].0 - n > j {
                assert(!(sv[j as int].0 <= n + j));
                return Err(CommandError::UndoFailed(text("a deleted page no longer fits the document")));
            }
            j += 1;
        }
        let ghost p0 = pages_view(doc.pages@);
        assert(fits(n as int, sv));
        let mut t: usize = 0;
        assert(sv.take(0) =~= Seq::<(usize, PageView)>::empty());
        while t < snap.len()
            invariant
                t <= snap@.len(),
                sv == snapshot_view(snap@),
                fits(n as int, sv),
                old(self).spec_snapshot() == Some(sv),
                doc.metadata == old(doc).metadata,
                p0 == pages_view(old(doc).pages@),
                p0.len() == n,
                pages_view(doc.pages@) == restore(p0, sv.take(t as int)),
                doc.pages@.len() == n + t,
            decreases snap@.len() - t,
        {
            let pos = snap[t].0;
            let p = clone_page(&snap[t].1);
            let ghost before = doc.pages@;
            assert(sv[t as int].0 <= n + t);
            doc.pages.insert(pos, p);
            proof {
                assert(sv.take(t + 1).drop_last() =~= sv.take(t as int));
                assert(sv.take(t + 1).last() == sv[t as int]);
                assert(pages_view(doc.pages@) =~= pages_view(before).insert(pos as int, p@));
            }
            t += 1;
        }
        assert(sv.take(snap@.len() as int) =~= sv);
        self.snapshot = None;
        reindex_pages(&mut doc.pages);
        Ok(())
    }
}

/// With no index listed, nothing is removed.
pub proof fn lemma_nothing_removed(ps: Seq<PageView>, idx: Seq<usize>)
    requires
        idx.len() == 0,
    ensures
        remove_positions(ps, idx) == ps,
        removed_entries(ps, idx) == Seq::<(usize, PageView)>::empty(),
    decreases ps.len(),
{
    if ps.len() > 0 {
        lemma_nothing_removed(ps.drop_last(), idx);
        assert(ps.drop_last().push(ps.last()) =~= ps);
    }
}

/// The kept and the removed pages together are all the pages.
pub proof fn lemma_partition_len(ps: Seq<PageView>, idx: Seq<usize>)
    ensures
        ps.len() == remove_positions(ps, idx).len() + removed_entries(ps, idx).len(),
    decreases ps.len(),
{
    if ps.len() > 0 {
        lemma_partition_len(ps.drop_last(), idx);
    }
}

/// The removed pages fit back into the kept ones.
pub proof fn lemma_removed_fit(ps: Seq<PageView>, idx: Seq<usize>)
    ensures
        fits(remove_positions(ps, idx).len() as int, removed_entries(ps, idx)),
    decreases ps.len(),
{
    if ps.len() > 0 {
        let q = ps.drop_last();
        lemma_removed_fit(q, idx);
        lemma_partition_len(q, idx);
        let r = remove_positions(q, idx);
        let e = removed_entries(q, idx);
        if idx.contains((ps.len() - 1) as usize) {
            let e2 = e.push(((ps.len() - 1) as usize, ps.last()));
            assert forall|j: int| 0 <= j < e2.len() implies #[trigger] e2[j].0 <= r.len() + j by {
                if j < e.len() {
                    assert(e2[j] == e[j]);
                }
            }
        } else {
            assert forall|j: int| 0 <= j < e.len() implies #[trigger] e[j].0 <= r.len() + 1 + j by {
                assert(e[j].0 <= r.len() + j);
            }
        }
    }
}

/// Restoring adds one page per entry.
pub proof fn lemma_restore_len(ps: Seq<PageView>, snap: Seq<(usize, PageView)>)
    requires
        fits(ps.len() as int, snap),
    ensures
        restore(ps, snap).len() == ps.len() + snap.len(),
    decreases snap.len(),
{
    if snap.len() > 0 {
        let s2 = snap.drop_last();
        assert forall|j: int| 0 <= j < s2.len() implies #[trigger] s2[j].0 <= ps.len() + j by {
            assert(s2[j] == snap[j]);
        }
        lemma_restore_len(ps, s2);
        assert(snap[snap.len() - 1].0 <= ps.len() + snap.len() - 1);
    }
}

/// Restoring into pages with one more at the end puts that page at the end.
pub proof fn lemma_restore_push(k: Seq<PageView>, x: PageView, snap: Seq<(usize, PageView)>)
    requires
        fits(k.len() as int, snap),
    ensures
        restore(k.push(x), snap) == restore(k, snap).push(x),
    decreases snap.len(),
{
    if snap.len() > 0 {
        let s2 = snap.drop_last();
        assert forall|j: int| 0 <= j < s2.len() implies #[trigger] s2[j].0 <= k.len() + j by {
            assert(s2[j] == snap[j]);
        }
        lemma_restore_push(k, x, s2);
        lemma_restore_len(k, s2);
        let a = restore(k, s2);
        let (p, v) = snap.last();
        assert(snap[snap.len() - 1].0 <= k.len() + snap.len() - 1);
        assert(p <= a.len());
        assert(a.push(x).insert(p as int, v) =~= a.insert(p as int, v).push(x));
    }
}

/// Putting the removed pages back at their positions gives the pages.
pub proof fn lemma_restore_removed(ps: Seq<PageView>, idx: Seq<usize>)
    requires
        ps.len() <= usize::MAX + 1,
    ensures
        restore(remove_positions(ps, idx), removed_entries(ps, idx)) == ps,
    decreases ps.len(),
{
    if ps.len() > 0 {
        let q = ps.drop_last();
        lemma_restore_removed(q, idx);
        let r = remove_positions(q, idx);
        let e = removed_entries(q, idx);
        if idx.contains((ps.len() - 1) as usize) {
            let e2 = e.push(((ps.len() - 1) as usize, ps.last()));
            assert(e2.drop_last() =~= e);
            assert(q.insert(q.len() as int, ps.last()) =~= ps);
        } else {
            lemma_removed_fit(q, idx);
            lemma_restore_push(r, ps.last(), e);
            assert(q.push(ps.last()) =~= ps);
        }
    } else {
        assert(ps =~= Seq::<PageView>::empty());
    }
}

/// Two page lists that differ at most in their page numbers.
pub open spec fn same_but_index(a: Seq<PageView>, b: Seq<PageView>) -> bool {
    a.len() == b.len() && forall|i: int| 0 <= i < a.len() ==> (#[trigger] a[i]).1 == b[i].1 && a[i].2 == b[i].2
        && a[i].3 == b[i].3 && a[i].4 == b[i].4 && a[i].5 == b[i].5
}

/// Restoring the same entries keeps two lists equal but for page numbers.
pub proof fn lemma_restore_same(a: Seq<PageView>, b: Seq<PageView>, snap: Seq<(usize, PageView)>)
    requires
        same_but_index(a, b),
        fits(a.len() as int, snap),
    ensures
        same_but_index(restore(a, snap), restore(b, snap)),
    decreases snap.len(),
{
    if snap.len() > 0 {
        let s2 = snap.drop_last();
        assert forall|j: int| 0 <= j < s2.len() implies #[trigger] s2[j].0 <= a.len() + j by {
            assert(s2[j] == snap[j]);
        }
        lemma_restore_same(a, b, s2);
        lemma_restore_len(a, s2);
        let ra = restore(a, s2);
        let rb = restore(b, s2);
        let (p, v) = snap.last();
        assert(snap[snap.len() - 1].0 <= a.len() + snap.len() - 1);
        let xa = ra.insert(p as int, v);
        let xb = rb.insert(p as int, v);
        assert forall|i: int| 0 <= i < xa.len() implies (#[trigger] xa[i]).1 == xb[i].1 && xa[i].2 == xb[i].2
            && xa[i].3 == xb[i].3 && xa[i].4 == xb[i].4 && xa[i].5 == xb[i].5 by {
            if i < p {
                assert(xa[i] == ra[i] && xb[i] == rb[i]);
            } else if i > p {
                assert(xa[i] == ra[i - 1] && xb[i] == rb[i - 1]);
            }
        }
    }
}

/// Renumbering ignores page numbers.
pub proof fn lemma_reindexed_same(a: Seq<PageView>, b: Seq<PageView>)
    requires
        same_but_index(a, b),
    ensures
        reindexed(a) == reindexed(b),
{
    assert forall|i: int| 0 <= i < a.len() implies #[trigger] reindexed(a)[i] == reindexed(b)[i] by {
        assert(a[i].1 == b[i].1);
    }
    assert(reindexed(a) =~= reindexed(b));
}

/// Deleting pages and then undoing the deletion gives back the pages of a
/// document whose pages are numbered by position: the removed pages fit
/// back, and every page returns to its place with its number.
pub proof fn lemma_delete_undo_restores(ps: Seq<PageView>, idx: Seq<usize>)
    requires
        well_indexed(ps),
    ensures
        ({
            let kept = if idx.len() == 0 { ps } else { reindexed(remove_positions(ps, idx)) };
            &&& fits(kept.len() as int, removed_entries(ps, idx))
            &&& reindexed(restore(kept, removed_entries(ps, idx))) == ps
        }),
{
    lemma_reindex_identity(ps);
    if ps.len() > 0 {
        assert(ps[ps.len() - 1].0 == ps.len() - 1);
    }
    if idx.len() == 0 {
        lemma_nothing_removed(ps, idx);
        assert(restore(ps, Seq::<(usize, PageView)>::empty()) == ps);
    } else {
        let r = remove_positions(ps, idx);
        let e = removed_entries(ps, idx);
        lemma_removed_fit(ps, idx);
        assert(same_but_index(reindexed(r), r));
        lemma_restore_same(reindexed(r), r, e);
        lemma_reindexed_same(restore(reindexed(r), e), restore(r, e));
        lemma_restore_removed(ps, idx);
    }
}

} // verus!

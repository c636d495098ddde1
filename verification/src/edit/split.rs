//! Splitting a document into several by page ranges.

use vstd::prelude::*;
use crate::edit::error::{
    CommandError, bad_range_spec, failed_with, msg_bad_range_spec, msg_no_pages, msg_one_based, msg_out_of_bounds,
    msg_start_after_end, out_of_bounds, start_after_end,
};
use crate::edit::extract::{clone_opt_metadata, copy_pages};
use crate::edit::reindexed;
use crate::edit::traits::Query;
use crate::parser::error::text;
use crate::text::{
    find_char, first_index, lemma_first_index, parse_u64, spec_parse_u64, split_chars, split_on,
    str_chars, trim, trim_chars,
};
use crate::types::document::{Document, pages_view};

verus! {

/// A range of pages, from 0, both ends included.
#[derive(Debug)]
struct PageRange {
    start: u64,
    end: u64,
}

/// A range token `n` or `n-m` (1-based, `n <= m`, neither 0): the range
/// from 0, both ends included; else the message of the error.
pub open spec fn spec_range_token(t: Seq<char>) -> Result<(u64, u64), Seq<char>> {
    if t.contains('-') {
        let k = first_index(t, '-');
        match (spec_parse_u64(t.take(k)), spec_parse_u64(t.skip(k + 1))) {
            (Some(n), Some(m)) => if n == 0 || m == 0 {
                Err(msg_one_based())
            } else if n > m {
                Err(msg_start_after_end(n as nat, m as nat))
            } else {
                Ok(((n - 1) as u64, (m - 1) as u64))
            },
            _ => Err(msg_bad_range_spec(t)),
        }
    } else {
        match spec_parse_u64(t) {
            Some(n) => if n == 0 {
                Err(msg_one_based())
            } else {
                Ok(((n - 1) as u64, (n - 1) as u64))
            },
            None => Err(msg_bad_range_spec(t)),
        }
    }
}

/// The ranges of a comma-separated spec, each token trimmed, from the
/// `i`-th token on; the message of the first invalid token, if any.
pub open spec fn spec_range_list(tokens: Seq<Seq<char>>, i: int) -> Result<Seq<(u64, u64)>, Seq<char>>
    decreases tokens.len() - i,
{
    if i < 0 || i >= tokens.len() {
        Ok(Seq::empty())
    } else {
        match spec_range_token(trim(tokens[i])) {
            Err(m) => Err(m),
            Ok(r) => match spec_range_list(tokens, i + 1) {
                Ok(rest) => Ok(seq![r] + rest),
                Err(m) => Err(m),
            },
        }
    }
}

/// Reads one range token.
fn parse_range_token(token: &[char]) -> (r: Result<PageRange, CommandError>)
    ensures
        match r {
            Ok(pr) => spec_range_token(token@) == Ok::<(u64, u64), Seq<char>>((pr.start, pr.end)) && pr.start <= pr.end,
            Err(e) => spec_range_token(token@) matches Err(m) && failed_with(e, m),
        },
{
    match find_char(token, '-') {
        Some(k) => {
            proof {
                lemma_first_index(token@, '-', k as int);
                assert(token@.contains('-'));
            }
            let left = vstd::slice::slice_subrange(token, 0, k);
            let right = vstd::slice::slice_subrange(token, k + 1, token.len());
            assert(left@ =~= token@.take(k as int));
            assert(right@ =~= token@.skip(k + 1));
            let n = match parse_u64(left) {
                Some(n) => n,
                None => {
                    return Err(CommandError::ExecutionFailed(bad_range_spec(token)));
                },
            };
            let m = match parse_u64(right) {
                Some(m) => m,
                None => {
                    return Err(CommandError::ExecutionFailed(bad_range_spec(token)));
                },
            };
            if n == 0 || m == 0 {
                return Err(CommandError::ExecutionFailed(text("page numbers are 1-based, got 0")));
            }
            if n > m {
                return Err(CommandError::ExecutionFailed(start_after_end(n, m)));
            }
            Ok(PageRange { start: n - 1, end: m - 1 })
        },
        None => {
            assert(!token@.contains('-'));
            let n = match parse_u64(token) {
                Some(n) => n,
                None => {
                    return Err(CommandError::ExecutionFailed(bad_range_spec(token)));
                },
            };
            if n == 0 {
                return Err(CommandError::ExecutionFailed(text("page numbers are 1-based, got 0")));
            }
            Ok(PageRange { start: n - 1, end: n - 1 })
        },
    }
}

/// Splits a document into one document per page range; each keeps the
/// metadata of the source, and its pages are renumbered from 0.
#[derive(Debug)]
pub struct SplitCommand {
    ranges: Vec<PageRange>,
}

impl SplitCommand {
    #[verifier::type_invariant]
    closed spec fn ranges_ordered(&self) -> bool {
        forall|i: int| 0 <= i < self.ranges@.len() ==> #[trigger] self.ranges@[i].start <= self.ranges@[i].end
    }

    /// The ranges, from 0, both ends included.
    pub closed spec fn spec_ranges(&self) -> Seq<(u64, u64)> {
        Seq::new(self.ranges@.len(), |i: int| (self.ranges@[i].start, self.ranges@[i].end))
    }

    /// A split by `spec`, comma-separated tokens `n` or `n-m` (1-based).
    /// Fails when `spec` is empty or a token is invalid.
    pub fn new(spec: &str) -> (r: Result<SplitCommand, CommandError>)
        ensures
            match r {
                Ok(c) => spec@.len() > 0 && spec_range_list(split_on(spec@, ','), 0) == Ok::<Seq<(u64, u64)>, Seq<char>>(c.spec_ranges()),
                Err(e) => if spec@.len() == 0 {
                    failed_with(e, "range spec must not be empty"@)
                } else {
                    spec_range_list(split_on(spec@, ','), 0) matches Err(m) && failed_with(e, m)
                },
            },
    {
        let chars = str_chars(spec);
        if chars.len() == 0 {
            return Err(CommandError::ExecutionFailed(text("range spec must not be empty")));
        }
        let tokens = split_chars(chars.as_slice(), ',');
        let ghost tv = split_on(spec@, ',');
        let mut ranges: Vec<PageRange> = Vec::new();
        let mut i: usize = 0;
        while i < tokens.len()
            invariant
                i <= tokens@.len(),
                spec@.len() > 0,
                tv == split_on(spec@, ','),
                tokens@.len() == tv.len(),
                forall|j: int| 0 <= j < tokens@.len() ==> (#[trigger] tokens@[j])@ == tv[j],
                forall|j: int| 0 <= j < ranges@.len() ==> #[trigger] ranges@[j].start <= ranges@[j].end,
                ranges@.len() == i,
                forall|j: int| 0 <= j < i ==> spec_range_token(trim(tv[j])) == Ok::<(u64, u64), Seq<char>>((#[trigger] ranges@[j].start, ranges@[j].end)),
                forall|j: int| 0 <= j < i ==> #[trigger] spec_range_token(trim(tv[j])) is Ok,
            decreases tokens@.len() - i,
        {
            let t = trim_chars(tokens[i].as_slice());
            match parse_range_token(t.as_slice()) {
                Ok(pr) => {
                    ranges.push(pr);
                },
                Err(e) => {
                    proof {
                        assert(tokens@[i as int]@ == tv[i as int]);
                        assert(t@ == trim(tv[i as int]));
                        assert(spec_range_token(trim(tv[i as int])) is Err);
                        lemma_range_list_fails(tv, i as int);
                        assert(spec_range_list(tv, 0) == Err::<Seq<(u64, u64)>, Seq<char>>(spec_range_token(t@)->Err_0));
                        assert(failed_with(e, spec_range_token(t@)->Err_0));
                        assert(spec@.len() > 0);
                    }
                    return Err(e);
                },
            }
            i += 1;
        }
        let c = SplitCommand { ranges };
        proof {
            lemma_range_list_ok(tv, c.spec_ranges());
        }
        Ok(c)
    }
}

/// When every token reads, the list is all of them in order.
proof fn lemma_range_list_ok(tv: Seq<Seq<char>>, rs: Seq<(u64, u64)>)
    requires
        rs.len() == tv.len(),
        forall|j: int| 0 <= j < tv.len() ==> spec_range_token(trim(tv[j])) == Ok::<(u64, u64), Seq<char>>(#[trigger] rs[j]),
    ensures
        spec_range_list(tv, 0) == Ok::<Seq<(u64, u64)>, Seq<char>>(rs),
{
    lemma_range_list_from(tv, rs, 0);
    assert(rs.skip(0) =~= rs);
}

proof fn lemma_range_list_from(tv: Seq<Seq<char>>, rs: Seq<(u64, u64)>, i: int)
    requires
        rs.len() == tv.len(),
        0 <= i <= tv.len(),
        forall|j: int| 0 <= j < tv.len() ==> spec_range_token(trim(tv[j])) == Ok::<(u64, u64), Seq<char>>(#[trigger] rs[j]),
    ensures
        spec_range_list(tv, i) == Ok::<Seq<(u64, u64)>, Seq<char>>(rs.skip(i)),
    decreases tv.len() - i,
{
    if i < tv.len() {
        lemma_range_list_from(tv, rs, i + 1);
        assert(seq![rs[i]] + rs.skip(i + 1) =~= rs.skip(i));
    } else {
        assert(rs.skip(i) =~= Seq::<(u64, u64)>::empty());
    }
}

/// When every token before the `k`-th reads and the `k`-th does not, the
/// list fails with the message of the `k`-th.
proof fn lemma_range_list_fails(tv: Seq<Seq<char>>, k: int)
    requires
        0 <= k < tv.len(),
        spec_range_token(trim(tv[k])) is Err,
        forall|j: int| 0 <= j < k ==> #[trigger] spec_range_token(trim(tv[j])) is Ok,
    ensures
        spec_range_list(tv, 0) == Err::<Seq<(u64, u64)>, Seq<char>>(spec_range_token(trim(tv[k]))->Err_0),
{
    lemma_range_list_fails_from(tv, k, 0);
}

proof fn lemma_range_list_fails_from(tv: Seq<Seq<char>>, k: int, i: int)
    requires
        0 <= i <= k < tv.len(),
        spec_range_token(trim(tv[k])) is Err,
        forall|j: int| 0 <= j < k ==> #[trigger] spec_range_token(trim(tv[j])) is Ok,
    ensures
        spec_range_list(tv, i) == Err::<Seq<(u64, u64)>, Seq<char>>(spec_range_token(trim(tv[k]))->Err_0),
    decreases k - i,
{
    if i < k {
        lemma_range_list_fails_from(tv, k, i + 1);
        assert(spec_range_token(trim(tv[i])) is Ok);
    }
}

impl Query for SplitCommand {
    type Output = Vec<Document>;

    /// One document per range. Fails when the document has no page or a
    /// range ends past its last page; with no range, gives none.
    fn execute(&self, doc: &Document) -> (r: Result<Vec<Document>, CommandError>)
        ensures
            match r {
                Ok(docs) => doc.pages@.len() > 0 && (forall|i: int| 0 <= i < self.spec_ranges().len() ==> #[trigger] self.spec_ranges()[i].1 < doc.pages@.len())
                    && docs@.len() == self.spec_ranges().len() && forall|i: int| 0 <= i < docs@.len() ==> (#[trigger] docs@[i])@ == (
                    reindexed(pages_view(doc.pages@).subrange(self.spec_ranges()[i].0 as int, self.spec_ranges()[i].1 + 1)),
                    doc@.1,
                ),
                Err(e) => if doc.pages@.len() == 0 {
                    failed_with(e, msg_no_pages())
                } else {
                    exists|i: int| {
                        &&& 0 <= i < self.spec_ranges().len()
                        &&& #[trigger] self.spec_ranges()[i].1 >= doc.pages@.len()
                        &&& forall|j: int| 0 <= j < i ==> self.spec_ranges()[j].1 < doc.pages@.len()
                        &&& failed_with(e, msg_out_of_bounds(self.spec_ranges()[i].1 as nat))
                    }
                },
            },
    {
        proof {
            use_type_invariant(self);
        }
        if doc.pages.len() == 0 {
            return Err(CommandError::ExecutionFailed(text("document has no pages")));
        }
        let mut out: Vec<Document> = Vec::new();
        if self.ranges.len() == 0 {
            return Ok(out);
        }
        let mut k: usize = 0;
        while k < self.ranges.len()
            invariant
                k <= self.ranges@.len(),
                doc.pages@.len() > 0,
                forall|i: int| 0 <= i < k ==> #[trigger] self.ranges@[i].end < doc.pages.len(),
            decreases self.ranges@.len() - k,
        {
            if self.ranges[k].end >= doc.pages.len() as u64 {
                assert(self.spec_ranges()[k as int].1 >= doc.pages@.len());
                let e = CommandError::ExecutionFailed(out_of_bounds(self.ranges[k].end));
                assert(forall|j: int| 0 <= j < k ==> self.spec_ranges()[j].1 < doc.pages@.len());
                assert(failed_with(e, msg_out_of_bounds(self.spec_ranges()[k as int].1 as nat)));
                return Err(e);
            }
            k += 1;
        }
        let mut j: usize = 0;
        while j < self.ranges.len()
            invariant
                j <= self.ranges@.len(),
                out@.len() == j,
                forall|i: int| 0 <= i < self.ranges@.len() ==> #[trigger] self.ranges@[i].end < doc.pages.len(),
                forall|i: int| 0 <= i < self.ranges@.len() ==> #[trigger] self.ranges@[i].start <= self.ranges@[i].end,
                forall|i: int| 0 <= i < j ==> (#[trigger] out@[i])@ == (
                    reindexed(pages_view(doc.pages@).subrange(self.spec_ranges()[i].0 as int, self.spec_ranges()[i].1 + 1)),
                    doc@.1,
                ),
            decreases self.ranges@.len() - j,
        {
            let start = self.ranges[j].start as usize;
            let end = self.ranges[j].end as usize;
            let pages = copy_pages(&doc.pages, start, end);
            let metadata = clone_opt_metadata(&doc.metadata);
            let d = Document { pages, metadata };
            let ghost before = out@;
            out.push(d);
            proof {
                assert(self.spec_ranges()[j as int] == (self.ranges@[j as int].start, self.ranges@[j as int].end));
                assert forall|i: int| 0 <= i < j + 1 implies (#[trigger] out@[i])@ == (
                    reindexed(pages_view(doc.pages@).subrange(self.spec_ranges()[i].0 as int, self.spec_ranges()[i].1 + 1)),
                    doc@.1,
                ) by {
                    if i < j {
                        assert(out@[i] == before[i]);
                    }
                }
            }
            j += 1;
        }
        Ok(out)
    }
}

} // verus!

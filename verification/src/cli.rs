//! Reading the page lists and ranges given on the command line, and naming
//! the files of a split.

use vstd::prelude::*;
use std::path::{Path, PathBuf};
use crate::parser::error::{lossy_utf8, utf8_lossy};
use crate::types::document::{DocumentMetadata, Page};
use crate::edit::split::{spec_range_list, spec_range_token};
use crate::text::{
    chars_to_string,
    append_decimal, concat_str, decimal_string, find_char, first_index, lemma_first_index, parse_u64,
    spec_decimal, spec_parse_u64, split_chars, split_on, str_chars, trim, trim_chars,
};

verus! {

#[verifier::external_type_specification]
#[verifier::external_body]
pub struct ExPath(Path);

#[verifier::external_type_specification]
#[verifier::external_body]
pub struct ExPathBuf(PathBuf);

/// What `Path::join` gives for `dir` and the component `name`: `dir` with
/// `name` appended after the platform's separator (a `name` that is itself
/// absolute replaces `dir`). It depends on its arguments and on the target
/// platform's path rules alone.
pub uninterp spec fn joined_path(dir: &Path, name: Seq<char>) -> PathBuf;

/// `Path::join`. Its result is named by `joined_path`; nothing more is stated,
/// since a path is opaque here.
#[verifier::external_body]
fn path_join(dir: &Path, name: &str) -> (r: PathBuf)
    ensures
        r == joined_path(dir, name@),
{
    dir.join(name)
}

/// The file name of part `n` of a split: `{stem}_part{n}.pdf`, with
/// `output` for an empty stem.
pub open spec fn spec_split_file_name(stem: Seq<char>, n: nat) -> Seq<char> {
    (if stem.len() == 0 { seq!['o', 'u', 't', 'p', 'u', 't'] } else { stem }) + seq!['_', 'p', 'a', 'r', 't']
        + spec_decimal(n) + seq!['.', 'p', 'd', 'f']
}

/// The file name of part `n` of a split.
pub fn split_output_file_name(stem: &str, n: usize) -> (r: String)
    ensures
        r@ == spec_split_file_name(stem@, n as nat),
{
    let base = if stem.unicode_len() == 0 {
        let o = "output";
        proof {
            reveal_strlit("output");
        }
        o
    } else {
        stem
    };
    let part = "_part";
    let ext = ".pdf";
    proof {
        reveal_strlit("_part");
        reveal_strlit(".pdf");
    }
    let a = concat_str(base, part);
    let d = decimal_string(n as u64);
    let b = concat_str(a.as_str(), d.as_str());
    let r = concat_str(b.as_str(), ext);
    assert(r@ =~= spec_split_file_name(stem@, n as nat));
    r
}

/// The path of part `n` of a split in `dir`: `dir` joined with the file
/// name `{stem}_part{n}.pdf` (`output` for an empty stem).
pub fn split_output_path(dir: &Path, stem: &str, n: usize) -> (r: PathBuf)
    ensures
        r == joined_path(dir, spec_split_file_name(stem@, n as nat)),
{
    let name = split_output_file_name(stem, n);
    path_join(dir, name.as_str())
}

/// What is wrong with a page list or a page range.
#[derive(Debug)]
pub enum PageSpecError {
    /// The page list is empty.
    EmptyList,
    /// A token of a page list is not a page number.
    InvalidPageNumber(String),
    /// A page number is 0 (they start at 1).
    ZeroPage,
    /// A range spec does not read.
    InvalidRange(String),
    /// A range starts after it ends.
    StartAfterEnd { start: u64, end: u64 },
    /// The range spec of a split is empty.
    EmptySpec,
}

/// The value of an error: its variant and what it carries.
pub enum SpecErrorView {
    EmptyList,
    InvalidPageNumber(Seq<char>),
    ZeroPage,
    InvalidRange(Seq<char>),
    StartAfterEnd(u64, u64),
    EmptySpec,
}

impl View for PageSpecError {
    type V = SpecErrorView;

    open spec fn view(&self) -> SpecErrorView {
        match self {
            PageSpecError::EmptyList => SpecErrorView::EmptyList,
            PageSpecError::InvalidPageNumber(t) => SpecErrorView::InvalidPageNumber(t@),
            PageSpecError::ZeroPage => SpecErrorView::ZeroPage,
            PageSpecError::InvalidRange(t) => SpecErrorView::InvalidRange(t@),
            PageSpecError::StartAfterEnd { start, end } => SpecErrorView::StartAfterEnd(*start, *end),
            PageSpecError::EmptySpec => SpecErrorView::EmptySpec,
        }
    }
}

impl PageSpecError {
    /// The message shown for this error.
    pub fn message(&self) -> (r: String)
        ensures
            r@ == (match self@ {
                SpecErrorView::EmptyList => "페이지 목록이 비어있습니다"@,
                SpecErrorView::InvalidPageNumber(t) => "잘못된 페이지 번호: "@ + t,
                SpecErrorView::ZeroPage => "페이지 번호는 1-based입니다 (0 입력됨)"@,
                SpecErrorView::InvalidRange(t) => "잘못된 범위 명세: "@ + t,
                SpecErrorView::StartAfterEnd(a, b) => "잘못된 범위 "@ + spec_decimal(a as nat) + "-"@ + spec_decimal(b as nat)
                    + ": start > end"@,
                SpecErrorView::EmptySpec => "range spec must not be empty"@,
            }),
    {
        match self {
            PageSpecError::EmptyList => String::from_str("페이지 목록이 비어있습니다"),
            PageSpecError::InvalidPageNumber(t) => concat_str("잘못된 페이지 번호: ", t.as_str()),
            PageSpecError::ZeroPage => String::from_str("페이지 번호는 1-based입니다 (0 입력됨)"),
            PageSpecError::InvalidRange(t) => concat_str("잘못된 범위 명세: ", t.as_str()),
            PageSpecError::StartAfterEnd { start, end } => {
                let a = concat_str("잘못된 범위 ", decimal_string(*start).as_str());
                let b = concat_str(a.as_str(), "-");
                let c = concat_str(b.as_str(), decimal_string(*end).as_str());
                let r = concat_str(c.as_str(), ": start > end");
                assert(r@ =~= "잘못된 범위 "@ + spec_decimal(*start as nat) + "-"@ + spec_decimal(*end as nat) + ": start > end"@);
                r
            },
            PageSpecError::EmptySpec => String::from_str("range spec must not be empty"),
        }
    }
}


// ─── page lists ──────────────────────────────────────────────────────────

/// A page token of a list: a page number from 1, as a position from 0.
pub open spec fn spec_page_token(t: Seq<char>) -> Result<usize, SpecErrorView> {
    match spec_parse_u64(t) {
        None => Err(SpecErrorView::InvalidPageNumber(t)),
        Some(n) => if n == 0 {
            Err(SpecErrorView::ZeroPage)
        } else {
            Ok((n - 1) as usize)
        },
    }
}

/// The positions of the first `i` tokens (each trimmed), or the first error.
pub open spec fn spec_page_tokens(tokens: Seq<Seq<char>>, i: int) -> Result<Seq<usize>, SpecErrorView>
    decreases i,
{
    if i <= 0 {
        Ok(Seq::empty())
    } else {
        match spec_page_tokens(tokens, i - 1) {
            Err(e) => Err(e),
            Ok(vs) => match spec_page_token(trim(tokens[i - 1])) {
                Err(e) => Err(e),
                Ok(v) => Ok(vs.push(v)),
            },
        }
    }
}

/// Once a token fails, the list fails with its error.
pub proof fn lemma_page_tokens_err(tokens: Seq<Seq<char>>, i: int, j: int)
    requires
        0 <= i <= j,
        spec_page_tokens(tokens, i) is Err,
    ensures
        spec_page_tokens(tokens, j) == spec_page_tokens(tokens, i),
    decreases j - i,
{
    if i < j {
        lemma_page_tokens_err(tokens, i, j - 1);
    }
}

/// In increasing order, each value once.
pub open spec fn strictly_increasing(v: Seq<usize>) -> bool {
    forall|i: int, j: int| 0 <= i < j < v.len() ==> v[i] < v[j]
}

/// Adds `x` to an increasing list of distinct values, keeping it so.
fn insert_sorted(v: &mut Vec<usize>, x: usize)
    requires
        strictly_increasing(old(v)@),
    ensures
        strictly_increasing(final(v)@),
        forall|y: usize| #[trigger] final(v)@.contains(y) <==> (old(v)@.contains(y) || y == x),
{
    let mut i: usize = 0;
    while i < v.len() && v[i] < x
        invariant
            i <= v@.len(),
            v@ == old(v)@,
            strictly_increasing(v@),
            forall|j: int| 0 <= j < i ==> v@[j] < x,
        decreases v@.len() - i,
    {
        i += 1;
    }
    if i < v.len() && v[i] == x {
        assert(v@[i as int] == x);
        assert(v@.contains(x));
        return;
    }
    let ghost before = v@;
    v.insert(i, x);
    assert(strictly_increasing(v@)) by {
        assert forall|a: int, b: int| 0 <= a < b < v@.len() implies v@[a] < v@[b] by {
            if b < i {
                assert(v@[a] == before[a] && v@[b] == before[b]);
            } else if b == i {
                assert(v@[a] == before[a]);
            } else if a < i {
                assert(v@[a] == before[a] && v@[b] == before[b - 1]);
                assert(before[i as int] > x);
                if b - 1 > i {
                    assert(before[i as int] < before[b - 1]);
                }
            } else if a == i {
                assert(v@[b] == before[b - 1]);
                assert(before[i as int] > x);
                if b - 1 > i {
                    assert(before[i as int] < before[b - 1]);
                }
            } else {
                assert(v@[a] == before[a - 1] && v@[b] == before[b - 1]);
            }
        }
    }
    assert forall|y: usize| #[trigger] v@.contains(y) <==> (before.contains(y) || y == x) by {
        if v@.contains(y) {
            let k = choose|k: int| 0 <= k < v@.len() && v@[k] == y;
            if k < i {
                assert(before[k] == y);
            } else if k > i {
                assert(before[k - 1] == y);
            }
        }
        if before.contains(y) {
            let k = choose|k: int| 0 <= k < before.len() && before[k] == y;
            if k < i {
                assert(v@[k] == y);
            } else {
                assert(v@[k + 1] == y);
            }
        }
        if y == x {
            assert(v@[i as int] == y);
        }
    }
    assert(before == old(v)@);
}

/// Reads a comma-separated list of page numbers (from 1) into positions
/// (from 0), in increasing order, each once. Fails on an empty list, a
/// token that is not a number, or a 0.
pub fn parse_page_list(spec: &str) -> (r: Result<Vec<usize>, PageSpecError>)
    ensures
        match r {
            Ok(v) => spec@.len() > 0 && spec_page_tokens(split_on(spec@, ','), split_on(spec@, ',').len() as int) is Ok
                && strictly_increasing(v@) && forall|y: usize| v@.contains(y) <==> spec_page_tokens(
                split_on(spec@, ','),
                split_on(spec@, ',').len() as int,
            )->Ok_0.contains(y),
            Err(e) => (spec@.len() == 0 && e@ == SpecErrorView::EmptyList) || (spec@.len() > 0 && spec_page_tokens(
                split_on(spec@, ','),
                split_on(spec@, ',').len() as int,
            ) == Err::<Seq<usize>, SpecErrorView>(e@)),
        },
{
    let chars = str_chars(spec);
    if chars.len() == 0 {
        return Err(PageSpecError::EmptyList);
    }
    let tokens = split_chars(chars.as_slice(), ',');
    let ghost tv = split_on(spec@, ',');
    let mut out: Vec<usize> = Vec::new();
    let ghost mut vals: Seq<usize> = Seq::empty();
    let mut i: usize = 0;
    while i < tokens.len()
        invariant
            i <= tokens@.len(),
            spec@.len() > 0,
            tv == split_on(spec@, ','),
            tokens@.len() == tv.len(),
            forall|j: int| 0 <= j < tokens@.len() ==> (#[trigger] tokens@[j])@ == tv[j],
            spec_page_tokens(tv, i as int) == Ok::<Seq<usize>, SpecErrorView>(vals),
            strictly_increasing(out@),
            forall|y: usize| out@.contains(y) <==> vals.contains(y),
        decreases tokens@.len() - i,
    {
        let t = trim_chars(tokens[i].as_slice());
        assert(t@ == trim(tv[i as int]));
        let n = match parse_u64(t.as_slice()) {
            Some(n) => n,
            None => {
                proof {
                    lemma_page_tokens_err(tv, i + 1, tv.len() as int);
                }
                return Err(PageSpecError::InvalidPageNumber(chars_to_string(t.as_slice())));
            },
        };
        if n == 0 {
            proof {
                lemma_page_tokens_err(tv, i + 1, tv.len() as int);
            }
            return Err(PageSpecError::ZeroPage);
        }
        let v = #[verifier::truncate] ((n - 1) as usize);
        insert_sorted(&mut out, v);
        proof {
            let old_vals = vals;
            vals = old_vals.push(v);
            assert forall|y: usize| out@.contains(y) <==> vals.contains(y) by {
                if y == v {
                    assert(vals[vals.len() - 1] == y);
                }
                if old_vals.contains(y) {
                    let k = choose|k: int| 0 <= k < old_vals.len() && old_vals[k] == y;
                    assert(vals[k] == y);
                }
                if vals.contains(y) && y != v {
                    let k = choose|k: int| 0 <= k < vals.len() && vals[k] == y;
                    assert(old_vals[k] == y);
                }
            }
        }
        i += 1;
    }
    Ok(out)
}

// ─── ranges ──────────────────────────────────────────────────────────────

/// A single range `n` or `n-m` (1-based; parts may be padded with
/// white-space): the first and last page, from 1. Errors name the whole spec.
pub open spec fn spec_single_range(s: Seq<char>) -> Result<(usize, usize), SpecErrorView> {
    if s.contains('-') {
        let k = first_index(s, '-');
        match (spec_parse_u64(trim(s.take(k))), spec_parse_u64(trim(s.skip(k + 1)))) {
            (Some(a), Some(b)) => if a == 0 || b == 0 {
                Err(SpecErrorView::ZeroPage)
            } else if a > b {
                Err(SpecErrorView::StartAfterEnd(a, b))
            } else {
                Ok((a as usize, b as usize))
            },
            _ => Err(SpecErrorView::InvalidRange(s)),
        }
    } else {
        match spec_parse_u64(trim(s)) {
            None => Err(SpecErrorView::InvalidRange(s)),
            Some(n) => if n == 0 {
                Err(SpecErrorView::ZeroPage)
            } else {
                Ok((n as usize, n as usize))
            },
        }
    }
}

/// Reads a single page range `n` or `n-m` (pages from 1), keeping the page
/// numbers from 1.
pub fn parse_single_range(spec: &str) -> (r: Result<(usize, usize), PageSpecError>)
    ensures
        match r {
            Ok(p) => spec_single_range(spec@) == Ok::<(usize, usize), SpecErrorView>(p),
            Err(e) => spec_single_range(spec@) == Err::<(usize, usize), SpecErrorView>(e@),
        },
{
    let chars = str_chars(spec);
    match find_char(chars.as_slice(), '-') {
        Some(k) => {
            proof {
                lemma_first_index(spec@, '-', k as int);
                assert(spec@.contains('-'));
            }
            let left = trim_chars(vstd::slice::slice_subrange(chars.as_slice(), 0, k));
            let right = trim_chars(vstd::slice::slice_subrange(chars.as_slice(), k + 1, chars.len()));
            assert(chars@.subrange(0, k as int) =~= spec@.take(k as int));
            assert(chars@.subrange(k + 1, chars@.len() as int) =~= spec@.skip(k + 1));
            let a = parse_u64(left.as_slice());
            let b = parse_u64(right.as_slice());
            match (a, b) {
                (Some(a), Some(b)) => {
                    if a == 0 || b == 0 {
                        return Err(PageSpecError::ZeroPage);
                    }
                    if a > b {
                        return Err(PageSpecError::StartAfterEnd { start: a, end: b });
                    }
                    Ok((#[verifier::truncate] (a as usize), #[verifier::truncate] (b as usize)))
                },
                _ => Err(PageSpecError::InvalidRange(String::from_str(spec))),
            }
        },
        None => {
            let t = trim_chars(chars.as_slice());
            match parse_u64(t.as_slice()) {
                None => Err(PageSpecError::InvalidRange(String::from_str(spec))),
                Some(n) => {
                    if n == 0 {
                        return Err(PageSpecError::ZeroPage);
                    }
                    let v = #[verifier::truncate] (n as usize);
                    Ok((v, v))
                },
            }
        },
    }
}

/// A range token of a split: `n` or `n-m` (1-based, parts not trimmed),
/// as positions from 0. Errors name the token.
pub open spec fn spec_split_token(t: Seq<char>) -> Result<(usize, usize), SpecErrorView> {
    if t.contains('-') {
        let k = first_index(t, '-');
        match (spec_parse_u64(t.take(k)), spec_parse_u64(t.skip(k + 1))) {
            (Some(n), Some(m)) => if n == 0 || m == 0 {
                Err(SpecErrorView::ZeroPage)
            } else if n > m {
                Err(SpecErrorView::StartAfterEnd(n, m))
            } else {
                Ok(((n - 1) as usize, (m - 1) as usize))
            },
            _ => Err(SpecErrorView::InvalidRange(t)),
        }
    } else {
        match spec_parse_u64(t) {
            None => Err(SpecErrorView::InvalidRange(t)),
            Some(n) => if n == 0 {
                Err(SpecErrorView::ZeroPage)
            } else {
                Ok(((n - 1) as usize, (n - 1) as usize))
            },
        }
    }
}

/// The ranges of the first `i` tokens (each trimmed), or the first error.
pub open spec fn spec_split_tokens(tokens: Seq<Seq<char>>, i: int) -> Result<Seq<(usize, usize)>, SpecErrorView>
    decreases i,
{
    if i <= 0 {
        Ok(Seq::empty())
    } else {
        match spec_split_tokens(tokens, i - 1) {
            Err(e) => Err(e),
            Ok(vs) => match spec_split_token(trim(tokens[i - 1])) {
                Err(e) => Err(e),
                Ok(v) => Ok(vs.push(v)),
            },
        }
    }
}

/// Once a token fails, the list fails with its error.
pub proof fn lemma_split_tokens_err(tokens: Seq<Seq<char>>, i: int, j: int)
    requires
        0 <= i <= j,
        spec_split_tokens(tokens, i) is Err,
    ensures
        spec_split_tokens(tokens, j) == spec_split_tokens(tokens, i),
    decreases j - i,
{
    if i < j {
        lemma_split_tokens_err(tokens, i, j - 1);
    }
}

/// Reads one range token of a split.
fn parse_split_token(t: &[char]) -> (r: Result<(usize, usize), PageSpecError>)
    ensures
        match r {
            Ok(p) => spec_split_token(t@) == Ok::<(usize, usize), SpecErrorView>(p),
            Err(e) => spec_split_token(t@) == Err::<(usize, usize), SpecErrorView>(e@),
        },
{
    match find_char(t, '-') {
        Some(k) => {
            proof {
                lemma_first_index(t@, '-', k as int);
                assert(t@.contains('-'));
            }
            let left = vstd::slice::slice_subrange(t, 0, k);
            let right = vstd::slice::slice_subrange(t, k + 1, t.len());
            assert(left@ =~= t@.take(k as int));
            assert(right@ =~= t@.skip(k + 1));
            match (parse_u64(left), parse_u64(right)) {
                (Some(n), Some(m)) => {
                    if n == 0 || m == 0 {
                        return Err(PageSpecError::ZeroPage);
                    }
                    if n > m {
                        return Err(PageSpecError::StartAfterEnd { start: n, end: m });
                    }
                    Ok((#[verifier::truncate] ((n - 1) as usize), #[verifier::truncate] ((m - 1) as usize)))
                },
                _ => Err(PageSpecError::InvalidRange(chars_to_string(t))),
            }
        },
        None => match parse_u64(t) {
            None => Err(PageSpecError::InvalidRange(chars_to_string(t))),
            Some(n) => {
                if n == 0 {
                    return Err(PageSpecError::ZeroPage);
                }
                let v = #[verifier::truncate] ((n - 1) as usize);
                Ok((v, v))
            },
        },
    }
}

/// Reads the comma-separated ranges of a split (`n` or `n-m`, pages from
/// 1) as positions from 0, in order. Fails on an empty spec or an invalid
/// token.
pub fn parse_ranges_for_split(spec: &str) -> (r: Result<Vec<(usize, usize)>, PageSpecError>)
    ensures
        match r {
            Ok(v) => spec@.len() > 0 && spec_split_tokens(split_on(spec@, ','), split_on(spec@, ',').len() as int)
                == Ok::<Seq<(usize, usize)>, SpecErrorView>(v@),
            Err(e) => (spec@.len() == 0 && e@ == SpecErrorView::EmptySpec) || (spec@.len() > 0 && spec_split_tokens(
                split_on(spec@, ','),
                split_on(spec@, ',').len() as int,
            ) == Err::<Seq<(usize, usize)>, SpecErrorView>(e@)),
        },
{
    let chars = str_chars(spec);
    if chars.len() == 0 {
        return Err(PageSpecError::EmptySpec);
    }
    let tokens = split_chars(chars.as_slice(), ',');
    let ghost tv = split_on(spec@, ',');
    let mut out: Vec<(usize, usize)> = Vec::new();
    let mut i: usize = 0;
    while i < tokens.len()
        invariant
            i <= tokens@.len(),
            spec@.len() > 0,
            tv == split_on(spec@, ','),
            tokens@.len() == tv.len(),
            forall|j: int| 0 <= j < tokens@.len() ==> (#[trigger] tokens@[j])@ == tv[j],
            spec_split_tokens(tv, i as int) == Ok::<Seq<(usize, usize)>, SpecErrorView>(out@),
        decreases tokens@.len() - i,
    {
        let t = trim_chars(tokens[i].as_slice());
        assert(t@ == trim(tv[i as int]));
        match parse_split_token(t.as_slice()) {
            Ok(p) => {
                out.push(p);
            },
            Err(e) => {
                proof {
                    lemma_split_tokens_err(tv, i + 1, tv.len() as int);
                }
                return Err(e);
            },
        }
        i += 1;
    }
    Ok(out)
}

// ─── metadata as text ────────────────────────────────────────────────────

/// The metadata fields as text (each read as UTF-8, invalid sequences
/// replaced), in the order of `DocumentMetadata`.
pub struct MetadataText {
    pub title: Option<String>,
    pub author: Option<String>,
    pub subject: Option<String>,
    pub creator: Option<String>,
    pub producer: Option<String>,
    pub creation_date: Option<String>,
    pub modification_date: Option<String>,
}

/// The text of an optional byte string.
pub open spec fn spec_decode(b: Option<Vec<u8>>) -> Option<Seq<char>> {
    match b {
        Some(v) => Some(lossy_utf8(v@)),
        None => None,
    }
}

/// The value of an optional string.
pub open spec fn opt_text(s: Option<String>) -> Option<Seq<char>> {
    match s {
        Some(t) => Some(t@),
        None => None,
    }
}

/// Reads bytes as UTF-8, replacing invalid sequences.
pub fn decode_bytes(bytes: Option<&[u8]>) -> (r: Option<String>)
    ensures
        match (bytes, r) {
            (Some(b), Some(s)) => s@ == lossy_utf8(b@),
            (None, None) => true,
            _ => false,
        },
{
    match bytes {
        Some(b) => Some(utf8_lossy(b)),
        None => None,
    }
}

/// The text of an optional byte string field.
fn decode_field(f: &Option<Vec<u8>>) -> (r: Option<String>)
    ensures
        opt_text(r) == spec_decode(*f),
{
    match f {
        Some(v) => decode_bytes(Some(v.as_slice())),
        None => decode_bytes(None),
    }
}

/// The metadata as text, field by field.
pub fn meta_to_output(meta: &DocumentMetadata) -> (r: MetadataText)
    ensures
        opt_text(r.title) == spec_decode(meta.title),
        opt_text(r.author) == spec_decode(meta.author),
        opt_text(r.subject) == spec_decode(meta.subject),
        opt_text(r.creator) == spec_decode(meta.creator),
        opt_text(r.producer) == spec_decode(meta.producer),
        opt_text(r.creation_date) == spec_decode(meta.creation_date),
        opt_text(r.modification_date) == spec_decode(meta.modification_date),
{
    MetadataText {
        title: decode_field(&meta.title),
        author: decode_field(&meta.author),
        subject: decode_field(&meta.subject),
        creator: decode_field(&meta.creator),
        producer: decode_field(&meta.producer),
        creation_date: decode_field(&meta.creation_date),
        modification_date: decode_field(&meta.modification_date),
    }
}


// ─── choosing pages to show ──────────────────────────────────────────────

/// The positions, among the first `n` page indices, of the pages to show:
/// all of them, or those whose index is `page`.
pub open spec fn selected_upto(indices: Seq<usize>, page: Option<usize>, n: int) -> Seq<usize>
    decreases n,
{
    if n <= 0 {
        Seq::empty()
    } else {
        let prev = selected_upto(indices, page, n - 1);
        if page is None || page == Some(indices[n - 1]) { prev.push((n - 1) as usize) } else { prev }
    }
}

/// The indices of a list of pages.
pub open spec fn page_indices(pages: Seq<Page>) -> Seq<usize> {
    Seq::new(pages.len(), |i: int| pages[i].index)
}

/// The message for a page number beyond the document.
pub open spec fn page_not_found(p: usize, total: usize) -> Seq<char> {
    "page "@ + spec_decimal(p as nat) + " not found (total: "@ + spec_decimal(total as nat) + ", valid: 0.."@
        + spec_decimal(total as nat) + ")"@
}

/// The positions of the pages to show: all of them when `page` is `None`,
/// else those whose index is `page`. Fails when `page` is not below the
/// number of pages.
pub fn select_pages(pages: &[Page], page: Option<usize>) -> (r: Result<Vec<usize>, String>)
    ensures
        match r {
            Ok(v) => !(page matches Some(p) && p >= pages@.len())
                && v@ == selected_upto(page_indices(pages@), page, pages@.len() as int),
            Err(m) => page matches Some(p) && p >= pages@.len() && m@ == page_not_found(p, pages.len()),
        },
{
    let total = pages.len();
    if let Some(p) = page {
        if p >= total {
            let mut m = String::from_str("page ");
            append_decimal(&mut m, p as u64);
            m.append(" not found (total: ");
            append_decimal(&mut m, total as u64);
            m.append(", valid: 0..");
            append_decimal(&mut m, total as u64);
            m.append(")");
            return Err(m);
        }
    }
    let ghost idx = page_indices(pages@);
    let mut out: Vec<usize> = Vec::new();
    let mut i: usize = 0;
    while i < pages.len()
        invariant
            i <= pages@.len(),
            idx == page_indices(pages@),
            out@ == selected_upto(idx, page, i as int),
        decreases pages@.len() - i,
    {
        let keep = match page {
            None => true,
            Some(p) => pages[i].index == p,
        };
        if keep {
            out.push(i);
        }
        i += 1;
    }
    Ok(out)
}


// ─── the two readings of a split spec ────────────────────────────────────

/// A token reads as a range here exactly when it reads as one for the
/// split command, and both give the same range.
pub proof fn lemma_split_token_agrees(t: Seq<char>)
    ensures
        spec_split_token(t) is Ok <==> spec_range_token(t) is Ok,
        spec_split_token(t) is Ok ==> spec_split_token(t)->Ok_0 == (
            spec_range_token(t)->Ok_0.0 as usize,
            spec_range_token(t)->Ok_0.1 as usize,
        ),
{
}

/// The ranges of the first `i` tokens: all read, in order.
proof fn lemma_split_tokens_shape(tokens: Seq<Seq<char>>, i: int)
    requires
        0 <= i <= tokens.len(),
    ensures
        spec_split_tokens(tokens, i) is Ok <==> forall|j: int| 0 <= j < i ==> #[trigger] spec_split_token(trim(tokens[j])) is Ok,
        spec_split_tokens(tokens, i) is Ok ==> {
            let v = spec_split_tokens(tokens, i)->Ok_0;
            &&& v.len() == i
            &&& forall|j: int| 0 <= j < i ==> v[j] == #[trigger] spec_split_token(trim(tokens[j]))->Ok_0
        },
    decreases i,
{
    if i > 0 {
        lemma_split_tokens_shape(tokens, i - 1);
        if spec_split_tokens(tokens, i - 1) is Err {
            let j0 = choose|j: int| 0 <= j < i - 1 && !(#[trigger] spec_split_token(trim(tokens[j])) is Ok);
            assert(0 <= j0 < i && !(spec_split_token(trim(tokens[j0])) is Ok));
        }
    }
}

/// The ranges of the tokens from `i` on: all read, in order.
proof fn lemma_range_list_shape(tokens: Seq<Seq<char>>, i: int)
    requires
        0 <= i <= tokens.len(),
    ensures
        spec_range_list(tokens, i) is Ok <==> forall|j: int| i <= j < tokens.len() ==> #[trigger] spec_range_token(trim(tokens[j])) is Ok,
        spec_range_list(tokens, i) is Ok ==> {
            let w = spec_range_list(tokens, i)->Ok_0;
            &&& w.len() == tokens.len() - i
            &&& forall|j: int| i <= j < tokens.len() ==> w[j - i] == #[trigger] spec_range_token(trim(tokens[j]))->Ok_0
        },
    decreases tokens.len() - i,
{
    if i < tokens.len() {
        lemma_range_list_shape(tokens, i + 1);
        if spec_range_token(trim(tokens[i])) is Ok && spec_range_list(tokens, i + 1) is Err {
            let j0 = choose|j: int| i + 1 <= j < tokens.len() && !(#[trigger] spec_range_token(trim(tokens[j])) is Ok);
            assert(i <= j0 < tokens.len() && !(spec_range_token(trim(tokens[j0])) is Ok));
        }
        if spec_range_list(tokens, i) is Ok {
            let w = spec_range_list(tokens, i)->Ok_0;
            let rest = spec_range_list(tokens, i + 1)->Ok_0;
            assert forall|j: int| i <= j < tokens.len() implies w[j - i] == #[trigger] spec_range_token(trim(tokens[j]))->Ok_0 by {
                if j > i {
                    assert(w[j - i] == rest[j - (i + 1)]);
                }
            }
        }
    }
}

/// The split ranges read on the command line and by the split command
/// agree: a spec is accepted by both or by neither, and then both give the
/// same ranges in the same order.
pub proof fn lemma_split_readings_agree(spec: Seq<char>)
    ensures
        ({
            let tokens = split_on(spec, ',');
            let here = spec_split_tokens(tokens, tokens.len() as int);
            let there = spec_range_list(tokens, 0);
            &&& here is Ok <==> there is Ok
            &&& here is Ok ==> here->Ok_0.len() == there->Ok_0.len() && forall|j: int| 0 <= j < here->Ok_0.len()
                ==> #[trigger] here->Ok_0[j] == (there->Ok_0[j].0 as usize, there->Ok_0[j].1 as usize)
        }),
{
    let tokens = split_on(spec, ',');
    lemma_split_tokens_shape(tokens, tokens.len() as int);
    lemma_range_list_shape(tokens, 0);
    assert forall|j: int| 0 <= j < tokens.len() implies (#[trigger] spec_split_token(trim(tokens[j])) is Ok
        <==> spec_range_token(trim(tokens[j])) is Ok) by {
        lemma_split_token_agrees(trim(tokens[j]));
    }
    let here = spec_split_tokens(tokens, tokens.len() as int);
    let there = spec_range_list(tokens, 0);
    if here is Ok {
        assert forall|j: int| 0 <= j < tokens.len() implies #[trigger] spec_range_token(trim(tokens[j])) is Ok by {
            assert(spec_split_token(trim(tokens[j])) is Ok);
        }
        assert forall|j: int| 0 <= j < here->Ok_0.len() implies #[trigger] here->Ok_0[j] == (
            there->Ok_0[j].0 as usize,
            there->Ok_0[j].1 as usize,
        ) by {
            lemma_split_token_agrees(trim(tokens[j]));
            assert(spec_split_token(trim(tokens[j])) is Ok);
            assert(there->Ok_0[j - 0] == spec_range_token(trim(tokens[j]))->Ok_0);
        }
    }
    if there is Ok {
        assert forall|j: int| 0 <= j < tokens.len() implies #[trigger] spec_split_token(trim(tokens[j])) is Ok by {
            assert(spec_range_token(trim(tokens[j])) is Ok);
        }
    }
}

} // verus!

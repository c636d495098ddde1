//! The file header `%PDF-X.Y` (ISO 32000-1 §7.5.2).

use vstd::prelude::*;
use crate::parser::error::{ErrorKind, ParseError, shown, truncate_for_error};
use crate::parser::lex::{
    CR, DIGIT_0, DOT, LF, eol_run_end, find_within, is_digit, line_run_end, occurs_within,
    skip_eol, skip_line, spec_is_digit,
};
use crate::types::pdf_version::{PdfVersion, spec_version_from};

verus! {

/// How far from the start of the file the header is searched for.
pub const HEADER_SEARCH_LIMIT: usize = 1024;

/// The bytes `%PDF-`.
pub open spec fn pdf_marker() -> Seq<u8> {
    seq![0x25u8, 0x50, 0x44, 0x46, 0x2D]
}

/// What the header says: the version, where the marker starts, and whether
/// the comment line after it holds at least four bytes of 0x80 or more.
#[derive(Debug, Clone, PartialEq, Eq)]
pub struct PdfHeader {
    pub version: PdfVersion,
    pub byte_offset: usize,
    pub has_binary_marker: bool,
}

/// The number of bytes of 0x80 or more in `s[lo..hi]`.
pub open spec fn count_high(s: Seq<u8>, lo: int, hi: int) -> nat
    decreases hi - lo,
{
    if lo >= hi {
        0
    } else {
        count_high(s, lo, hi - 1) + if s[hi - 1] >= 0x80 { 1nat } else { 0nat }
    }
}

/// Whether the first non-empty line from `a` holds four or more high bytes
/// (the binary marker comment of §7.5.2).
pub open spec fn spec_binary_marker(s: Seq<u8>, a: int) -> bool {
    let ls = eol_run_end(s, a, s.len() as int);
    let le = line_run_end(s, ls, s.len() as int);
    count_high(s, ls, le) >= 4
}

/// Where the search for the header ends.
pub open spec fn header_search_end(len: int) -> int {
    if len < HEADER_SEARCH_LIMIT { len } else { HEADER_SEARCH_LIMIT as int }
}

/// The header of `s`: the first `%PDF-` wholly within the first 1024
/// bytes, then `<digit>.<digit>`, then CR or LF.
pub open spec fn spec_parse_header(s: Seq<u8>) -> Result<PdfHeader, ErrorKind> {
    let hi = header_search_end(s.len() as int);
    if forall|q: int| !#[trigger] occurs_within(s, 0, hi, pdf_marker(), q) {
        Err(ErrorKind::HeaderNotFound { searched_bytes: hi as usize })
    } else {
        let p = choose|p: int| occurs_within(s, 0, hi, pdf_marker(), p) && forall|q: int|
            q < p ==> !#[trigger] occurs_within(s, 0, hi, pdf_marker(), q);
        let vs = p + 5;
        let vb = s.subrange(vs, vs + 3);
        if vs + 3 > s.len() {
            Err(ErrorKind::InvalidVersion { offset: vs as usize, found: shown(s.subrange(vs, s.len() as int)) })
        } else if !spec_is_digit(s[vs]) {
            Err(ErrorKind::InvalidVersion { offset: vs as usize, found: shown(vb) })
        } else if s[vs + 1] != DOT {
            Err(ErrorKind::InvalidVersion { offset: (vs + 1) as usize, found: shown(vb) })
        } else if !spec_is_digit(s[vs + 2]) {
            Err(ErrorKind::InvalidVersion { offset: (vs + 2) as usize, found: shown(vb) })
        } else if vs + 3 >= s.len() {
            Err(ErrorKind::InvalidVersion { offset: (vs + 3) as usize, found: Seq::empty() })
        } else if s[vs + 3] != LF && s[vs + 3] != CR {
            Err(ErrorKind::InvalidVersion { offset: (vs + 3) as usize, found: shown(s.subrange(vs + 3, s.len() as int)) })
        } else {
            Ok(PdfHeader {
                version: spec_version_from((s[vs] - DIGIT_0) as u8, (s[vs + 2] - DIGIT_0) as u8),
                byte_offset: p as usize,
                has_binary_marker: spec_binary_marker(s, vs + 3),
            })
        }
    }
}

/// The value of a decimal digit.
pub fn ascii_digit(b: u8) -> (r: Option<u8>)
    ensures
        r == (if spec_is_digit(b) { Some((b - DIGIT_0) as u8) } else { None::<u8> }),
{
    if is_digit(b) {
        Some(b - DIGIT_0)
    } else {
        None
    }
}

/// Whether the first non-empty line from `after_version_end` holds four or
/// more bytes of 0x80 or more.
pub fn detect_binary_marker(data: &[u8], after_version_end: usize) -> (r: bool)
    requires
        after_version_end <= data@.len(),
    ensures
        r == spec_binary_marker(data@, after_version_end as int),
{
    let ls = skip_eol(data, after_version_end, data.len());
    let le = skip_line(data, ls, data.len());
    let mut count: usize = 0;
    let mut i = ls;
    while i < le
        invariant
            ls <= i <= le <= data@.len(),
            count == count_high(data@, ls as int, i as int),
            count <= i - ls,
        decreases le - i,
    {
        if data[i] >= 0x80 {
            count += 1;
        }
        i += 1;
    }
    count >= 4
}

/// Parses the header: the version, where `%PDF-` starts, and whether a
/// binary marker comment follows.
pub fn parse_header(data: &[u8]) -> (r: Result<PdfHeader, ParseError>)
    ensures
        match r {
            Ok(h) => spec_parse_header(data@) == Ok::<PdfHeader, ErrorKind>(h),
            Err(e) => spec_parse_header(data@) == Err::<PdfHeader, ErrorKind>(e.kind()),
        },
{
    let dlen = data.len();
    let hi = if dlen < HEADER_SEARCH_LIMIT { dlen } else { HEADER_SEARCH_LIMIT };
    let marker: [u8; 5] = [0x25, 0x50, 0x44, 0x46, 0x2D];
    assert(marker@ == pdf_marker());
    assert(hi == header_search_end(data@.len() as int));
    let p = match find_within(data, 0, hi, &marker) {
        Some(p) => p,
        None => {
            return Err(ParseError::HeaderNotFound { searched_bytes: hi });
        },
    };
    proof {
        let h = header_search_end(data@.len() as int);
        assert(occurs_within(data@, 0, h, pdf_marker(), p as int));
        let pc = choose|p: int| occurs_within(data@, 0, h, pdf_marker(), p) && forall|q: int|
            q < p ==> !#[trigger] occurs_within(data@, 0, h, pdf_marker(), q);
        if pc < p {
            assert(!occurs_within(data@, 0, h, pdf_marker(), pc));
        }
        if pc > p {
            assert(!occurs_within(data@, 0, h, pdf_marker(), p as int));
        }
        assert(pc == p);
    }
    let vs = p + 5;
    if dlen - vs < 3 {
        let rest = vstd::slice::slice_subrange(data, vs, dlen);
        return Err(ParseError::InvalidVersion { offset: vs, found: truncate_for_error(rest, 16) });
    }
    let vb = vstd::slice::slice_subrange(data, vs, vs + 3);
    let major = match ascii_digit(data[vs]) {
        Some(d) => d,
        None => {
            return Err(ParseError::InvalidVersion { offset: vs, found: truncate_for_error(vb, 16) });
        },
    };
    if data[vs + 1] != DOT {
        return Err(ParseError::InvalidVersion { offset: vs + 1, found: truncate_for_error(vb, 16) });
    }
    let minor = match ascii_digit(data[vs + 2]) {
        Some(d) => d,
        None => {
            return Err(ParseError::InvalidVersion { offset: vs + 2, found: truncate_for_error(vb, 16) });
        },
    };
    let after = vs + 3;
    if after >= dlen {
        return Err(ParseError::InvalidVersion { offset: after, found: String::new() });
    }
    if data[after] != LF && data[after] != CR {
        let rest = vstd::slice::slice_subrange(data, after, dlen);
        return Err(ParseError::InvalidVersion { offset: after, found: truncate_for_error(rest, 16) });
    }
    let version = PdfVersion::from_bytes(major, minor);
    let has_binary_marker = detect_binary_marker(data, after);
    Ok(PdfHeader { version, byte_offset: p, has_binary_marker })
}

} // verus!

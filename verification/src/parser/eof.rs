//! Locating the `%%EOF` marker at the end of a file (ISO 32000-1 §7.5.5).

use vstd::prelude::*;
use crate::parser::error::{ErrorKind, ParseError};
use crate::parser::lex::{last_occurrence, no_occurrence, occurs_within, rfind_within};

verus! {

/// How far from the end of the file the marker is searched for.
pub const EOF_SEARCH_WINDOW: usize = 1024;

/// The bytes `%%EOF`.
pub open spec fn eof_marker() -> Seq<u8> {
    seq![0x25u8, 0x25, 0x45, 0x4F, 0x46]
}

/// Where the search for the marker starts: 1024 bytes before the end.
pub open spec fn eof_search_start(len: int) -> int {
    if len > EOF_SEARCH_WINDOW { len - EOF_SEARCH_WINDOW } else { 0 }
}

/// The offset of the last `%%EOF` wholly within the final 1024 bytes.
pub open spec fn spec_find_eof(s: Seq<u8>) -> Result<int, ErrorKind> {
    let lo = eof_search_start(s.len() as int);
    if no_occurrence(s, lo, s.len() as int, eof_marker()) {
        Err(ErrorKind::MissingEof)
    } else {
        Ok(last_occurrence(s, lo, s.len() as int, eof_marker()))
    }
}

/// Finds the last `%%EOF` that lies wholly within the final 1024 bytes and
/// returns its offset; several markers occur after incremental updates.
pub fn find_eof(data: &[u8]) -> (r: Result<usize, ParseError>)
    ensures
        match r {
            Ok(p) => occurs_within(data@, eof_search_start(data@.len() as int), data@.len() as int, eof_marker(), p as int)
                && forall|q: int| p < q ==> !#[trigger] occurs_within(
                    data@,
                    eof_search_start(data@.len() as int),
                    data@.len() as int,
                    eof_marker(),
                    q,
                ),
            Err(e) => e is MissingEof && forall|q: int| !#[trigger] occurs_within(
                data@,
                eof_search_start(data@.len() as int),
                data@.len() as int,
                eof_marker(),
                q,
            ),
        },
        match r {
            Ok(p) => spec_find_eof(data@) == Ok::<int, ErrorKind>(p as int),
            Err(e) => spec_find_eof(data@) == Err::<int, ErrorKind>(e.kind()),
        },
{
    let start = if data.len() > EOF_SEARCH_WINDOW { data.len() - EOF_SEARCH_WINDOW } else { 0 };
    let marker: [u8; 5] = [0x25, 0x25, 0x45, 0x4F, 0x46];
    assert(marker@ == eof_marker());
    match rfind_within(data, start, data.len(), &marker) {
        Some(p) => Ok(p),
        None => Err(ParseError::MissingEof),
    }
}

} // verus!

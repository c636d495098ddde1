//! Reading the `startxref` value before `%%EOF` (ISO 32000-1 §7.5.5).

use vstd::prelude::*;
use crate::parser::error::{ErrorKind, ParseError, shown, truncate_for_error};
use crate::parser::lex::{
    decimal_value, digit_run_end, digits_value_upto, eol_run_end, occurs_within, rfind_within,
    skip_digits_below, skip_eol,
};

verus! {

/// How far before `%%EOF` the keyword is searched for.
pub const STARTXREF_SEARCH_WINDOW: usize = 1024;

/// The bytes `startxref`.
pub open spec fn startxref_keyword() -> Seq<u8> {
    seq![0x73u8, 0x74, 0x61, 0x72, 0x74, 0x78, 0x72, 0x65, 0x66]
}

/// Where the search for the keyword starts: 1024 bytes before `eof`.
pub open spec fn startxref_search_start(eof: int) -> int {
    if eof > STARTXREF_SEARCH_WINDOW { eof - STARTXREF_SEARCH_WINDOW } else { 0 }
}

/// The value of `startxref` before `eof`: the last keyword wholly inside
/// the 1024 bytes before `eof`, then end-of-line bytes, then decimal digits
/// (read up to `eof`) whose value fits in a `u64`.
#[verifier::opaque]
pub open spec fn spec_startxref(s: Seq<u8>, eof: int) -> Result<u64, ErrorKind> {
    let lo = startxref_search_start(eof);
    if forall|q: int| !#[trigger] occurs_within(s, lo, eof, startxref_keyword(), q) {
        Err(ErrorKind::MissingStartXref)
    } else {
        let p = choose|p: int| occurs_within(s, lo, eof, startxref_keyword(), p) && forall|q: int|
            p < q ==> !#[trigger] occurs_within(s, lo, eof, startxref_keyword(), q);
        let ds = eol_run_end(s, p + 9, eof);
        let de = digit_run_end(s, ds, eof);
        if ds >= eof {
            Err(ErrorKind::InvalidStartXref { found: Seq::empty() })
        } else if de == ds {
            Err(ErrorKind::InvalidStartXref { found: shown(s.subrange(ds, eof)) })
        } else if decimal_value(s.subrange(ds, de)) > u64::MAX {
            Err(ErrorKind::InvalidStartXref { found: shown(s.subrange(ds, de)) })
        } else {
            Ok(decimal_value(s.subrange(ds, de)) as u64)
        }
    }
}

/// Reads the cross-reference offset that follows the last `startxref`
/// before `eof_offset` (the offset of `%%EOF`).
pub fn parse_startxref(data: &[u8], eof_offset: usize) -> (r: Result<u64, ParseError>)
    requires
        eof_offset <= data@.len(),
    ensures
        match r {
            Ok(v) => spec_startxref(data@, eof_offset as int) == Ok::<u64, ErrorKind>(v),
            Err(e) => spec_startxref(data@, eof_offset as int) == Err::<u64, ErrorKind>(e.kind()),
        },
{
    reveal(spec_startxref);
    let lo = if eof_offset > STARTXREF_SEARCH_WINDOW { eof_offset - STARTXREF_SEARCH_WINDOW } else { 0 };
    let kw: [u8; 9] = [0x73, 0x74, 0x61, 0x72, 0x74, 0x78, 0x72, 0x65, 0x66];
    assert(kw@ == startxref_keyword());
    let p = match rfind_within(data, lo, eof_offset, &kw) {
        Some(p) => p,
        None => {
            return Err(ParseError::MissingStartXref);
        },
    };
    proof {
        let ghost pc = choose|p: int| occurs_within(data@, lo as int, eof_offset as int, startxref_keyword(), p) && forall|q: int|
            p < q ==> !#[trigger] occurs_within(data@, lo as int, eof_offset as int, startxref_keyword(), q);
        if pc < p {
            assert(!occurs_within(data@, lo as int, eof_offset as int, startxref_keyword(), p as int));
        }
        if pc > p {
            assert(!occurs_within(data@, lo as int, eof_offset as int, startxref_keyword(), pc));
        }
        assert(pc == p);
    }
    let ds = skip_eol(data, p + 9, eof_offset);
    if ds >= eof_offset {
        return Err(ParseError::InvalidStartXref { found: String::new() });
    }
    let de = skip_digits_below(data, ds, eof_offset);
    if de == ds {
        let rest = vstd::slice::slice_subrange(data, ds, eof_offset);
        return Err(ParseError::InvalidStartXref { found: truncate_for_error(rest, 16) });
    }
    match digits_value_upto(data, ds, de, 0xFFFF_FFFF_FFFF_FFFF) {
        Some(v) => Ok(v),
        None => {
            let digits = vstd::slice::slice_subrange(data, ds, de);
            Err(ParseError::InvalidStartXref { found: truncate_for_error(digits, 16) })
        },
    }
}

} // verus!

//! The trailer dictionary (ISO 32000-1 §7.5.5).

use vstd::prelude::*;
use crate::parser::error::{ErrorKind, ParseError, text};
use crate::parser::lex::{
    CR, FF, LF, SPACE, TAB, find_within, first_occurrence, is_digit, last_occurrence,
    no_occurrence, rfind_within, spec_is_digit,
};
use crate::parser::objects::{parse_dictionary, spec_dict_entries_from};
use crate::parser::startxref::{parse_startxref, spec_startxref};
use crate::types::object::{ObjectId, ObjectView, PdfDict, PdfObject, dict_lookup, view_as_u64};

verus! {

/// How far before the end of the search the `trailer` keyword is looked for.
pub const TRAILER_SEARCH_WINDOW: usize = 8192;

/// The largest trailer dictionary accepted, without its `<<` and `>>`.
pub const TRAILER_DICT_MAX_BYTES: usize = 4096;

/// The fields of a trailer that the reader uses.
#[derive(Debug, Clone, Copy, PartialEq, Eq, Structural)]
pub struct PdfTrailer {
    /// `/Size`: one more than the highest object number.
    pub size: u32,
    /// `/Root`: the document catalog.
    pub root: ObjectId,
    /// `/Info`: the document information dictionary, when it is a reference.
    pub info: Option<ObjectId>,
    /// `/Prev`: the offset of the previous cross-reference section.
    pub prev: Option<u64>,
}

/// A trailer and the cross-reference offset that `startxref` gives.
#[derive(Debug)]
pub struct ParsedTrailer {
    pub trailer: PdfTrailer,
    pub xref_offset: u64,
}

pub open spec fn kw_trailer() -> Seq<u8> { seq![0x74u8, 0x72, 0x61, 0x69, 0x6C, 0x65, 0x72] }
pub open spec fn kw_dict_open() -> Seq<u8> { seq![0x3Cu8, 0x3C] }
pub open spec fn kw_obj3() -> Seq<u8> { seq![0x6Fu8, 0x62, 0x6A] }
pub open spec fn key_size() -> Seq<u8> { seq![0x53u8, 0x69, 0x7A, 0x65] }
pub open spec fn key_root() -> Seq<u8> { seq![0x52u8, 0x6F, 0x6F, 0x74] }
pub open spec fn key_info() -> Seq<u8> { seq![0x49u8, 0x6E, 0x66, 0x6F] }
pub open spec fn key_prev() -> Seq<u8> { seq![0x50u8, 0x72, 0x65, 0x76] }

/// The trailer fields of a dictionary: `/Size` a non-negative integer
/// (kept modulo 2^32), `/Root` a reference, `/Info` kept when it is a
/// reference, and `/Prev`, when present, a non-negative integer.
pub open spec fn spec_trailer_fields(d: Seq<(Seq<u8>, ObjectView)>) -> Result<PdfTrailer, ErrorKind> {
    match dict_lookup(d, key_size()) {
        None => Err(ErrorKind::MissingRequiredKey { key: seq!['S', 'i', 'z', 'e'] }),
        Some(sz) => match view_as_u64(sz) {
            None => Err(ErrorKind::MalformedTrailer { reason: "/Size is not a non-negative integer"@ }),
            Some(size) => match dict_lookup(d, key_root()) {
                None => Err(ErrorKind::MissingRequiredKey { key: seq!['R', 'o', 'o', 't'] }),
                Some(ObjectView::Reference(root)) => {
                    let info = match dict_lookup(d, key_info()) {
                        Some(ObjectView::Reference(i)) => Some(i),
                        _ => None,
                    };
                    match dict_lookup(d, key_prev()) {
                        None => Ok(PdfTrailer { size: size as u32, root, info, prev: None }),
                        Some(p) => match view_as_u64(p) {
                            None => Err(ErrorKind::MalformedTrailer { reason: "/Prev 값이 정수가 아님"@ }),
                            Some(v) => Ok(PdfTrailer { size: size as u32, root, info, prev: Some(v) }),
                        },
                    }
                },
                Some(_) => Err(ErrorKind::InvalidObjectRef { found: "/Root is not an indirect reference"@ }),
            },
        },
    }
}

/// Reads the trailer fields of a dictionary.
pub fn extract_trailer_fields(dict: &PdfDict) -> (r: Result<PdfTrailer, ParseError>)
    ensures
        match r {
            Ok(t) => spec_trailer_fields(dict@) == Ok::<PdfTrailer, ErrorKind>(t),
            Err(e) => spec_trailer_fields(dict@) == Err::<PdfTrailer, ErrorKind>(e.kind()),
        },
{
    let ks: [u8; 4] = [0x53, 0x69, 0x7A, 0x65];
    let kr: [u8; 4] = [0x52, 0x6F, 0x6F, 0x74];
    let ki: [u8; 4] = [0x49, 0x6E, 0x66, 0x6F];
    let kp: [u8; 4] = [0x50, 0x72, 0x65, 0x76];
    assert(ks@ == key_size());
    assert(kr@ == key_root());
    assert(ki@ == key_info());
    assert(kp@ == key_prev());
    let size = match dict.get(&ks) {
        None => {
            let k = "Size";
            proof {
                reveal_strlit("Size");
                assert(k@ =~= seq!['S', 'i', 'z', 'e']);
            }
            return Err(ParseError::MissingRequiredKey { key: k });
        },
        Some(o) => match o.as_u64() {
            Some(n) => #[verifier::truncate] (n as u32),
            None => {
                return Err(ParseError::MalformedTrailer { reason: text("/Size is not a non-negative integer") });
            },
        },
    };
    let root = match dict.get(&kr) {
        None => {
            let k = "Root";
            proof {
                reveal_strlit("Root");
                assert(k@ =~= seq!['R', 'o', 'o', 't']);
            }
            return Err(ParseError::MissingRequiredKey { key: k });
        },
        Some(PdfObject::Reference(id)) => *id,
        Some(_) => {
            return Err(ParseError::InvalidObjectRef { found: text("/Root is not an indirect reference") });
        },
    };
    let info = match dict.get(&ki) {
        Some(PdfObject::Reference(id)) => Some(*id),
        _ => None,
    };
    let prev = match dict.get(&kp) {
        None => None,
        Some(o) => match o.as_u64() {
            Some(v) => Some(v),
            None => {
                return Err(ParseError::MalformedTrailer { reason: text("/Prev 값이 정수가 아님") });
            },
        },
    };
    Ok(PdfTrailer { size, root, info, prev })
}

/// ASCII white-space as `u8::is_ascii_whitespace` has it: SPACE, TAB, LF, FF, CR.
pub open spec fn is_ascii_ws(b: u8) -> bool {
    b == SPACE || b == TAB || b == LF || b == FF || b == CR
}

/// The end of the run of ASCII white-space from `pos`.
pub open spec fn ascii_ws_run_end(s: Seq<u8>, pos: int) -> int
    decreases s.len() - pos,
{
    if 0 <= pos < s.len() && is_ascii_ws(s[pos]) { ascii_ws_run_end(s, pos + 1) } else { pos }
}

/// Whether the bytes at `off` look like an indirect object header: after
/// ASCII white-space a digit, and `obj` within the next 32 bytes.
#[verifier::opaque]
pub open spec fn spec_is_xref_stream(s: Seq<u8>, off: u64) -> bool {
    if off >= s.len() {
        false
    } else {
        let k = ascii_ws_run_end(s, off as int);
        let we = if k + 32 < s.len() { k + 32 } else { s.len() as int };
        k < s.len() && spec_is_digit(s[k]) && !no_occurrence(s, k, we, kw_obj3())
    }
}

/// Whether a cross-reference stream (an indirect object) rather than a
/// table starts at `xref_offset`.
pub fn is_xref_stream(data: &[u8], xref_offset: u64) -> (r: bool)
    ensures
        r == spec_is_xref_stream(data@, xref_offset),
{
    reveal(spec_is_xref_stream);
    if xref_offset >= data.len() as u64 {
        return false;
    }
    let off = xref_offset as usize;
    let mut k = off;
    while k < data.len() && (data[k] == SPACE || data[k] == TAB || data[k] == LF || data[k] == FF || data[k] == CR)
        invariant
            off <= k <= data@.len(),
            ascii_ws_run_end(data@, k as int) == ascii_ws_run_end(data@, off as int),
        decreases data@.len() - k,
    {
        k += 1;
    }
    if k >= data.len() || !is_digit(data[k]) {
        return false;
    }
    let we = if data.len() - k > 32 { k + 32 } else { data.len() };
    let kw: [u8; 3] = [0x6F, 0x62, 0x6A];
    assert(kw@ == kw_obj3());
    find_within(data, k, we, &kw).is_some()
}

/// The trailer whose dictionary is the first `<<` from `after`: it must
/// parse, hold at most 4096 bytes between its delimiters, and carry the
/// trailer fields.
#[verifier::opaque]
pub open spec fn spec_trailer_dict(s: Seq<u8>, after: int) -> Result<PdfTrailer, ErrorKind> {
    if no_occurrence(s, after, s.len() as int, kw_dict_open()) {
        Err(ErrorKind::MissingTrailer)
    } else {
        let d = first_occurrence(s, after, s.len() as int, kw_dict_open());
        match spec_dict_entries_from(s, d + 2, d, 0, Seq::empty()) {
            Err(_) => Err(ErrorKind::MalformedTrailer { reason: "trailer 딕셔너리 파싱 실패"@ }),
            Ok((entries, dend)) => {
                if dend - d - 4 > TRAILER_DICT_MAX_BYTES {
                    Err(ErrorKind::TrailerTooLarge { limit_kb: 4 })
                } else {
                    spec_trailer_fields(entries)
                }
            },
        }
    }
}

/// Reads the trailer dictionary that follows the `trailer` keyword ending at `after`.
pub fn parse_trailer_dict(data: &[u8], after: usize) -> (r: Result<PdfTrailer, ParseError>)
    requires
        after <= data@.len(),
    ensures
        match r {
            Ok(t) => spec_trailer_dict(data@, after as int) == Ok::<PdfTrailer, ErrorKind>(t),
            Err(e) => spec_trailer_dict(data@, after as int) == Err::<PdfTrailer, ErrorKind>(e.kind()),
        },
{
    reveal(spec_trailer_dict);
    let open: [u8; 2] = [0x3C, 0x3C];
    assert(open@ == kw_dict_open());
    let d = match find_within(data, after, data.len(), &open) {
        Some(d) => d,
        None => {
            return Err(ParseError::MissingTrailer);
        },
    };
    assert(data@.subrange(d as int, d + 2) == kw_dict_open());
    assert(data@[d as int] == 0x3C && data@[d + 1] == 0x3C) by {
        assert(data@.subrange(d as int, d + 2)[0] == data@[d as int]);
        assert(data@.subrange(d as int, d + 2)[1] == data@[d + 1]);
    }
    let (dict, consumed) = match parse_dictionary(data, d, 0) {
        Ok(x) => x,
        Err(_) => {
            return Err(ParseError::MalformedTrailer { reason: text("trailer 딕셔너리 파싱 실패") });
        },
    };
    if consumed > 4 && consumed - 4 > TRAILER_DICT_MAX_BYTES {
        return Err(ParseError::TrailerTooLarge { limit_kb: TRAILER_DICT_MAX_BYTES / 1024 });
    }
    extract_trailer_fields(&dict)
}

/// The trailer found by searching back from `search_end` (the offset of
/// `%%EOF`), with the offset that `startxref` gives.
pub open spec fn spec_parse_trailer(s: Seq<u8>, search_end: int) -> Result<(PdfTrailer, u64), ErrorKind> {
    match spec_startxref(s, search_end) {
        Err(e) => Err(e),
        Ok(xref_offset) => {
            let lo = if search_end > TRAILER_SEARCH_WINDOW { search_end - TRAILER_SEARCH_WINDOW } else { 0 };
            if no_occurrence(s, lo, search_end, kw_trailer()) {
                if spec_is_xref_stream(s, xref_offset) {
                    Err(ErrorKind::XrefStreamUnsupported { xref_offset })
                } else {
                    Err(ErrorKind::MissingTrailer)
                }
            } else {
                let p = last_occurrence(s, lo, search_end, kw_trailer());
                match spec_trailer_dict(s, p + 7) {
                    Ok(t) => Ok((t, xref_offset)),
                    Err(e) => Err(e),
                }
            }
        },
    }
}

/// Reads the last trailer before `search_end` (the offset of `%%EOF`) and
/// the cross-reference offset after `startxref`.
pub fn parse_trailer(data: &[u8], search_end: usize) -> (r: Result<ParsedTrailer, ParseError>)
    requires
        search_end <= data@.len(),
    ensures
        match r {
            Ok(t) => spec_parse_trailer(data@, search_end as int) == Ok::<(PdfTrailer, u64), ErrorKind>((t.trailer, t.xref_offset)),
            Err(e) => spec_parse_trailer(data@, search_end as int) == Err::<(PdfTrailer, u64), ErrorKind>(e.kind()),
        },
{
    let xref_offset = match parse_startxref(data, search_end) {
        Ok(v) => v,
        Err(e) => {
            return Err(e);
        },
    };
    let lo = if search_end > TRAILER_SEARCH_WINDOW { search_end - TRAILER_SEARCH_WINDOW } else { 0 };
    let kw: [u8; 7] = [0x74, 0x72, 0x61, 0x69, 0x6C, 0x65, 0x72];
    assert(kw@ == kw_trailer());
    let p = match rfind_within(data, lo, search_end, &kw) {
        Some(p) => p,
        None => {
            if is_xref_stream(data, xref_offset) {
                return Err(ParseError::XrefStreamUnsupported { xref_offset });
            }
            return Err(ParseError::MissingTrailer);
        },
    };
    match parse_trailer_dict(data, p + 7) {
        Ok(trailer) => Ok(ParsedTrailer { trailer, xref_offset }),
        Err(e) => Err(e),
    }
}

} // verus!

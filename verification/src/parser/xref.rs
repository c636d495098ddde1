//! Cross-reference tables and the chain of incremental updates
//! (ISO 32000-1 §7.5.4, §7.5.6).

use vstd::prelude::*;
use crate::parser::error::{ErrorKind, ParseError, shown, text, truncate_for_error};
use crate::parser::lex::{
    CR, LF, SPACE, TAB, decimal_value, digit_run_end, digits_end, digits_value_upto, is_digit,
    lemma_decimal_value_bound, lemma_digits_end, pow10, scan_digits, skip_digits_below, spec_is_digit, spec_starts_with_at,
    starts_with_at,
};
use crate::parser::objects::{count_whitespace, ws_run_end};
use crate::parser::trailer::{
    PdfTrailer, is_xref_stream, kw_trailer, parse_trailer_dict, spec_is_xref_stream,
    spec_trailer_dict,
};
use crate::types::xref::{XrefEntry, XrefTable};

verus! {

/// How many sections the `/Prev` chain may have.
pub const MAX_XREF_CHAIN_DEPTH: usize = 100;

/// Where one cross-reference section lies and how many entries it has.
#[derive(Debug, Clone, Copy, PartialEq, Eq, Structural)]
pub struct XrefSectionInfo {
    pub offset: u64,
    pub entry_count: usize,
}

/// The merged cross-reference table of a file, its newest trailer, and the
/// sections that were read, newest first.
#[derive(Debug, Clone)]
pub struct ParsedXref {
    /// The entries of every section; where sections disagree, the newest wins.
    pub table: XrefTable,
    /// The trailer of the newest section.
    pub trailer: PdfTrailer,
    /// The sections in the order they were read.
    pub sections: Vec<XrefSectionInfo>,
}

pub open spec fn kw_xref() -> Seq<u8> { seq![0x78u8, 0x72, 0x65, 0x66] }

/// SPACE or TAB.
pub open spec fn is_blank(b: u8) -> bool {
    b == SPACE || b == TAB
}

/// The end of the run of SPACE and TAB from `pos`.
pub open spec fn blank_run_end(s: Seq<u8>, pos: int) -> int
    decreases s.len() - pos,
{
    if 0 <= pos < s.len() && is_blank(s[pos]) { blank_run_end(s, pos + 1) } else { pos }
}

/// A subsection header `start count` and its end of line (LF, CR LF or
/// CR) at `p`: the first object number, the number of entries and where
/// the entries start; or the offset of the first wrong byte.
pub open spec fn spec_subsection_header(s: Seq<u8>, p: int) -> Result<(u32, u32, int), int> {
    let e1 = digits_end(s, p);
    let b1 = blank_run_end(s, e1);
    let e2 = digits_end(s, b1);
    let b2 = blank_run_end(s, e2);
    let start = decimal_value(s.subrange(p, e1));
    let count = decimal_value(s.subrange(b1, e2));
    if e1 == p || start > u32::MAX {
        Err(p)
    } else if b1 == e1 {
        Err(e1)
    } else if e2 == b1 || count > u32::MAX {
        Err(b1)
    } else if b2 < s.len() && s[b2] == LF {
        Ok((start as u32, count as u32, b2 + 1))
    } else if b2 + 1 < s.len() && s[b2] == CR && s[b2 + 1] == LF {
        Ok((start as u32, count as u32, b2 + 2))
    } else if b2 < s.len() && s[b2] == CR {
        Ok((start as u32, count as u32, b2 + 1))
    } else {
        Err(b2)
    }
}

/// The entry of 20 bytes at `q`: ten digits, a space, five digits, a
/// space, `n` or `f`, and CR LF, SPACE LF or SPACE CR. The generation must
/// fit in a `u16`, and for a free entry the next free number in a `u32`.
pub open spec fn spec_xref_entry(s: Seq<u8>, q: int) -> Option<XrefEntry> {
    if q < 0 || q + 20 > s.len() {
        None
    } else {
        let off = decimal_value(s.subrange(q, q + 10));
        let gen = decimal_value(s.subrange(q + 11, q + 16));
        let eol_ok = (s[q + 18] == CR && s[q + 19] == LF) || (s[q + 18] == SPACE && (s[q + 19] == LF
            || s[q + 19] == CR));
        if digit_run_end(s, q, q + 10) != q + 10 || s[q + 10] != SPACE || digit_run_end(s, q + 11, q + 16)
            != q + 16 || s[q + 16] != SPACE || !eol_ok || gen > u16::MAX {
            None
        } else if s[q + 17] == 0x6E {
            Some(XrefEntry::InUse { offset: off as u64, generation: gen as u16 })
        } else if s[q + 17] == 0x66 && off <= u32::MAX {
            Some(XrefEntry::Free { next_free_obj_num: off as u32, generation: gen as u16 })
        } else {
            None
        }
    }
}

/// `k` entries from `q` for the object numbers from `num`, appended to
/// `acc`: where they end and the entries so far, or where one is wrong.
pub open spec fn spec_entries(s: Seq<u8>, q: int, num: int, k: int, acc: Seq<(u32, XrefEntry)>) -> Result<(int, Seq<(u32, XrefEntry)>), int>
    decreases k,
{
    if k <= 0 {
        Ok((q, acc))
    } else {
        match spec_xref_entry(s, q) {
            None => Err(q),
            Some(e) => if num > u32::MAX {
                Err(q)
            } else {
                spec_entries(s, q + 20, num + 1, k - 1, acc.push((num as u32, e)))
            },
        }
    }
}

/// The subsections from `pos` up to the `trailer` keyword, with `acc` read
/// so far: all entries in file order, and the trailer.
#[verifier::opaque]
pub open spec fn spec_subsections(s: Seq<u8>, pos: int, acc: Seq<(u32, XrefEntry)>) -> Result<(Seq<(u32, XrefEntry)>, PdfTrailer), ErrorKind>
    decreases s.len() - pos,
{
    let p = ws_run_end(s, pos);
    if pos < 0 || p >= s.len() {
        Err(ErrorKind::MissingTrailer)
    } else if spec_starts_with_at(s, p, kw_trailer()) {
        match spec_trailer_dict(s, p + 7) {
            Ok(t) => Ok((acc, t)),
            Err(e) => Err(e),
        }
    } else if !spec_is_digit(s[p]) {
        Err(ErrorKind::MalformedXref { offset: p as u64, reason: "expected a subsection header or `trailer`"@ })
    } else {
        match spec_subsection_header(s, p) {
            Err(at) => Err(ErrorKind::MalformedXref { offset: at as u64, reason: "malformed subsection header"@ }),
            Ok((start, count, next)) => match spec_entries(s, next, start as int, count as int, acc) {
                Err(at) => Err(ErrorKind::MalformedXref { offset: at as u64, reason: "malformed cross-reference entry"@ }),
                Ok((q, acc2)) => if pos < q <= s.len() {
                    spec_subsections(s, q, acc2)
                } else {
                    Err(ErrorKind::MalformedXref { offset: p as u64, reason: "malformed cross-reference entry"@ })
                },
            },
        }
    }
}

/// The section at `off`: the `xref` keyword, its subsections and its
/// trailer. A cross-reference stream there is reported as unsupported.
pub open spec fn spec_xref_section(s: Seq<u8>, off: int) -> Result<(Seq<(u32, XrefEntry)>, PdfTrailer), ErrorKind> {
    if spec_is_xref_stream(s, off as u64) {
        Err(ErrorKind::XrefStreamUnsupported { xref_offset: off as u64 })
    } else if !spec_starts_with_at(s, off, kw_xref()) {
        Err(ErrorKind::InvalidXrefAtOffset { offset: off as u64, found: shown(s.subrange(off, s.len() as int)) })
    } else {
        spec_subsections(s, off + 4, Seq::empty())
    }
}

/// The sections of the `/Prev` chain from `off`, newest first, each with its
/// offset, entries and trailer. `visited` holds the offsets read before;
/// `depth` is their number. A revisited offset is a cycle (checked before
/// the depth), and at most 100 sections are read.
pub open spec fn spec_xref_chain(s: Seq<u8>, off: u64, visited: Seq<u64>, depth: int) -> Result<Seq<(u64, Seq<(u32, XrefEntry)>, PdfTrailer)>, ErrorKind>
    decreases MAX_XREF_CHAIN_DEPTH - depth,
{
    if visited.contains(off) {
        Err(ErrorKind::XrefChainCycle { offset: off })
    } else if depth >= MAX_XREF_CHAIN_DEPTH {
        Err(ErrorKind::XrefChainTooDeep { max_depth: MAX_XREF_CHAIN_DEPTH })
    } else if off >= s.len() {
        Err(ErrorKind::XrefOffsetOutOfBounds { offset: off, file_size: s.len() as u64 })
    } else {
        match spec_xref_section(s, off as int) {
            Err(e) => Err(e),
            Ok((es, t)) => match t.prev {
                None => Ok(seq![(off, es, t)]),
                Some(p) => match spec_xref_chain(s, p, visited.push(off), depth + 1) {
                    Ok(rest) => Ok(seq![(off, es, t)] + rest),
                    Err(e) => Err(e),
                },
            },
        }
    }
}

/// `m` with each entry of `es` added in order, unless its object number is
/// already there.
pub open spec fn merge_entries(m: Map<u32, XrefEntry>, es: Seq<(u32, XrefEntry)>) -> Map<u32, XrefEntry>
    decreases es.len(),
{
    if es.len() == 0 {
        m
    } else {
        let m2 = merge_entries(m, es.drop_last());
        if m2.contains_key(es.last().0) { m2 } else { m2.insert(es.last().0, es.last().1) }
    }
}

/// `m` with the entries of each section added, newest section first.
pub open spec fn merge_sections(m: Map<u32, XrefEntry>, secs: Seq<(u64, Seq<(u32, XrefEntry)>, PdfTrailer)>) -> Map<u32, XrefEntry>
    decreases secs.len(),
{
    if secs.len() == 0 {
        m
    } else {
        merge_sections(merge_entries(m, secs[0].1), secs.drop_first())
    }
}

/// The section list that `parse_xref` reports for a chain.
pub open spec fn section_infos(secs: Seq<(u64, Seq<(u32, XrefEntry)>, PdfTrailer)>) -> Seq<XrefSectionInfo> {
    Seq::new(secs.len(), |i: int| XrefSectionInfo { offset: secs[i].0, entry_count: secs[i].1.len() as usize })
}

/// Reads one subsection header at `p`.
fn parse_subsection_header(data: &[u8], p: usize) -> (r: Result<(u32, u32, usize), usize>)
    requires
        p < data@.len(),
    ensures
        match r {
            Ok((a, b, n)) => spec_subsection_header(data@, p as int) == Ok::<(u32, u32, int), int>((a, b, n as int))
                && p < n <= data@.len(),
            Err(at) => spec_subsection_header(data@, p as int) == Err::<(u32, u32, int), int>(at as int),
        },
{
    let dlen = data.len();
    let e1 = scan_digits(data, p);
    proof {
        lemma_digits_end(data@, p as int);
    }
    if e1 == p {
        return Err(p);
    }
    let start = match digits_value_upto(data, p, e1, 0xFFFF_FFFF) {
        Some(v) => v as u32,
        None => {
            return Err(p);
        },
    };
    let mut b1 = e1;
    while b1 < dlen && (data[b1] == SPACE || data[b1] == TAB)
        invariant
            e1 <= b1 <= data@.len(),
            dlen == data@.len(),
            blank_run_end(data@, b1 as int) == blank_run_end(data@, e1 as int),
        decreases data@.len() - b1,
    {
        b1 += 1;
    }
    if b1 == e1 {
        return Err(e1);
    }
    let e2 = scan_digits(data, b1);
    proof {
        lemma_digits_end(data@, b1 as int);
    }
    if e2 == b1 {
        return Err(b1);
    }
    let count = match digits_value_upto(data, b1, e2, 0xFFFF_FFFF) {
        Some(v) => v as u32,
        None => {
            return Err(b1);
        },
    };
    let mut b2 = e2;
    while b2 < dlen && (data[b2] == SPACE || data[b2] == TAB)
        invariant
            e2 <= b2 <= data@.len(),
            dlen == data@.len(),
            blank_run_end(data@, b2 as int) == blank_run_end(data@, e2 as int),
        decreases data@.len() - b2,
    {
        b2 += 1;
    }
    if b2 < dlen && data[b2] == LF {
        Ok((start, count, b2 + 1))
    } else if b2 < dlen && dlen - b2 > 1 && data[b2] == CR && data[b2 + 1] == LF {
        Ok((start, count, b2 + 2))
    } else if b2 < dlen && data[b2] == CR {
        Ok((start, count, b2 + 1))
    } else {
        Err(b2)
    }
}

/// Reads the 20-byte entry at `q`.
fn parse_xref_entry(data: &[u8], q: usize) -> (r: Option<XrefEntry>)
    requires
        q <= data@.len(),
    ensures
        r == spec_xref_entry(data@, q as int),
        r is Some ==> q + 20 <= data.len(),
{
    if data.len() - q < 20 {
        return None;
    }
    let d1 = skip_digits_below(data, q, q + 10);
    let d2 = skip_digits_below(data, q + 11, q + 16);
    let eol_ok = (data[q + 18] == CR && data[q + 19] == LF) || (data[q + 18] == SPACE && (data[q + 19] == LF
        || data[q + 19] == CR));
    if d1 != q + 10 || data[q + 10] != SPACE || d2 != q + 16 || data[q + 16] != SPACE || !eol_ok {
        return None;
    }
    let generation = match digits_value_upto(data, q + 11, q + 16, 0xFFFF) {
        Some(g) => g as u16,
        None => {
            return None;
        },
    };
    let kind = data[q + 17];
    proof {
        let ds = data@.subrange(q as int, q + 10);
        assert forall|i: int| 0 <= i < ds.len() implies spec_is_digit(#[trigger] ds[i]) by {
            assert(ds[i] == data@[q + i]);
        }
        lemma_decimal_value_bound(ds);
        assert(pow10(10) == 10000000000) by {
            reveal_with_fuel(pow10, 11);
        }
    }
    if kind == 0x6E {
        match digits_value_upto(data, q, q + 10, 0xFFFF_FFFF_FFFF_FFFF) {
            Some(off) => Some(XrefEntry::InUse { offset: off, generation }),
            None => None,
        }
    } else if kind == 0x66 {
        match digits_value_upto(data, q, q + 10, 0xFFFF_FFFF) {
            Some(n) => Some(XrefEntry::Free { next_free_obj_num: n as u32, generation }),
            None => None,
        }
    } else {
        None
    }
}

/// Reads `count` entries from `q` for the object numbers from `start`,
/// appending them to `acc`; returns where they end, or where one is wrong.
fn parse_entries(data: &[u8], q: usize, start: u32, count: u32, acc: &mut Vec<(u32, XrefEntry)>) -> (r: Result<usize, usize>)
    requires
        q <= data@.len(),
    ensures
        match r {
            Ok(end) => spec_entries(data@, q as int, start as int, count as int, old(acc)@) == Ok::<(int, Seq<(u32, XrefEntry)>), int>((end as int, final(acc)@))
                && q <= end <= data@.len(),
            Err(at) => spec_entries(data@, q as int, start as int, count as int, old(acc)@) == Err::<(int, Seq<(u32, XrefEntry)>), int>(at as int),
        },
{
    let mut pos = q;
    let mut i: u64 = 0;
    while i < count as u64
        invariant
            q <= pos <= data@.len(),
            i <= count,
            spec_entries(data@, pos as int, start + i, count - i, acc@) == spec_entries(data@, q as int, start as int, count as int, old(acc)@),
        decreases count - i,
    {
        let e = match parse_xref_entry(data, pos) {
            Some(e) => e,
            None => {
                return Err(pos);
            },
        };
        let num: u64 = start as u64 + i;
        if num > 0xFFFF_FFFF {
            return Err(pos);
        }
        acc.push((num as u32, e));
        pos = pos + 20;
        i = i + 1;
    }
    Ok(pos)
}

/// Reads the section at `off`: the `xref` keyword, the subsections and the
/// trailer. Returns the entries in file order and the trailer.
pub fn parse_xref_section(data: &[u8], off: usize) -> (r: Result<(Vec<(u32, XrefEntry)>, PdfTrailer), ParseError>)
    requires
        off < data@.len(),
    ensures
        match r {
            Ok((es, t)) => spec_xref_section(data@, off as int) == Ok::<(Seq<(u32, XrefEntry)>, PdfTrailer), ErrorKind>((es@, t)),
            Err(e) => spec_xref_section(data@, off as int) == Err::<(Seq<(u32, XrefEntry)>, PdfTrailer), ErrorKind>(e.kind()),
        },
{
    let dlen = data.len();
    if is_xref_stream(data, off as u64) {
        return Err(ParseError::XrefStreamUnsupported { xref_offset: off as u64 });
    }
    let kw: [u8; 4] = [0x78, 0x72, 0x65, 0x66];
    assert(kw@ == kw_xref());
    if !starts_with_at(data, off, &kw) {
        let rest = vstd::slice::slice_subrange(data, off, dlen);
        return Err(ParseError::InvalidXrefAtOffset { offset: off as u64, found: truncate_for_error(rest, 16) });
    }
    let tk: [u8; 7] = [0x74, 0x72, 0x61, 0x69, 0x6C, 0x65, 0x72];
    assert(tk@ == kw_trailer());
    let mut acc: Vec<(u32, XrefEntry)> = Vec::new();
    let mut pos = off + 4;
    assert(acc@ =~= Seq::<(u32, XrefEntry)>::empty());
    loop
        invariant
            pos <= data@.len(),
            dlen == data@.len(),
            tk@ == kw_trailer(),
            off < data@.len(),
            !spec_is_xref_stream(data@, off as u64),
            spec_starts_with_at(data@, off as int, kw_xref()),
            spec_subsections(data@, pos as int, acc@) == spec_subsections(data@, off + 4, Seq::empty()),
        decreases data@.len() - pos,
    {
        proof {
            reveal(spec_subsections);
        }
        let ws = count_whitespace(data, pos);
        let p = pos + ws;
        if p >= dlen {
            return Err(ParseError::MissingTrailer);
        }
        if starts_with_at(data, p, &tk) {
            match parse_trailer_dict(data, p + 7) {
                Ok(t) => {
                    return Ok((acc, t));
                },
                Err(e) => {
                    return Err(e);
                },
            }
        }
        if !is_digit(data[p]) {
            return Err(ParseError::MalformedXref { offset: p as u64, reason: text("expected a subsection header or `trailer`") });
        }
        let (start, count, next) = match parse_subsection_header(data, p) {
            Ok(x) => x,
            Err(at) => {
                return Err(ParseError::MalformedXref { offset: at as u64, reason: text("malformed subsection header") });
            },
        };
        let q = match parse_entries(data, next, start, count, &mut acc) {
            Ok(q) => q,
            Err(at) => {
                return Err(ParseError::MalformedXref { offset: at as u64, reason: text("malformed cross-reference entry") });
            },
        };
        pos = q;
    }
}

/// Whether `v` holds `x`.
fn contains_offset(v: &Vec<u64>, x: u64) -> (r: bool)
    ensures
        r == v@.contains(x),
{
    let mut i: usize = 0;
    while i < v.len()
        invariant
            i <= v@.len(),
            forall|j: int| 0 <= j < i ==> v@[j] != x,
        decreases v@.len() - i,
    {
        if v[i] == x {
            return true;
        }
        i += 1;
    }
    false
}

/// Reads the chain of sections from `off`, merging their entries into
/// `table` and listing them in `sections`. Returns the trailer of the
/// section at `off`.
fn parse_xref_chain(
    data: &[u8],
    off: u64,
    visited: &mut Vec<u64>,
    depth: usize,
    table: &mut XrefTable,
    sections: &mut Vec<XrefSectionInfo>,
) -> (r: Result<PdfTrailer, ParseError>)
    requires
        depth == old(visited)@.len(),
        depth <= MAX_XREF_CHAIN_DEPTH,
    ensures
        match r {
            Ok(t) => spec_xref_chain(data@, off, old(visited)@, depth as int) is Ok && {
                let secs = spec_xref_chain(data@, off, old(visited)@, depth as int)->Ok_0;
                &&& secs.len() > 0
                &&& t == secs[0].2
                &&& final(table)@ == merge_sections(old(table)@, secs)
                &&& final(sections)@ == old(sections)@ + section_infos(secs)
            },
            Err(e) => spec_xref_chain(data@, off, old(visited)@, depth as int) == Err::<Seq<(u64, Seq<(u32, XrefEntry)>, PdfTrailer)>, ErrorKind>(e.kind()),
        },
    decreases MAX_XREF_CHAIN_DEPTH - depth,
{
    if contains_offset(visited, off) {
        return Err(ParseError::XrefChainCycle { offset: off });
    }
    if depth >= MAX_XREF_CHAIN_DEPTH {
        return Err(ParseError::XrefChainTooDeep { max_depth: MAX_XREF_CHAIN_DEPTH });
    }
    if off >= data.len() as u64 {
        return Err(ParseError::XrefOffsetOutOfBounds { offset: off, file_size: data.len() as u64 });
    }
    let (es, t) = match parse_xref_section(data, off as usize) {
        Ok(x) => x,
        Err(e) => {
            return Err(e);
        },
    };
    let ghost m0 = table@;
    let mut i: usize = 0;
    while i < es.len()
        invariant
            i <= es@.len(),
            table@ == merge_entries(m0, es@.take(i as int)),
        decreases es@.len() - i,
    {
        let (k, e) = es[i];
        proof {
            assert(es@.take(i + 1).drop_last() =~= es@.take(i as int));
        }
        table.insert_if_absent(k, e);
        i += 1;
    }
    assert(es@.take(es@.len() as int) =~= es@);
    let ghost secs0 = old(sections)@;
    sections.push(XrefSectionInfo { offset: off, entry_count: es.len() });
    let ghost cur = (off, es@, t);
    match t.prev {
        None => {
            proof {
                assert(section_infos(seq![cur]) =~= seq![XrefSectionInfo { offset: off, entry_count: es@.len() as usize }]);
                assert(seq![cur].drop_first() =~= Seq::<(u64, Seq<(u32, XrefEntry)>, PdfTrailer)>::empty());
                assert(merge_sections(m0, seq![cur]) == merge_sections(merge_entries(m0, es@), seq![cur].drop_first()));
                assert(sections@ =~= secs0 + section_infos(seq![cur]));
            }
            Ok(t)
        },
        Some(p) => {
            let ghost sections1 = sections@;
            let ghost table1 = table@;
            visited.push(off);
            match parse_xref_chain(data, p, visited, depth + 1, table, sections) {
                Ok(_) => {
                    proof {
                        let rest = spec_xref_chain(data@, p, old(visited)@.push(off), depth + 1)->Ok_0;
                        let all = seq![cur] + rest;
                        assert(all.drop_first() =~= rest);
                        assert(all[0] == cur);
                        assert(section_infos(all) =~= seq![XrefSectionInfo { offset: off, entry_count: es@.len() as usize }] + section_infos(rest));
                        assert(sections@ =~= secs0 + section_infos(all));
                        assert(merge_sections(m0, all) == merge_sections(merge_entries(m0, all[0].1), all.drop_first()));
                    }
                    Ok(t)
                },
                Err(e) => Err(e),
            }
        },
    }
}

/// Reads the cross-reference table at `xref_offset` and every older section
/// that `/Prev` leads to, merging them: where sections give an object
/// different entries, the newest wins. The trailer is that of the newest
/// section.
pub fn parse_xref(data: &[u8], xref_offset: u64) -> (r: Result<ParsedXref, ParseError>)
    ensures
        match r {
            Ok(px) => spec_xref_chain(data@, xref_offset, Seq::empty(), 0) is Ok && {
                let secs = spec_xref_chain(data@, xref_offset, Seq::empty(), 0)->Ok_0;
                &&& secs.len() > 0
                &&& px.trailer == secs[0].2
                &&& px.table@ == merge_sections(Map::empty(), secs)
                &&& px.sections@ == section_infos(secs)
            },
            Err(e) => spec_xref_chain(data@, xref_offset, Seq::empty(), 0) == Err::<Seq<(u64, Seq<(u32, XrefEntry)>, PdfTrailer)>, ErrorKind>(e.kind()),
        },
{
    let mut table = XrefTable::new();
    let mut visited: Vec<u64> = Vec::new();
    let mut sections: Vec<XrefSectionInfo> = Vec::new();
    assert(visited@ =~= Seq::<u64>::empty());
    match parse_xref_chain(data, xref_offset, &mut visited, 0, &mut table, &mut sections) {
        Ok(trailer) => {
            assert(sections@ =~= Seq::<XrefSectionInfo>::empty() + sections@);
            Ok(ParsedXref { table, trailer, sections })
        },
        Err(e) => Err(e),
    }
}

} // verus!

verus! {

/// Merging more entries never changes one that is already in the table.
pub proof fn lemma_merge_entries_keeps(m: Map<u32, XrefEntry>, es: Seq<(u32, XrefEntry)>)
    ensures
        forall|k: u32| #[trigger] m.contains_key(k) ==> merge_entries(m, es).contains_key(k) && merge_entries(m, es)[k] == m[k],
    decreases es.len(),
{
    if es.len() > 0 {
        lemma_merge_entries_keeps(m, es.drop_last());
    }
}

/// Merging older sections never changes an entry that is already in the table.
pub proof fn lemma_merge_sections_keeps(m: Map<u32, XrefEntry>, secs: Seq<(u64, Seq<(u32, XrefEntry)>, PdfTrailer)>)
    ensures
        forall|k: u32| #[trigger] m.contains_key(k) ==> merge_sections(m, secs).contains_key(k) && merge_sections(m, secs)[k] == m[k],
    decreases secs.len(),
{
    if secs.len() > 0 {
        lemma_merge_entries_keeps(m, secs[0].1);
        lemma_merge_sections_keeps(merge_entries(m, secs[0].1), secs.drop_first());
    }
}

/// Within one section, the first listing of an object number is the one kept.
pub proof fn lemma_first_listing_wins(m: Map<u32, XrefEntry>, es: Seq<(u32, XrefEntry)>, i: int)
    requires
        0 <= i < es.len(),
        !m.contains_key(es[i].0),
        forall|j: int| 0 <= j < i ==> #[trigger] es[j].0 != es[i].0,
    ensures
        merge_entries(m, es).contains_key(es[i].0),
        merge_entries(m, es)[es[i].0] == es[i].1,
    decreases es.len(),
{
    if i == es.len() - 1 {
        let pre = es.drop_last();
        assert(!merge_entries(m, pre).contains_key(es[i].0)) by {
            lemma_merge_entries_domain(m, pre, es[i].0);
        }
    } else {
        lemma_first_listing_wins(m, es.drop_last(), i);
        lemma_merge_entries_keeps(merge_entries(m, es.drop_last()), seq![es.last()]);
        assert(es.drop_last()[i] == es[i]);
    }
}

/// An object number is in the merged table only if it was there before or an
/// entry lists it.
pub proof fn lemma_merge_entries_domain(m: Map<u32, XrefEntry>, es: Seq<(u32, XrefEntry)>, k: u32)
    ensures
        merge_entries(m, es).contains_key(k) <==> (m.contains_key(k) || exists|j: int| 0 <= j < es.len() && #[trigger] es[j].0 == k),
    decreases es.len(),
{
    if es.len() > 0 {
        let pre = es.drop_last();
        lemma_merge_entries_domain(m, pre, k);
        if exists|j: int| 0 <= j < es.len() && #[trigger] es[j].0 == k {
            let j = choose|j: int| 0 <= j < es.len() && #[trigger] es[j].0 == k;
            if j < es.len() - 1 {
                assert(pre[j].0 == k);
            }
        }
        if exists|j: int| 0 <= j < pre.len() && #[trigger] pre[j].0 == k {
            let j = choose|j: int| 0 <= j < pre.len() && #[trigger] pre[j].0 == k;
            assert(es[j].0 == k);
        }
    }
}

/// The newest section decides: an object that the newest section lists has,
/// in the merged table, the entry of its first listing there, whatever the
/// older sections say.
pub proof fn lemma_newest_section_wins(secs: Seq<(u64, Seq<(u32, XrefEntry)>, PdfTrailer)>, i: int)
    requires
        secs.len() > 0,
        0 <= i < secs[0].1.len(),
        forall|j: int| 0 <= j < i ==> #[trigger] secs[0].1[j].0 != secs[0].1[i].0,
    ensures
        merge_sections(Map::empty(), secs).contains_key(secs[0].1[i].0),
        merge_sections(Map::empty(), secs)[secs[0].1[i].0] == secs[0].1[i].1,
{
    lemma_first_listing_wins(Map::empty(), secs[0].1, i);
    lemma_merge_sections_keeps(merge_entries(Map::empty(), secs[0].1), secs.drop_first());
}

} // verus!

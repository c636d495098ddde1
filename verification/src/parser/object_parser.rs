//! A light scanner over object syntax: it finds where values end without
//! building them (the end of a dictionary, of a literal string, of any one
//! value) and reads bare integers and `N G R` references.

use vstd::prelude::*;
use crate::parser::error::truncate_for_error;
use crate::parser::lex::{
    digits_end, digits_value_upto, decimal_value, is_digit, is_name_char, is_whitespace,
    lemma_digits_end, scan_digits, spec_is_digit, spec_is_name_char, spec_is_whitespace,
    spec_starts_with_at, starts_with_at, BACKSLASH, GT, LBRACKET, LPAREN, LT, RBRACKET, RPAREN,
    SLASH,
};
use crate::parser::objects::{kw_false, kw_null, kw_true};
use crate::types::ObjectId;

verus! {

/// `R`, which ends an indirect reference.
pub const REF_R: u8 = 0x52;

// ─── runs ────────────────────────────────────────────────────────────────

/// The first position from `i` that is not white-space, or the end.
pub open spec fn ws_end(s: Seq<u8>, i: int) -> int
    decreases s.len() - i,
{
    if 0 <= i < s.len() && spec_is_whitespace(s[i]) { ws_end(s, i + 1) } else { i }
}

/// The first position from `i` that holds `>`, or the end.
pub open spec fn gt_pos(s: Seq<u8>, i: int) -> int
    decreases s.len() - i,
{
    if 0 <= i < s.len() && s[i] != GT { gt_pos(s, i + 1) } else { i }
}

/// The first position from `i` that does not hold a name character, or the end.
pub open spec fn name_end(s: Seq<u8>, i: int) -> int
    decreases s.len() - i,
{
    if 0 <= i < s.len() && spec_is_name_char(s[i]) { name_end(s, i + 1) } else { i }
}

/// A byte that ends a bare number: white-space, `/`, `>` or `]`.
pub open spec fn is_value_delim(b: u8) -> bool {
    spec_is_whitespace(b) || b == SLASH || b == GT || b == RBRACKET
}

/// The first position from `i` that holds a number delimiter, or the end.
pub open spec fn delim_pos(s: Seq<u8>, i: int) -> int
    decreases s.len() - i,
{
    if 0 <= i < s.len() && !is_value_delim(s[i]) { delim_pos(s, i + 1) } else { i }
}

pub proof fn lemma_ws_end(s: Seq<u8>, i: int)
    requires
        0 <= i <= s.len(),
    ensures
        i <= ws_end(s, i) <= s.len(),
        forall|k: int| i <= k < ws_end(s, i) ==> spec_is_whitespace(#[trigger] s[k]),
        ws_end(s, i) < s.len() ==> !spec_is_whitespace(s[ws_end(s, i)]),
    decreases s.len() - i,
{
    if i < s.len() && spec_is_whitespace(s[i]) {
        lemma_ws_end(s, i + 1);
    }
}

pub proof fn lemma_gt_pos(s: Seq<u8>, i: int)
    requires
        0 <= i <= s.len(),
    ensures
        i <= gt_pos(s, i) <= s.len(),
        gt_pos(s, i) < s.len() ==> s[gt_pos(s, i)] == GT,
    decreases s.len() - i,
{
    if i < s.len() && s[i] != GT {
        lemma_gt_pos(s, i + 1);
    }
}

pub proof fn lemma_name_end(s: Seq<u8>, i: int)
    requires
        0 <= i <= s.len(),
    ensures
        i <= name_end(s, i) <= s.len(),
    decreases s.len() - i,
{
    if i < s.len() && spec_is_name_char(s[i]) {
        lemma_name_end(s, i + 1);
    }
}

pub proof fn lemma_delim_pos(s: Seq<u8>, i: int)
    requires
        0 <= i <= s.len(),
    ensures
        i <= delim_pos(s, i) <= s.len(),
        forall|k: int| i <= k < delim_pos(s, i) ==> !is_value_delim(#[trigger] s[k]),
    decreases s.len() - i,
{
    if i < s.len() && !is_value_delim(s[i]) {
        lemma_delim_pos(s, i + 1);
    }
}

/// The number of white-space bytes at the start of `data`.
pub fn skip_whitespace(data: &[u8]) -> (r: usize)
    ensures
        r == ws_end(data@, 0),
{
    proof { lemma_ws_end(data@, 0); }
    let mut i: usize = 0;
    while i < data.len() && is_whitespace(data[i])
        invariant
            i <= data@.len(),
            ws_end(data@, i as int) == ws_end(data@, 0),
        decreases data@.len() - i,
    {
        i += 1;
    }
    i
}

/// `ws_end` from `i`, as a position.
fn ws_from(data: &[u8], i: usize) -> (r: usize)
    requires
        i <= data@.len(),
    ensures
        r == ws_end(data@, i as int),
        i <= r <= data@.len(),
{
    proof { lemma_ws_end(data@, i as int); }
    let mut k = i;
    while k < data.len() && is_whitespace(data[k])
        invariant
            i <= k <= data@.len(),
            ws_end(data@, k as int) == ws_end(data@, i as int),
        decreases data@.len() - k,
    {
        k += 1;
    }
    k
}

/// `delim_pos` from `i`, as a position.
fn delim_from(data: &[u8], i: usize) -> (r: usize)
    requires
        i <= data@.len(),
    ensures
        r == delim_pos(data@, i as int),
        i <= r <= data@.len(),
{
    proof { lemma_delim_pos(data@, i as int); }
    let mut k = i;
    while k < data.len() && !(is_whitespace(data[k]) || data[k] == SLASH || data[k] == GT || data[k] == RBRACKET)
        invariant
            i <= k <= data@.len(),
            delim_pos(data@, k as int) == delim_pos(data@, i as int),
        decreases data@.len() - k,
    {
        k += 1;
    }
    k
}

/// `gt_pos` from `i`, as a position.
fn gt_from(data: &[u8], i: usize) -> (r: usize)
    requires
        i <= data@.len(),
    ensures
        r == gt_pos(data@, i as int),
        i <= r <= data@.len(),
{
    proof { lemma_gt_pos(data@, i as int); }
    let mut k = i;
    while k < data.len() && data[k] != GT
        invariant
            i <= k <= data@.len(),
            gt_pos(data@, k as int) == gt_pos(data@, i as int),
        decreases data@.len() - k,
    {
        k += 1;
    }
    k
}

// ─── literal strings ─────────────────────────────────────────────────────

/// Where a literal string ends when scanning resumes at `i` with `depth`
/// parentheses open: a backslash skips the byte after it, `(` opens, `)`
/// closes; the scan stops once none is open or at the end of the input
/// (a backslash in last place steps one past it).
pub open spec fn lit_end(s: Seq<u8>, i: int, depth: nat) -> int
    decreases s.len() + 2 - i,
{
    if i >= s.len() || depth == 0 {
        i
    } else if s[i] == BACKSLASH {
        lit_end(s, i + 2, depth)
    } else if s[i] == LPAREN {
        lit_end(s, i + 1, depth + 1)
    } else if s[i] == RPAREN {
        lit_end(s, i + 1, (depth - 1) as nat)
    } else {
        lit_end(s, i + 1, depth)
    }
}

pub proof fn lemma_lit_end(s: Seq<u8>, i: int, depth: nat)
    requires
        0 <= i <= s.len() + 1,
    ensures
        i <= lit_end(s, i, depth) <= s.len() + 1,
    decreases s.len() + 2 - i,
{
    if i >= s.len() || depth == 0 {
    } else if s[i] == BACKSLASH {
        lemma_lit_end(s, i + 2, depth);
    } else if s[i] == LPAREN {
        lemma_lit_end(s, i + 1, depth + 1);
    } else if s[i] == RPAREN {
        lemma_lit_end(s, i + 1, (depth - 1) as nat);
    } else {
        lemma_lit_end(s, i + 1, depth);
    }
}

/// The length of the literal string that opens at `data[0]`, its closing
/// parenthesis included; when it never closes, the length of the input
/// (one more when the input ends with a backslash).
pub fn skip_literal_string(data: &[u8]) -> (r: usize)
    requires
        data.len() + 1 < usize::MAX,
    ensures
        r == lit_end(data@, 1, 1),
        1 <= r <= data@.len() + 1,
{
    proof { lemma_lit_end(data@, 1, 1); }
    let mut depth: usize = 1;
    let mut i: usize = 1;
    while i < data.len() && depth > 0
        invariant
            1 <= i <= data@.len() + 1,
            data.len() + 1 < usize::MAX,
            depth <= i,
            lit_end(data@, i as int, depth as nat) == lit_end(data@, 1, 1),
        decreases data@.len() + 2 - i,
    {
        if data[i] == BACKSLASH {
            i += 2;
        } else if data[i] == LPAREN {
            depth += 1;
            i += 1;
        } else if data[i] == RPAREN {
            depth -= 1;
            i += 1;
        } else {
            i += 1;
        }
    }
    i
}

// ─── dictionaries ────────────────────────────────────────────────────────

/// Where the `>>` that closes a dictionary lies, scanning from `i` with
/// `depth` dictionaries open: nested `<< >>` count, literal strings and
/// hexadecimal strings are stepped over; `None` when the input ends first.
pub open spec fn dict_close(s: Seq<u8>, i: int, depth: nat) -> Option<int>
    decreases s.len() + 1 - i,
{
    if !(0 <= i && i + 1 < s.len()) {
        None
    } else if s[i] == LT && s[i + 1] == LT {
        dict_close(s, i + 2, depth + 1)
    } else if s[i] == GT && s[i + 1] == GT {
        if depth <= 1 { Some(i) } else { dict_close(s, i + 2, (depth - 1) as nat) }
    } else if s[i] == LPAREN {
        proof { lemma_lit_end(s.subrange(i, s.len() as int), 1, 1); }
        dict_close(s, i + lit_end(s.subrange(i, s.len() as int), 1, 1), depth)
    } else if s[i] == LT {
        proof { lemma_gt_pos(s, i + 1); }
        let j = gt_pos(s, i + 1);
        dict_close(s, if j < s.len() { j + 1 } else { j }, depth)
    } else {
        dict_close(s, i + 1, depth)
    }
}

/// Given the bytes just after a `<<`, the position of the first `>` of the
/// `>>` that closes it.
pub fn find_dict_close(data: &[u8]) -> (r: Option<usize>)
    requires
        data.len() + 1 < usize::MAX,
    ensures
        match r {
            Some(k) => dict_close(data@, 0, 1) == Some(k as int),
            None => dict_close(data@, 0, 1) is None,
        },
        r matches Some(k) ==> k + 1 < data@.len(),
{
    let mut depth: usize = 1;
    let mut i: usize = 0;
    while i + 1 < data.len()
        invariant
            i <= data@.len() + 1,
            data.len() + 1 < usize::MAX,
            1 <= depth <= i + 1,
            dict_close(data@, i as int, depth as nat) == dict_close(data@, 0, 1),
        decreases data@.len() + 1 - i,
    {
        if data[i] == LT && data[i + 1] == LT {
            depth += 1;
            i += 2;
        } else if data[i] == GT && data[i + 1] == GT {
            if depth == 1 {
                return Some(i);
            }
            depth -= 1;
            i += 2;
        } else if data[i] == LPAREN {
            let rest = vstd::slice::slice_subrange(data, i, data.len());
            assert(rest@ =~= data@.subrange(i as int, data@.len() as int));
            let n = skip_literal_string(rest);
            i += n;
        } else if data[i] == LT {
            let j = gt_from(data, i + 1);
            i = if j < data.len() { j + 1 } else { j };
        } else {
            i += 1;
        }
    }
    None
}


// ─── any value ───────────────────────────────────────────────────────────

/// Where an array ends when scanning resumes at `i` with `depth` brackets
/// open; literal strings inside are stepped over.
pub open spec fn arr_end(s: Seq<u8>, i: int, depth: nat) -> int
    decreases s.len() + 1 - i,
{
    if !(0 <= i < s.len()) || depth == 0 {
        i
    } else if s[i] == LBRACKET {
        arr_end(s, i + 1, depth + 1)
    } else if s[i] == RBRACKET {
        arr_end(s, i + 1, (depth - 1) as nat)
    } else if s[i] == LPAREN {
        proof { lemma_lit_end(s.subrange(i, s.len() as int), 1, 1); }
        arr_end(s, i + lit_end(s.subrange(i, s.len() as int), 1, 1), depth)
    } else {
        arr_end(s, i + 1, depth)
    }
}

pub proof fn lemma_arr_end(s: Seq<u8>, i: int, depth: nat)
    requires
        0 <= i <= s.len() + 1,
    ensures
        i <= arr_end(s, i, depth) <= s.len() + 1,
    decreases s.len() + 1 - i,
{
    if !(0 <= i < s.len()) || depth == 0 {
    } else if s[i] == LBRACKET {
        lemma_arr_end(s, i + 1, depth + 1);
    } else if s[i] == RBRACKET {
        lemma_arr_end(s, i + 1, (depth - 1) as nat);
    } else if s[i] == LPAREN {
        lemma_lit_end(s.subrange(i, s.len() as int), 1, 1);
        lemma_arr_end(s, i + lit_end(s.subrange(i, s.len() as int), 1, 1), depth);
    } else {
        lemma_arr_end(s, i + 1, depth);
    }
}

/// How many bytes the value at the start of `s` takes: a dictionary up to
/// its closing `>>` (or, unclosed, the whole input and two more), a literal
/// string, an array up to its closing `]`, a hexadecimal string up to its
/// `>`, a name, `true`, `false`, `null`, or else a bare token up to a
/// delimiter, taken together with what follows when the whole reads
/// `N G R`.
pub open spec fn spec_skip_value(s: Seq<u8>) -> int {
    if s.len() == 0 {
        0
    } else if s.len() >= 2 && s[0] == LT && s[1] == LT {
        let inner = s.skip(2);
        (match dict_close(inner, 0, 1) {
            Some(c) => c,
            None => inner.len() as int,
        }) + 4
    } else if s[0] == LPAREN {
        lit_end(s, 1, 1)
    } else if s[0] == LBRACKET {
        arr_end(s, 1, 1)
    } else if s[0] == LT {
        let p = gt_pos(s, 0);
        if p < s.len() { p + 1 } else { s.len() as int }
    } else if s[0] == SLASH {
        name_end(s, 1)
    } else if spec_starts_with_at(s, 0, kw_true()) {
        4
    } else if spec_starts_with_at(s, 0, kw_false()) {
        5
    } else if spec_starts_with_at(s, 0, kw_null()) {
        4
    } else {
        let end1 = delim_pos(s, 0);
        let i = ws_end(s, end1);
        let end2 = delim_pos(s, i);
        let j = ws_end(s, end2);
        if end1 > 0 && (forall|k: int| 0 <= k < end1 ==> spec_is_digit(#[trigger] s[k]))
            && i < s.len() && spec_is_digit(s[i]) && j < s.len() && s[j] == REF_R {
            j + 1
        } else {
            end1
        }
    }
}

/// The number of bytes that the value at the start of `data` takes.
pub fn skip_value(data: &[u8]) -> (r: usize)
    requires
        data.len() + 4 < usize::MAX,
    ensures
        r == spec_skip_value(data@),
{
    if data.len() == 0 {
        return 0;
    }
    if data.len() >= 2 && data[0] == LT && data[1] == LT {
        let inner = vstd::slice::slice_subrange(data, 2, data.len());
        assert(inner@ =~= data@.skip(2));
        let close = match find_dict_close(inner) {
            Some(c) => c,
            None => inner.len(),
        };
        return close + 4;
    }
    if data[0] == LPAREN {
        return skip_literal_string(data);
    }
    if data[0] == LBRACKET {
        proof { lemma_arr_end(data@, 1, 1); }
        let mut depth: usize = 1;
        let mut i: usize = 1;
        while i < data.len() && depth > 0
            invariant
                1 <= i <= data@.len() + 1,
                data.len() + 4 < usize::MAX,
                depth <= i,
                arr_end(data@, i as int, depth as nat) == arr_end(data@, 1, 1),
            decreases data@.len() + 1 - i,
        {
            if data[i] == LBRACKET {
                depth += 1;
                i += 1;
            } else if data[i] == RBRACKET {
                depth -= 1;
                i += 1;
            } else if data[i] == LPAREN {
                let rest = vstd::slice::slice_subrange(data, i, data.len());
                assert(rest@ =~= data@.subrange(i as int, data@.len() as int));
                let n = skip_literal_string(rest);
                i += n;
            } else {
                i += 1;
            }
        }
        return i;
    }
    if data[0] == LT {
        let p = gt_from(data, 0);
        return if p < data.len() { p + 1 } else { data.len() };
    }
    if data[0] == SLASH {
        proof { lemma_name_end(data@, 1); }
        let mut k: usize = 1;
        while k < data.len() && is_name_char(data[k])
            invariant
                1 <= k <= data@.len(),
                name_end(data@, k as int) == name_end(data@, 1),
            decreases data@.len() - k,
        {
            k += 1;
        }
        return k;
    }
    let t: [u8; 4] = [0x74, 0x72, 0x75, 0x65];
    let f: [u8; 5] = [0x66, 0x61, 0x6C, 0x73, 0x65];
    let n: [u8; 4] = [0x6E, 0x75, 0x6C, 0x6C];
    assert(t@ == kw_true());
    assert(f@ == kw_false());
    assert(n@ == kw_null());
    if starts_with_at(data, 0, &t) {
        return 4;
    }
    if starts_with_at(data, 0, &f) {
        return 5;
    }
    if starts_with_at(data, 0, &n) {
        return 4;
    }
    let end1 = delim_from(data, 0);
    let mut all_digits = end1 > 0;
    let mut k: usize = 0;
    while k < end1
        invariant
            k <= end1 <= data@.len(),
            all_digits <==> (end1 > 0 && forall|m: int| 0 <= m < k ==> spec_is_digit(#[trigger] data@[m])),
        decreases end1 - k,
    {
        if !is_digit(data[k]) {
            all_digits = false;
        }
        k += 1;
    }
    if all_digits {
        let i = ws_from(data, end1);
        if i < data.len() && is_digit(data[i]) {
            let end2 = delim_from(data, i);
            let j = ws_from(data, end2);
            if j < data.len() && data[j] == REF_R {
                return j + 1;
            }
        }
    }
    end1
}

// ─── numbers and references ──────────────────────────────────────────────

/// The unsigned integer written at the start of `s` and the number of its
/// digits; `None` when `s` does not start with a digit or the value does
/// not fit in 64 bits.
pub open spec fn spec_parse_u64_val(s: Seq<u8>) -> Option<(u64, int)> {
    if s.len() == 0 || !spec_is_digit(s[0]) {
        None
    } else {
        let end = digits_end(s, 0);
        let v = decimal_value(s.take(end));
        if v <= u64::MAX { Some((v as u64, end)) } else { None }
    }
}

/// Reads the unsigned integer at the start of `data`.
pub fn parse_u64_val(data: &[u8]) -> (r: Option<(u64, usize)>)
    ensures
        match r {
            Some((v, n)) => spec_parse_u64_val(data@) == Some((v, n as int)),
            None => spec_parse_u64_val(data@) is None,
        },
{
    if data.len() == 0 || !is_digit(data[0]) {
        return None;
    }
    let end = scan_digits(data, 0);
    proof { lemma_digits_end(data@, 0); }
    assert(data@.subrange(0, end as int) =~= data@.take(end as int));
    match digits_value_upto(data, 0, end, u64::MAX) {
        Some(v) => Some((v, end)),
        None => None,
    }
}

/// The reference `N G R` at the start of `s` and the number of bytes it
/// takes: `N` fits in 32 bits, `G` in 16, white-space may separate the
/// parts, and the `R` is not followed by a name character.
pub open spec fn spec_parse_indirect_ref(s: Seq<u8>) -> Option<(ObjectId, int)> {
    if s.len() == 0 || !spec_is_digit(s[0]) {
        None
    } else {
        let end1 = digits_end(s, 0);
        let number = decimal_value(s.take(end1));
        let i = ws_end(s, end1);
        if number > u32::MAX || i >= s.len() || !spec_is_digit(s[i]) {
            None
        } else {
            let gend = digits_end(s, i);
            let generation = decimal_value(s.subrange(i, gend));
            let k = ws_end(s, gend);
            if generation > u16::MAX || k >= s.len() || s[k] != REF_R
                || (k + 1 < s.len() && spec_is_name_char(s[k + 1])) {
                None
            } else {
                Some((ObjectId { number: number as u32, generation: generation as u16 }, k + 1))
            }
        }
    }
}

/// Reads the indirect reference at the start of `data`.
pub fn parse_indirect_ref(data: &[u8]) -> (r: Option<(ObjectId, usize)>)
    ensures
        match r {
            Some((id, n)) => spec_parse_indirect_ref(data@) == Some((id, n as int)),
            None => spec_parse_indirect_ref(data@) is None,
        },
{
    if data.len() == 0 || !is_digit(data[0]) {
        return None;
    }
    let end1 = scan_digits(data, 0);
    proof { lemma_digits_end(data@, 0); }
    assert(data@.subrange(0, end1 as int) =~= data@.take(end1 as int));
    let number = match digits_value_upto(data, 0, end1, 0xFFFF_FFFF) {
        Some(v) => v as u32,
        None => {
            return None;
        },
    };
    let i = ws_from(data, end1);
    if i >= data.len() || !is_digit(data[i]) {
        return None;
    }
    let gend = scan_digits(data, i);
    proof { lemma_digits_end(data@, i as int); }
    let generation = match digits_value_upto(data, i, gend, 0xFFFF) {
        Some(v) => v as u16,
        None => {
            return None;
        },
    };
    let k = ws_from(data, gend);
    if k >= data.len() || data[k] != REF_R {
        return None;
    }
    if k + 1 < data.len() && is_name_char(data[k + 1]) {
        return None;
    }
    Some((ObjectId { number, generation }, k + 1))
}

/// The first `max` bytes of `data` (or all of them), as text.
pub fn peek_str(data: &[u8], max: usize) -> (r: String)
    ensures
        r@ == crate::parser::error::lossy_utf8(data@.take(if data@.len() < max { data@.len() as int } else { max as int })),
{
    truncate_for_error(data, max)
}

} // verus!

//! Byte classes and low-level scanning shared by all parsers.

use vstd::prelude::*;

verus! {

pub const NUL: u8 = 0x00;
pub const TAB: u8 = 0x09;
pub const LF: u8 = 0x0A;
pub const FF: u8 = 0x0C;
pub const CR: u8 = 0x0D;
pub const SPACE: u8 = 0x20;
pub const DQUOTE: u8 = 0x22;
pub const HASH: u8 = 0x23;
pub const PERCENT: u8 = 0x25;
pub const QUOTE: u8 = 0x27;
pub const LPAREN: u8 = 0x28;
pub const RPAREN: u8 = 0x29;
pub const STAR: u8 = 0x2A;
pub const PLUS: u8 = 0x2B;
pub const MINUS: u8 = 0x2D;
pub const DOT: u8 = 0x2E;
pub const SLASH: u8 = 0x2F;
pub const DIGIT_0: u8 = 0x30;
pub const DIGIT_9: u8 = 0x39;
pub const LT: u8 = 0x3C;
pub const GT: u8 = 0x3E;
pub const LBRACKET: u8 = 0x5B;
pub const BACKSLASH: u8 = 0x5C;
pub const RBRACKET: u8 = 0x5D;
pub const LBRACE: u8 = 0x7B;
pub const RBRACE: u8 = 0x7D;

/// PDF white-space (ISO 32000-1 §7.2.2): NUL, TAB, LF, FF, CR, SPACE.
pub open spec fn spec_is_whitespace(b: u8) -> bool {
    b == SPACE || b == TAB || b == CR || b == LF || b == FF || b == NUL
}

pub fn is_whitespace(b: u8) -> (r: bool)
    ensures
        r == spec_is_whitespace(b),
{
    b == SPACE || b == TAB || b == CR || b == LF || b == FF || b == NUL
}

/// A byte that may continue a bare token: a visible ASCII character that is
/// not a delimiter.
pub open spec fn spec_is_name_char(b: u8) -> bool {
    0x21 <= b <= 0x7E && b != SLASH && b != LT && b != GT && b != LBRACKET && b != RBRACKET
        && b != LPAREN && b != RPAREN && b != LBRACE && b != RBRACE && b != PERCENT
}

pub fn is_name_char(b: u8) -> (r: bool)
    ensures
        r == spec_is_name_char(b),
{
    0x21 <= b && b <= 0x7E && b != SLASH && b != LT && b != GT && b != LBRACKET && b != RBRACKET
        && b != LPAREN && b != RPAREN && b != LBRACE && b != RBRACE && b != PERCENT
}

/// An ASCII decimal digit.
pub open spec fn spec_is_digit(b: u8) -> bool {
    DIGIT_0 <= b <= DIGIT_9
}

pub fn is_digit(b: u8) -> (r: bool)
    ensures
        r == spec_is_digit(b),
{
    DIGIT_0 <= b && b <= DIGIT_9
}

/// The position reached from `pos` after white-space and comments
/// (`%` up to the end of the line). `in_comment` says whether `pos` lies
/// inside a comment.
pub open spec fn skip_ws_from(s: Seq<u8>, pos: int, in_comment: bool) -> int
    decreases s.len() - pos,
{
    if pos < 0 || pos >= s.len() {
        pos
    } else if in_comment {
        if s[pos] == LF || s[pos] == CR {
            skip_ws_from(s, pos + 1, false)
        } else {
            skip_ws_from(s, pos + 1, true)
        }
    } else if spec_is_whitespace(s[pos]) {
        skip_ws_from(s, pos + 1, false)
    } else if s[pos] == PERCENT {
        skip_ws_from(s, pos + 1, true)
    } else {
        pos
    }
}

/// The first position at or after `pos` that is neither white-space nor
/// inside a comment (ISO 32000-1 §7.2.2, §7.2.3).
pub open spec fn skip_ws(s: Seq<u8>, pos: int) -> int {
    skip_ws_from(s, pos, false)
}

/// Skipping never moves backwards, and stops at the end of the data.
pub proof fn lemma_skip_ws_bounds(s: Seq<u8>, pos: int, in_comment: bool)
    ensures
        skip_ws_from(s, pos, in_comment) >= pos,
        0 <= pos <= s.len() ==> skip_ws_from(s, pos, in_comment) <= s.len(),
        0 <= pos ==> (skip_ws_from(s, pos, in_comment) < s.len() ==> !spec_is_whitespace(
            s[skip_ws_from(s, pos, in_comment)],
        ) && s[skip_ws_from(s, pos, in_comment)] != PERCENT),
    decreases s.len() - pos,
{
    if 0 <= pos < s.len() {
        if in_comment {
            if s[pos] == LF || s[pos] == CR {
                lemma_skip_ws_bounds(s, pos + 1, false);
            } else {
                lemma_skip_ws_bounds(s, pos + 1, true);
            }
        } else if spec_is_whitespace(s[pos]) {
            lemma_skip_ws_bounds(s, pos + 1, false);
        } else if s[pos] == PERCENT {
            lemma_skip_ws_bounds(s, pos + 1, true);
        }
    }
}

/// Skips white-space and comments from `start`.
pub fn skip_whitespace_and_comments(data: &[u8], start: usize) -> (r: usize)
    ensures
        r == skip_ws(data@, start as int),
        r >= start,
        start <= data@.len() ==> r <= data@.len(),
{
    proof {
        lemma_skip_ws_bounds(data@, start as int, false);
    }
    if start >= data.len() {
        return start;
    }
    let mut pos = start;
    loop
        invariant
            pos >= start,
            pos <= data@.len(),
            skip_ws_from(data@, pos as int, false) == skip_ws(data@, start as int),
        decreases data@.len() - pos,
    {
        if pos >= data.len() {
            return pos;
        }
        let b = data[pos];
        if is_whitespace(b) {
            pos += 1;
        } else if b == PERCENT {
            let ghost p0 = pos;
            pos += 1;
            while pos < data.len() && data[pos] != LF && data[pos] != CR
                invariant
                    pos > p0,
                    pos >= start,
                    pos <= data@.len(),
                    skip_ws_from(data@, pos as int, true) == skip_ws(data@, start as int),
                decreases data@.len() - pos,
            {
                pos += 1;
            }
            if pos < data.len() {
                pos += 1;
            }
        } else {
            return pos;
        }
    }
}

/// Whether `pat` occurs in `s` at `pos`.
pub open spec fn spec_starts_with_at(s: Seq<u8>, pos: int, pat: Seq<u8>) -> bool {
    0 <= pos && pos + pat.len() <= s.len() && s.subrange(pos, pos + pat.len()) == pat
}

/// Whether `pat` occurs in `data` at `pos`.
pub fn starts_with_at(data: &[u8], pos: usize, pat: &[u8]) -> (r: bool)
    ensures
        r == spec_starts_with_at(data@, pos as int, pat@),
{
    if pos > data.len() || pat.len() > data.len() - pos {
        return false;
    }
    let mut i: usize = 0;
    while i < pat.len()
        invariant
            pos + pat@.len() <= data@.len(),
            pos + pat.len() <= data.len(),
            i <= pat@.len(),
            forall|j: int| 0 <= j < i ==> data@[pos + j] == pat@[j],
        decreases pat@.len() - i,
    {
        assert(pos + i < data@.len());
        if data[pos + i] != pat[i] {
            assert(data@.subrange(pos as int, pos + pat@.len())[i as int] != pat@[i as int]);
            return false;
        }
        i += 1;
    }
    assert(data@.subrange(pos as int, pos + pat@.len()) =~= pat@);
    true
}

/// The end of the run of digits that starts at `pos`.
pub open spec fn digits_end(s: Seq<u8>, pos: int) -> int
    decreases s.len() - pos,
{
    if 0 <= pos < s.len() && spec_is_digit(s[pos]) {
        digits_end(s, pos + 1)
    } else {
        pos
    }
}

pub proof fn lemma_digits_end(s: Seq<u8>, pos: int)
    requires
        0 <= pos <= s.len(),
    ensures
        pos <= digits_end(s, pos) <= s.len(),
        forall|i: int| pos <= i < digits_end(s, pos) ==> spec_is_digit(#[trigger] s[i]),
        digits_end(s, pos) < s.len() ==> !spec_is_digit(s[digits_end(s, pos)]),
    decreases s.len() - pos,
{
    if pos < s.len() && spec_is_digit(s[pos]) {
        lemma_digits_end(s, pos + 1);
    }
}

/// The end of the run of digits that starts at `pos`.
pub fn scan_digits(data: &[u8], pos: usize) -> (r: usize)
    requires
        pos <= data@.len(),
    ensures
        r == digits_end(data@, pos as int),
        pos <= r <= data@.len(),
{
    proof {
        lemma_digits_end(data@, pos as int);
    }
    let mut i = pos;
    while i < data.len() && is_digit(data[i])
        invariant
            pos <= i <= data@.len(),
            digits_end(data@, i as int) == digits_end(data@, pos as int),
        decreases data@.len() - i,
    {
        i += 1;
    }
    i
}

/// The value of a run of decimal digits.
pub open spec fn decimal_value(digits: Seq<u8>) -> nat
    decreases digits.len(),
{
    if digits.len() == 0 {
        0
    } else {
        decimal_value(digits.drop_last()) * 10 + (digits.last() - DIGIT_0) as nat
    }
}

/// The value of the digits `data[start..end]`, or `None` when it exceeds `limit`.
pub fn digits_value_upto(data: &[u8], start: usize, end: usize, limit: u64) -> (r: Option<u64>)
    requires
        start <= end <= data@.len(),
        forall|i: int| start <= i < end ==> spec_is_digit(#[trigger] data@[i]),
    ensures
        match r {
            Some(v) => v == decimal_value(data@.subrange(start as int, end as int)) && v <= limit,
            None => decimal_value(data@.subrange(start as int, end as int)) > limit,
        },
{
    let mut acc: u64 = 0;
    let mut i = start;
    while i < end
        invariant
            start <= i <= end,
            end <= data@.len(),
            forall|j: int| start <= j < end ==> spec_is_digit(#[trigger] data@[j]),
            acc == decimal_value(data@.subrange(start as int, i as int)),
            acc <= limit,
        decreases end - i,
    {
        let d = (data[i] - DIGIT_0) as u64;
        assert(data@.subrange(start as int, i + 1).drop_last() =~= data@.subrange(start as int, i as int));
        if d > limit || acc > (limit - d) / 10 {
            proof {
                lemma_decimal_value_monotone(data@.subrange(start as int, end as int), (i + 1 - start) as int);
                assert(data@.subrange(start as int, end as int).subrange(0, i + 1 - start) =~= data@.subrange(start as int, i + 1));
            }
            return None;
        }
        acc = acc * 10 + d;
        i += 1;
    }
    Some(acc)
}

/// A longer run of digits is worth at least as much as any of its prefixes.
pub proof fn lemma_decimal_value_monotone(digits: Seq<u8>, k: int)
    requires
        0 <= k <= digits.len(),
        forall|i: int| 0 <= i < digits.len() ==> spec_is_digit(#[trigger] digits[i]),
    ensures
        decimal_value(digits.subrange(0, k)) <= decimal_value(digits),
    decreases digits.len() - k,
{
    if k < digits.len() {
        lemma_decimal_value_monotone(digits, k + 1);
        let p = digits.subrange(0, k + 1);
        assert(p.drop_last() =~= digits.subrange(0, k));
    } else {
        assert(digits.subrange(0, k) =~= digits);
    }
}

/// `pat` occurs at `p`, wholly inside `[lo, hi)`.
pub open spec fn occurs_within(s: Seq<u8>, lo: int, hi: int, pat: Seq<u8>, p: int) -> bool {
    lo <= p && p + pat.len() <= hi && hi <= s.len() && s.subrange(p, p + pat.len()) == pat
}

/// `pat` does not occur wholly inside `[lo, hi)`.
pub open spec fn no_occurrence(s: Seq<u8>, lo: int, hi: int, pat: Seq<u8>) -> bool {
    forall|q: int| !#[trigger] occurs_within(s, lo, hi, pat, q)
}

/// The first occurrence of `pat` wholly inside `[lo, hi)` (when there is one).
pub open spec fn first_occurrence(s: Seq<u8>, lo: int, hi: int, pat: Seq<u8>) -> int {
    choose|p: int| occurs_within(s, lo, hi, pat, p) && forall|q: int|
        q < p ==> !#[trigger] occurs_within(s, lo, hi, pat, q)
}

/// The last occurrence of `pat` wholly inside `[lo, hi)` (when there is one).
pub open spec fn last_occurrence(s: Seq<u8>, lo: int, hi: int, pat: Seq<u8>) -> int {
    choose|p: int| occurs_within(s, lo, hi, pat, p) && forall|q: int|
        p < q ==> !#[trigger] occurs_within(s, lo, hi, pat, q)
}

/// The last occurrence of `pat` wholly inside `data[lo..hi]`.
pub fn rfind_within(data: &[u8], lo: usize, hi: usize, pat: &[u8]) -> (r: Option<usize>)
    requires
        lo <= hi <= data@.len(),
    ensures
        match r {
            Some(p) => occurs_within(data@, lo as int, hi as int, pat@, p as int) && forall|q: int|
                p < q ==> !#[trigger] occurs_within(data@, lo as int, hi as int, pat@, q),
            None => no_occurrence(data@, lo as int, hi as int, pat@),
        },
        r is Some ==> r->0 == last_occurrence(data@, lo as int, hi as int, pat@),
{
    if pat.len() > hi - lo {
        return None;
    }
    let mut i = hi - pat.len();
    loop
        invariant
            lo <= i,
            i + pat@.len() <= hi <= data@.len(),
            forall|q: int| i < q ==> !#[trigger] occurs_within(data@, lo as int, hi as int, pat@, q),
        decreases i,
    {
        if starts_with_at(data, i, pat) {
            proof {
                let c = last_occurrence(data@, lo as int, hi as int, pat@);
                assert(occurs_within(data@, lo as int, hi as int, pat@, i as int));
                if c < i {
                    assert(!occurs_within(data@, lo as int, hi as int, pat@, i as int));
                }
            }
            return Some(i);
        }
        if i == lo {
            return None;
        }
        i -= 1;
    }
}

/// The first occurrence of `pat` wholly inside `data[lo..hi]`.
pub fn find_within(data: &[u8], lo: usize, hi: usize, pat: &[u8]) -> (r: Option<usize>)
    requires
        lo <= hi <= data@.len(),
    ensures
        match r {
            Some(p) => occurs_within(data@, lo as int, hi as int, pat@, p as int) && forall|q: int|
                q < p ==> !#[trigger] occurs_within(data@, lo as int, hi as int, pat@, q),
            None => no_occurrence(data@, lo as int, hi as int, pat@),
        },
        r is Some ==> r->0 == first_occurrence(data@, lo as int, hi as int, pat@),
{
    if pat.len() > hi - lo {
        return None;
    }
    let last = hi - pat.len();
    let mut i = lo;
    loop
        invariant
            lo <= i <= last,
            last + pat@.len() == hi,
            hi <= data@.len(),
            forall|q: int| q < i ==> !#[trigger] occurs_within(data@, lo as int, hi as int, pat@, q),
        decreases last - i,
    {
        if starts_with_at(data, i, pat) {
            proof {
                let c = first_occurrence(data@, lo as int, hi as int, pat@);
                assert(occurs_within(data@, lo as int, hi as int, pat@, i as int));
                if c > i {
                    assert(!occurs_within(data@, lo as int, hi as int, pat@, i as int));
                }
            }
            return Some(i);
        }
        if i == last {
            return None;
        }
        i += 1;
    }
}

/// An end-of-line byte: CR or LF.
pub open spec fn is_eol(b: u8) -> bool {
    b == CR || b == LF
}

/// The end of the run of CR and LF bytes from `pos`, below `hi`.
pub open spec fn eol_run_end(s: Seq<u8>, pos: int, hi: int) -> int
    decreases hi - pos,
{
    if 0 <= pos < hi && pos < s.len() && is_eol(s[pos]) { eol_run_end(s, pos + 1, hi) } else { pos }
}

/// The end of the run of bytes other than CR and LF from `pos`, below `hi`.
pub open spec fn line_run_end(s: Seq<u8>, pos: int, hi: int) -> int
    decreases hi - pos,
{
    if 0 <= pos < hi && pos < s.len() && !is_eol(s[pos]) { line_run_end(s, pos + 1, hi) } else { pos }
}

/// The end of the run of digits from `pos`, below `hi`.
pub open spec fn digit_run_end(s: Seq<u8>, pos: int, hi: int) -> int
    decreases hi - pos,
{
    if 0 <= pos < hi && pos < s.len() && spec_is_digit(s[pos]) { digit_run_end(s, pos + 1, hi) } else { pos }
}

/// The end of the run of CR and LF bytes from `pos`, below `hi`.
pub fn skip_eol(data: &[u8], pos: usize, hi: usize) -> (r: usize)
    requires
        pos <= hi <= data@.len(),
    ensures
        r == eol_run_end(data@, pos as int, hi as int),
        pos <= r <= hi,
{
    let mut i = pos;
    while i < hi && (data[i] == CR || data[i] == LF)
        invariant
            pos <= i <= hi <= data@.len(),
            eol_run_end(data@, i as int, hi as int) == eol_run_end(data@, pos as int, hi as int),
        decreases hi - i,
    {
        i += 1;
    }
    i
}

/// The end of the run of bytes other than CR and LF from `pos`, below `hi`.
pub fn skip_line(data: &[u8], pos: usize, hi: usize) -> (r: usize)
    requires
        pos <= hi <= data@.len(),
    ensures
        r == line_run_end(data@, pos as int, hi as int),
        pos <= r <= hi,
{
    let mut i = pos;
    while i < hi && data[i] != CR && data[i] != LF
        invariant
            pos <= i <= hi <= data@.len(),
            line_run_end(data@, i as int, hi as int) == line_run_end(data@, pos as int, hi as int),
        decreases hi - i,
    {
        i += 1;
    }
    i
}

/// The end of the run of digits from `pos`, below `hi`.
pub fn skip_digits_below(data: &[u8], pos: usize, hi: usize) -> (r: usize)
    requires
        pos <= hi <= data@.len(),
    ensures
        r == digit_run_end(data@, pos as int, hi as int),
        pos <= r <= hi,
        forall|i: int| pos <= i < r ==> spec_is_digit(#[trigger] data@[i]),
{
    let mut i = pos;
    while i < hi && is_digit(data[i])
        invariant
            pos <= i <= hi <= data@.len(),
            digit_run_end(data@, i as int, hi as int) == digit_run_end(data@, pos as int, hi as int),
            forall|j: int| pos <= j < i ==> spec_is_digit(#[trigger] data@[j]),
        decreases hi - i,
    {
        i += 1;
    }
    i
}

/// Ten to the power `n`.
pub open spec fn pow10(n: nat) -> nat
    decreases n,
{
    if n == 0 { 1 } else { 10 * pow10((n - 1) as nat) }
}

/// A run of `n` decimal digits is worth less than 10^n.
pub proof fn lemma_decimal_value_bound(digits: Seq<u8>)
    requires
        forall|i: int| 0 <= i < digits.len() ==> spec_is_digit(#[trigger] digits[i]),
    ensures
        decimal_value(digits) < pow10(digits.len()),
    decreases digits.len(),
{
    if digits.len() > 0 {
        let d = digits.drop_last();
        assert forall|i: int| 0 <= i < d.len() implies spec_is_digit(#[trigger] d[i]) by {
            assert(d[i] == digits[i]);
        }
        lemma_decimal_value_bound(d);
    }
}

} // verus!

//! The object parser (ISO 32000-1 §7.3): booleans, null, numbers, strings,
//! names, references, arrays, dictionaries, streams and indirect objects.
//!
//! Each `spec_parse_*` function states what the executable parser of the same
//! name returns: the object's value and the number of bytes consumed, or the
//! kind of error and where it occurred.

use vstd::prelude::*;
use crate::parser::error::{
    ErrorKind, ParseError, debug_char, debug_of_char, found_msg, found_text, hex_byte, text, with_hex,
};
use crate::text::{append_decimal, spec_decimal};
use crate::parser::lex::{
    BACKSLASH, CR, DIGIT_0, DIGIT_9, DOT, FF, GT, HASH, LBRACKET, LF, LPAREN, LT, MINUS, PERCENT,
    PLUS, RBRACKET, RPAREN, SLASH, SPACE, TAB, decimal_value, digits_end, digits_value_upto,
    is_digit, is_name_char, is_whitespace, lemma_digits_end, lemma_skip_ws_bounds, scan_digits,
    skip_whitespace_and_comments, skip_ws, spec_is_digit, spec_is_name_char, spec_is_whitespace,
    spec_starts_with_at, starts_with_at,
};
use crate::types::object::{
    IndirectObject, ObjectId, ObjectView, PdfDict, PdfObject, PdfStream, dict_lookup,
    lemma_array_view, lemma_dictionary_view, lemma_stream_view, view_entries, view_object,
};

verus! {

broadcast use vstd::std_specs::vec::group_vec_axioms;

/// How deeply arrays and dictionaries may nest.
pub const MAX_OBJECT_DEPTH: usize = 50;

pub open spec fn kw_true() -> Seq<u8> { seq![0x74u8, 0x72, 0x75, 0x65] }
pub open spec fn kw_false() -> Seq<u8> { seq![0x66u8, 0x61, 0x6C, 0x73, 0x65] }
pub open spec fn kw_null() -> Seq<u8> { seq![0x6Eu8, 0x75, 0x6C, 0x6C] }
pub open spec fn kw_stream() -> Seq<u8> { seq![0x73u8, 0x74, 0x72, 0x65, 0x61, 0x6D] }
pub open spec fn kw_endstream() -> Seq<u8> { seq![0x65u8, 0x6E, 0x64, 0x73, 0x74, 0x72, 0x65, 0x61, 0x6D] }
pub open spec fn kw_obj() -> Seq<u8> { seq![0x6Fu8, 0x62, 0x6A] }
pub open spec fn kw_endobj() -> Seq<u8> { seq![0x65u8, 0x6E, 0x64, 0x6F, 0x62, 0x6A] }
pub open spec fn kw_length() -> Seq<u8> { seq![0x4Cu8, 0x65, 0x6E, 0x67, 0x74, 0x68] }

pub const LETTER_R: u8 = 0x52;

/// An invalid-object error at `pos`, saying why.
pub open spec fn invalid(pos: int, reason: Seq<char>) -> ErrorKind {
    ErrorKind::InvalidObject { offset: pos as usize, reason }
}

/// What `str::parse::<i64>` says of an integer that does not fit: too
/// small when it is negative, too large otherwise.
pub open spec fn int_error_text(negative: bool) -> Seq<char> {
    if negative {
        "number too small to fit in target type"@
    } else {
        "number too large to fit in target type"@
    }
}

// ─── booleans and null ───────────────────────────────────────────────────

/// `true` or `false`, not directly followed by a name character (§7.3.2).
pub open spec fn spec_parse_boolean(s: Seq<u8>, p: int) -> Result<(bool, int), ErrorKind> {
    if spec_starts_with_at(s, p, kw_true()) {
        if p + 4 < s.len() && spec_is_name_char(s[p + 4]) {
            Err(invalid(p, found_msg("boolean `true` followed by name char: "@, s, p, 8)))
        } else {
            Ok((true, 4))
        }
    } else if spec_starts_with_at(s, p, kw_false()) {
        if p + 5 < s.len() && spec_is_name_char(s[p + 5]) {
            Err(invalid(p, found_msg("boolean `false` followed by name char: "@, s, p, 9)))
        } else {
            Ok((false, 5))
        }
    } else {
        Err(invalid(p, found_msg("expected boolean keyword, found "@, s, p, 8)))
    }
}

/// `null`, not directly followed by a name character (§7.3.9).
pub open spec fn spec_parse_null(s: Seq<u8>, p: int) -> Result<int, ErrorKind> {
    if spec_starts_with_at(s, p, kw_null()) {
        if p + 4 < s.len() && spec_is_name_char(s[p + 4]) {
            Err(invalid(p, found_msg("`null` followed by name char: "@, s, p, 8)))
        } else {
            Ok(4)
        }
    } else {
        Err(invalid(p, found_msg("expected null keyword, found "@, s, p, 8)))
    }
}

// ─── numbers ─────────────────────────────────────────────────────────────

/// The position after an optional sign at `p`.
pub open spec fn after_sign(s: Seq<u8>, p: int) -> int {
    if 0 <= p < s.len() && (s[p] == PLUS || s[p] == MINUS) { p + 1 } else { p }
}

/// An integer `[+-]?[0-9]+` that fits in an `i64` (§7.3.3).
pub open spec fn spec_parse_integer(s: Seq<u8>, p: int) -> Result<(i64, int), ErrorKind> {
    let q = after_sign(s, p);
    if p >= s.len() {
        Err(invalid(p, "empty input"@))
    } else if q >= s.len() || !spec_is_digit(s[q]) {
        Err(invalid(p, found_msg("expected digit, found "@, s, q, 4)))
    } else {
        let e = digits_end(s, q);
        let mag = decimal_value(s.subrange(q, e)) as int;
        let v = if s[p] == MINUS { -mag } else { mag };
        if i64::MIN <= v <= i64::MAX {
            Ok((v as i64, e - p))
        } else {
            Err(invalid(p, "integer out of range: "@ + int_error_text(s[p] == MINUS)))
        }
    }
}

/// An integer, or a real number `[+-]?[0-9]*.[0-9]*` with at least one digit,
/// kept as its text. Exponents are not part of the syntax (§7.3.3).
pub open spec fn spec_parse_number(s: Seq<u8>, p: int) -> Result<(ObjectView, int), ErrorKind> {
    let q = after_sign(s, p);
    let e1 = digits_end(s, q);
    if p >= s.len() {
        Err(invalid(p, "empty input"@))
    } else if e1 < s.len() && s[e1] == DOT {
        let e2 = digits_end(s, e1 + 1);
        if e1 == q && e2 == e1 + 1 {
            Err(invalid(p, "real number has no digits (just '.')"@))
        } else {
            Ok((ObjectView::Real(s.subrange(p, e2)), e2 - p))
        }
    } else if e1 == q {
        Err(invalid(p, found_msg("expected number, found "@, s, p, 8)))
    } else {
        match spec_parse_integer(s, p) {
            Ok((v, c)) => Ok((ObjectView::Integer(v), c)),
            Err(e) => Err(e),
        }
    }
}

// ─── literal strings ─────────────────────────────────────────────────────

/// An octal digit, `0` to `7`.
pub open spec fn spec_is_octal(b: u8) -> bool {
    DIGIT_0 <= b <= 0x37
}

/// Whether `b` is an octal digit.
pub fn is_octal(b: u8) -> (r: bool)
    ensures
        r == spec_is_octal(b),
{
    DIGIT_0 <= b && b <= 0x37
}

/// The value and the end of an octal escape `\ddd` (one to three octal
/// digits, §7.3.4.2) whose first digit is at `i`.
pub open spec fn octal_escape(s: Seq<u8>, i: int) -> (int, int) {
    let v0 = s[i] - DIGIT_0;
    if i + 1 < s.len() && spec_is_octal(s[i + 1]) {
        let v1 = v0 * 8 + (s[i + 1] - DIGIT_0);
        if i + 2 < s.len() && spec_is_octal(s[i + 2]) {
            (v1 * 8 + (s[i + 2] - DIGIT_0), i + 3)
        } else {
            (v1, i + 2)
        }
    } else {
        (v0, i + 1)
    }
}

/// The byte an escape `\c` stands for, for the escapes that stand for one byte.
pub open spec fn simple_escape(c: u8) -> u8 {
    if c == 0x6E { LF }
    else if c == 0x72 { CR }
    else if c == 0x74 { TAB }
    else if c == 0x62 { 0x08 }
    else if c == 0x66 { FF }
    else { c }
}

/// The rest of a literal string from `pos`, with `depth` parentheses open and
/// `out` decoded so far: the decoded bytes and the position after the
/// closing parenthesis, or `None` when the data ends first (§7.3.4.2).
pub open spec fn spec_literal_from(s: Seq<u8>, pos: int, depth: nat, out: Seq<u8>) -> Option<(Seq<u8>, int)>
    decreases s.len() - pos,
{
    if pos < 0 || pos >= s.len() || depth == 0 {
        if depth == 0 { Some((out, pos)) } else { None }
    } else {
        let b = s[pos];
        if b == LPAREN {
            spec_literal_from(s, pos + 1, depth + 1, out.push(LPAREN))
        } else if b == RPAREN {
            let d = (depth - 1) as nat;
            spec_literal_from(s, pos + 1, d, if d > 0 { out.push(RPAREN) } else { out })
        } else if b == BACKSLASH {
            if pos + 1 >= s.len() {
                None
            } else {
                let c = s[pos + 1];
                if c == CR {
                    if pos + 2 < s.len() && s[pos + 2] == LF {
                        spec_literal_from(s, pos + 3, depth, out)
                    } else {
                        spec_literal_from(s, pos + 2, depth, out)
                    }
                } else if c == LF {
                    spec_literal_from(s, pos + 2, depth, out)
                } else if spec_is_octal(c) {
                    let (v, next) = octal_escape(s, pos + 1);
                    spec_literal_from(s, next, depth, out.push((v % 256) as u8))
                } else {
                    spec_literal_from(s, pos + 2, depth, out.push(simple_escape(c)))
                }
            }
        } else if b == CR {
            if pos + 1 < s.len() && s[pos + 1] == LF {
                spec_literal_from(s, pos + 2, depth, out.push(LF))
            } else {
                spec_literal_from(s, pos + 1, depth, out.push(LF))
            }
        } else {
            spec_literal_from(s, pos + 1, depth, out.push(b))
        }
    }
}

/// A literal string `(...)` at `p`: escapes resolved, nested parentheses
/// kept, and every end of line turned into LF.
pub open spec fn spec_parse_literal_string(s: Seq<u8>, p: int) -> Result<(Seq<u8>, int), ErrorKind> {
    if p < 0 || p >= s.len() || s[p] != LPAREN {
        Err(invalid(p, found_msg("expected '(' for literal string, found "@, s, p, 4)))
    } else {
        match spec_literal_from(s, p + 1, 1, Seq::empty()) {
            Some((bytes, end)) => Ok((bytes, end - p)),
            None => Err(invalid(p, "unterminated literal string (missing ')')"@)),
        }
    }
}

/// In a literal string, the escapes `\n`, `\r`, `\t`, `\b` and `\f` stand
/// for the bytes LF (0x0A), CR (0x0D), TAB (0x09), BACKSPACE (0x08) and
/// FORM FEED (0x0C), and `\\`, `\(` and `\)` for the byte after the
/// backslash (ISO 32000-1 §7.3.4.2, Table 3): reading such an escape appends
/// that byte and goes on after the escape.
pub proof fn lemma_literal_escapes(s: Seq<u8>, pos: int, depth: nat, out: Seq<u8>)
    requires
        0 <= pos,
        pos + 1 < s.len(),
        depth > 0,
        s[pos] == 0x5C,
    ensures
        s[pos + 1] == 0x6E ==> spec_literal_from(s, pos, depth, out) == spec_literal_from(s, pos + 2, depth, out.push(0x0Au8)),
        s[pos + 1] == 0x72 ==> spec_literal_from(s, pos, depth, out) == spec_literal_from(s, pos + 2, depth, out.push(0x0Du8)),
        s[pos + 1] == 0x74 ==> spec_literal_from(s, pos, depth, out) == spec_literal_from(s, pos + 2, depth, out.push(0x09u8)),
        s[pos + 1] == 0x62 ==> spec_literal_from(s, pos, depth, out) == spec_literal_from(s, pos + 2, depth, out.push(0x08u8)),
        s[pos + 1] == 0x66 ==> spec_literal_from(s, pos, depth, out) == spec_literal_from(s, pos + 2, depth, out.push(0x0Cu8)),
        (s[pos + 1] == 0x5C || s[pos + 1] == 0x28 || s[pos + 1] == 0x29) ==> spec_literal_from(s, pos, depth, out)
            == spec_literal_from(s, pos + 2, depth, out.push(s[pos + 1])),
{
}

/// A literal string made of one escape `\n`, `\r`, `\t`, `\b` or `\f`,
/// wherever it stands, reads as the one byte LF, CR, TAB, BACKSPACE or
/// FORM FEED, and takes four bytes.
pub proof fn lemma_literal_single_escape(s: Seq<u8>, p: int)
    requires
        0 <= p,
        p + 4 <= s.len(),
        s[p] == 0x28,
        s[p + 1] == 0x5C,
        s[p + 3] == 0x29,
    ensures
        s[p + 2] == 0x6E ==> spec_parse_literal_string(s, p) == Ok::<(Seq<u8>, int), ErrorKind>((seq![0x0Au8], 4)),
        s[p + 2] == 0x72 ==> spec_parse_literal_string(s, p) == Ok::<(Seq<u8>, int), ErrorKind>((seq![0x0Du8], 4)),
        s[p + 2] == 0x74 ==> spec_parse_literal_string(s, p) == Ok::<(Seq<u8>, int), ErrorKind>((seq![0x09u8], 4)),
        s[p + 2] == 0x62 ==> spec_parse_literal_string(s, p) == Ok::<(Seq<u8>, int), ErrorKind>((seq![0x08u8], 4)),
        s[p + 2] == 0x66 ==> spec_parse_literal_string(s, p) == Ok::<(Seq<u8>, int), ErrorKind>((seq![0x0Cu8], 4)),
{
    let c = s[p + 2];
    if c == 0x6E || c == 0x72 || c == 0x74 || c == 0x62 || c == 0x66 {
        lemma_literal_escapes(s, p + 1, 1, Seq::empty());
        let b = simple_escape(c);
        assert(spec_literal_from(s, p + 3, 1, seq![b]) == spec_literal_from(s, p + 4, 0, seq![b]));
        assert(Seq::<u8>::empty().push(b) == seq![b]);
    }
}

// ─── hexadecimal strings ─────────────────────────────────────────────────

/// The value of a hexadecimal digit.
pub open spec fn spec_hex_nibble(b: u8) -> Option<u8> {
    if DIGIT_0 <= b <= DIGIT_9 { Some((b - DIGIT_0) as u8) }
    else if 0x61 <= b <= 0x66 { Some((b - 0x61 + 10) as u8) }
    else if 0x41 <= b <= 0x46 { Some((b - 0x41 + 10) as u8) }
    else { None }
}

/// The bytes of a hexadecimal string once it ends; an odd final digit is
/// completed with 0 (§7.3.4.3).
pub open spec fn hex_finish(out: Seq<u8>, high: Option<u8>) -> Seq<u8> {
    match high {
        Some(h) => out.push((h * 16) as u8),
        None => out,
    }
}

/// The rest of a hexadecimal string from `pos`: the bytes and the position
/// after `>` (or the end of the data), or the error at an invalid byte.
pub open spec fn spec_hex_from(s: Seq<u8>, pos: int, high: Option<u8>, out: Seq<u8>) -> Result<(Seq<u8>, int), ErrorKind>
    decreases s.len() - pos,
{
    if pos < 0 || pos >= s.len() {
        Ok((hex_finish(out, high), pos))
    } else if s[pos] == GT {
        Ok((hex_finish(out, high), pos + 1))
    } else if spec_is_whitespace(s[pos]) {
        spec_hex_from(s, pos + 1, high, out)
    } else {
        match spec_hex_nibble(s[pos]) {
            None => Err(invalid(pos, "invalid hex character in hex string: "@ + hex_byte(s[pos]))),
            Some(n) => match high {
                None => spec_hex_from(s, pos + 1, Some(n), out),
                Some(h) => spec_hex_from(s, pos + 1, None, out.push((h * 16 + n) as u8)),
            },
        }
    }
}

/// A hexadecimal string `<...>` at `p`; white-space inside is ignored.
pub open spec fn spec_parse_hex_string(s: Seq<u8>, p: int) -> Result<(Seq<u8>, int), ErrorKind> {
    if p < 0 || p >= s.len() || s[p] != LT {
        Err(invalid(p, found_msg("expected '<' for hex string, found "@, s, p, 4)))
    } else if p + 1 < s.len() && s[p + 1] == LT {
        Err(invalid(p, "'<<' is a dictionary delimiter, not a hex string"@))
    } else {
        match spec_hex_from(s, p + 1, None, Seq::empty()) {
            Ok((bytes, end)) => Ok((bytes, end - p)),
            Err(e) => Err(e),
        }
    }
}

// ─── names ───────────────────────────────────────────────────────────────

/// A byte that ends a name: white-space or a delimiter.
pub open spec fn ends_name(b: u8) -> bool {
    spec_is_whitespace(b) || b == LPAREN || b == RPAREN || b == LT || b == GT || b == LBRACKET
        || b == RBRACKET || b == SLASH || b == PERCENT
}

/// The rest of a name from `pos`: its bytes and where it ends, or the error
/// at a damaged `#HH` escape.
pub open spec fn spec_name_from(s: Seq<u8>, pos: int, out: Seq<u8>) -> Result<(Seq<u8>, int), ErrorKind>
    decreases s.len() - pos,
{
    if pos < 0 || pos >= s.len() || ends_name(s[pos]) {
        Ok((out, pos))
    } else if s[pos] == HASH {
        if pos + 2 >= s.len() {
            Err(invalid(pos, "incomplete #HH escape in name"@))
        } else {
            match spec_hex_nibble(s[pos + 1]) {
                None => Err(invalid(pos + 1, "invalid hex digit in name escape: "@ + hex_byte(s[pos + 1]))),
                Some(hi) => match spec_hex_nibble(s[pos + 2]) {
                    None => Err(invalid(pos + 2, "invalid hex digit in name escape: "@ + hex_byte(s[pos + 2]))),
                    Some(lo) => spec_name_from(s, pos + 3, out.push((hi * 16 + lo) as u8)),
                },
            }
        }
    } else {
        spec_name_from(s, pos + 1, out.push(s[pos]))
    }
}

/// A name `/...` at `p`, without the slash, `#HH` escapes resolved (§7.3.5).
pub open spec fn spec_parse_name(s: Seq<u8>, p: int) -> Result<(Seq<u8>, int), ErrorKind> {
    if p < 0 || p >= s.len() || s[p] != SLASH {
        Err(invalid(p, found_msg("expected '/' for name, found "@, s, p, 4)))
    } else {
        match spec_name_from(s, p + 1, Seq::empty()) {
            Ok((bytes, end)) => Ok((bytes, end - p)),
            Err(e) => Err(e),
        }
    }
}

// ─── references ──────────────────────────────────────────────────────────

/// The end of the run of white-space (comments not included) from `pos`.
pub open spec fn ws_run_end(s: Seq<u8>, pos: int) -> int
    decreases s.len() - pos,
{
    if 0 <= pos < s.len() && spec_is_whitespace(s[pos]) {
        ws_run_end(s, pos + 1)
    } else {
        pos
    }
}

/// A reference `N G R` at `p` (§7.3.10), with `N` fitting in a `u32`, `G`
/// in a `u16`, white-space between the parts and no name character right
/// after `R`; `None` when the bytes are not one.
pub open spec fn spec_try_reference(s: Seq<u8>, p: int) -> Option<(ObjectId, int)> {
    let e1 = digits_end(s, p);
    let w1 = ws_run_end(s, e1);
    let e2 = digits_end(s, w1);
    let w2 = ws_run_end(s, e2);
    let n = decimal_value(s.subrange(p, e1));
    let g = decimal_value(s.subrange(w1, e2));
    if e1 == p || n > u32::MAX || w1 == e1 || e2 == w1 || g > u16::MAX || w2 == e2 {
        None
    } else if w2 >= s.len() || s[w2] != LETTER_R {
        None
    } else if w2 + 1 < s.len() && spec_is_name_char(s[w2 + 1]) {
        None
    } else {
        Some((ObjectId { number: n as u32, generation: g as u16 }, w2 + 1 - p))
    }
}

// ─── streams ─────────────────────────────────────────────────────────────

/// The end of the run of LF, CR, SPACE and TAB from `pos`.
pub open spec fn stream_gap_end(s: Seq<u8>, pos: int) -> int
    decreases s.len() - pos,
{
    if 0 <= pos < s.len() && (s[pos] == LF || s[pos] == CR || s[pos] == SPACE || s[pos] == TAB) {
        stream_gap_end(s, pos + 1)
    } else {
        pos
    }
}

/// The length of the end of line after `stream` at `ak`: LF or CR LF;
/// 0 when there is none (a lone CR does not count) (§7.3.8).
pub open spec fn stream_eol_len(s: Seq<u8>, ak: int) -> int {
    if 0 <= ak < s.len() && s[ak] == LF {
        1
    } else if 0 <= ak && ak + 1 < s.len() && s[ak] == CR && s[ak + 1] == LF {
        2
    } else {
        0
    }
}

/// The stream whose dictionary is `dict` and whose `stream` keyword is at
/// `sp`: `/Length` must be a direct non-negative integer that fits in the
/// data, and `endstream` must follow the data after optional white-space.
pub open spec fn spec_parse_stream(s: Seq<u8>, sp: int, dict: Seq<(Seq<u8>, ObjectView)>) -> Result<(ObjectView, int), ErrorKind> {
    let ak = sp + 6;
    let eol = stream_eol_len(s, ak);
    if !spec_starts_with_at(s, sp, kw_stream()) {
        Err(ErrorKind::MalformedStream { offset: sp as usize, reason: found_msg("expected 'stream' keyword, found "@, s, sp, 8) })
    } else if eol == 0 && ak < s.len() && s[ak] == CR {
        Err(ErrorKind::MalformedStream { offset: ak as usize, reason: "stream keyword followed by CR alone (must be LF or CRLF)"@ })
    } else if eol == 0 {
        Err(ErrorKind::MalformedStream { offset: ak as usize, reason: "stream keyword not followed by EOL (LF or CRLF required)"@ })
    } else {
        let st = ak + eol;
        match dict_lookup(dict, kw_length()) {
            Some(ObjectView::Integer(n)) => {
                if n < 0 {
                    Err(ErrorKind::MalformedStream { offset: sp as usize, reason: "/Length is negative"@ })
                } else if st + n > s.len() {
                    Err(ErrorKind::MalformedStream { offset: sp as usize, reason: "/Length "@ + spec_decimal(n as nat) + " exceeds available data ("@ + spec_decimal((s.len() - st) as nat) + ")"@ })
                } else {
                    let en = st + n;
                    let pos = stream_gap_end(s, en);
                    if spec_starts_with_at(s, pos, kw_endstream()) {
                        Ok((ObjectView::Stream(dict, s.subrange(st, en)), pos + 9 - sp))
                    } else {
                        Err(ErrorKind::MalformedStream { offset: pos as usize, reason: "missing endstream keyword"@ })
                    }
                }
            },
            Some(ObjectView::Reference(_)) => Err(
                ErrorKind::MalformedStream { offset: sp as usize, reason: "/Length is an indirect reference (not yet supported; Task #7)"@ },
            ),
            Some(_) => Err(ErrorKind::MalformedStream { offset: sp as usize, reason: "/Length is not an integer"@ }),
            None => Err(
                ErrorKind::MalformedStream { offset: sp as usize, reason: "missing /Length in stream dictionary"@ },
            ),
        }
    }
}

// ─── objects, arrays and dictionaries ────────────────────────────────────

/// The termination measure of the object grammar: the nesting budget first,
/// then the bytes left.
pub open spec fn budget(depth: int) -> int {
    if depth <= MAX_OBJECT_DEPTH { MAX_OBJECT_DEPTH - depth + 1 } else { 0 }
}

/// The object that starts after white-space and comments at `offset`, parsed
/// at nesting `depth`: its value and the bytes consumed from `offset`
/// (leading white-space included).
pub open spec fn spec_parse_object(s: Seq<u8>, offset: int, depth: int) -> Result<(ObjectView, int), ErrorKind>
    decreases budget(depth), 2int, s.len() - offset + 1,
{
    let pos = skip_ws(s, offset);
    proof {
        lemma_skip_ws_bounds(s, offset, false);
    }
    if offset < 0 || pos >= s.len() {
        Err(invalid(pos, "unexpected end of data"@))
    } else {
        let b = s[pos];
        let r: Result<(ObjectView, int), ErrorKind> = if b == 0x74 || b == 0x66 {
            match spec_parse_boolean(s, pos) {
                Ok((v, c)) => Ok((ObjectView::Boolean(v), c)),
                Err(e) => Err(e),
            }
        } else if b == 0x6E {
            match spec_parse_null(s, pos) {
                Ok(c) => Ok((ObjectView::Null, c)),
                Err(e) => Err(e),
            }
        } else if b == LPAREN {
            match spec_parse_literal_string(s, pos) {
                Ok((v, c)) => Ok((ObjectView::LiteralString(v), c)),
                Err(e) => Err(e),
            }
        } else if b == LT && pos + 1 < s.len() && s[pos + 1] == LT {
            if depth >= MAX_OBJECT_DEPTH {
                Err(ErrorKind::ObjectTooDeep { offset: pos as usize, max_depth: MAX_OBJECT_DEPTH })
            } else {
                match spec_dict_entries_from(s, pos + 2, pos, depth + 1, Seq::empty()) {
                    Err(e) => Err(e),
                    Ok((entries, dend)) => {
                        let sp = skip_ws(s, dend);
                        if spec_starts_with_at(s, sp, kw_stream()) {
                            match spec_parse_stream(s, sp, entries) {
                                Ok((st, sc)) => Ok((st, sp + sc - pos)),
                                Err(e) => Err(e),
                            }
                        } else {
                            Ok((ObjectView::Dictionary(entries), dend - pos))
                        }
                    },
                }
            }
        } else if b == LT {
            match spec_parse_hex_string(s, pos) {
                Ok((v, c)) => Ok((ObjectView::HexString(v), c)),
                Err(e) => Err(e),
            }
        } else if b == SLASH {
            match spec_parse_name(s, pos) {
                Ok((v, c)) => Ok((ObjectView::Name(v), c)),
                Err(e) => Err(e),
            }
        } else if b == LBRACKET {
            if depth >= MAX_OBJECT_DEPTH {
                Err(ErrorKind::ObjectTooDeep { offset: pos as usize, max_depth: MAX_OBJECT_DEPTH })
            } else {
                match spec_array_items_from(s, pos + 1, pos, depth + 1, Seq::empty()) {
                    Ok((items, aend)) => Ok((ObjectView::Array(items), aend - pos)),
                    Err(e) => Err(e),
                }
            }
        } else if spec_is_digit(b) {
            match spec_try_reference(s, pos) {
                Some((id, c)) => Ok((ObjectView::Reference(id), c)),
                None => spec_parse_number(s, pos),
            }
        } else if b == PLUS || b == MINUS || b == DOT {
            spec_parse_number(s, pos)
        } else {
            Err(invalid(pos, "unsupported object start byte: "@ + hex_byte(b) + " ("@ + debug_char(b as char) + ")"@))
        };
        match r {
            Ok((o, c)) => Ok((o, pos - offset + c)),
            Err(e) => Err(e),
        }
    }
}

/// The rest of an array opened at `start`, from `pos`, with `items` parsed
/// so far: the items and the position after `]` (§7.3.6).
pub open spec fn spec_array_items_from(s: Seq<u8>, pos: int, start: int, depth: int, items: Seq<ObjectView>) -> Result<(Seq<ObjectView>, int), ErrorKind>
    decreases budget(depth) + 1, 0int, s.len() - pos,
{
    let p = skip_ws(s, pos);
    proof {
        lemma_skip_ws_bounds(s, pos, false);
    }
    if depth > MAX_OBJECT_DEPTH || depth < 1 || pos < 0 {
        Err(ErrorKind::ObjectTooDeep { offset: start as usize, max_depth: MAX_OBJECT_DEPTH })
    } else if p >= s.len() {
        Err(invalid(start, "unterminated array (missing ']')"@))
    } else if s[p] == RBRACKET {
        Ok((items, p + 1))
    } else {
        match spec_parse_object(s, p, depth) {
            Err(e) => Err(e),
            Ok((o, c)) => {
                if c > 0 && p + c <= s.len() {
                    spec_array_items_from(s, p + c, start, depth, items.push(o))
                } else {
                    Err(invalid(start, "unterminated array (missing ']')"@))
                }
            },
        }
    }
}

/// The rest of a dictionary opened at `start`, from `pos`, with `entries`
/// parsed so far: the entries and the position after `>>`. Keys must be
/// names; repeated keys are all kept (§7.3.7).
pub open spec fn spec_dict_entries_from(s: Seq<u8>, pos: int, start: int, depth: int, entries: Seq<(Seq<u8>, ObjectView)>) -> Result<(Seq<(Seq<u8>, ObjectView)>, int), ErrorKind>
    decreases budget(depth) + 1, 0int, s.len() - pos,
{
    let p = skip_ws(s, pos);
    proof {
        lemma_skip_ws_bounds(s, pos, false);
    }
    if depth > MAX_OBJECT_DEPTH || pos < 0 {
        Err(ErrorKind::ObjectTooDeep { offset: start as usize, max_depth: MAX_OBJECT_DEPTH })
    } else if p + 1 >= s.len() {
        Err(invalid(start, "unterminated dictionary (missing '>>')"@))
    } else if s[p] == GT && s[p + 1] == GT {
        Ok((entries, p + 2))
    } else if s[p] != SLASH {
        Err(invalid(p, found_msg("dictionary key must be a Name, found "@, s, p, 8)))
    } else {
        match spec_parse_name(s, p) {
            Err(e) => Err(e),
            Ok((k, kc)) => {
                let q = skip_ws(s, p + kc);
                proof {
                    lemma_skip_ws_bounds(s, p + kc, false);
                }
                if kc < 0 {
                    Err(invalid(start, "unterminated dictionary (missing '>>')"@))
                } else {
                    match spec_parse_object(s, q, depth) {
                        Err(e) => Err(e),
                        Ok((v, vc)) => {
                            if vc > 0 && q + vc <= s.len() {
                                spec_dict_entries_from(s, q + vc, start, depth, entries.push((k, v)))
                            } else {
                                Err(invalid(start, "unterminated dictionary (missing '>>')"@))
                            }
                        },
                    }
                }
            },
        }
    }
}

// ─── the executable parsers ──────────────────────────────────────────────

/// The executable result `r` is the one `s` states: the same value (by its
/// view) and the same number of bytes, or an error of the same kind.
pub open spec fn agrees<T: View>(r: Result<(T, usize), ParseError>, s: Result<(T::V, int), ErrorKind>) -> bool {
    match r {
        Ok((v, c)) => s is Ok && s->Ok_0.0 == v@ && s->Ok_0.1 == c as int,
        Err(e) => s is Err && s->Err_0 == e.kind(),
    }
}

/// Parses `true` or `false` at `offset`.
pub fn parse_boolean(data: &[u8], offset: usize) -> (r: Result<(bool, usize), ParseError>)
    requires
        offset <= data@.len(),
    ensures
        match r {
            Ok((v, c)) => spec_parse_boolean(data@, offset as int) == Ok::<(bool, int), ErrorKind>((v, c as int)),
            Err(e) => spec_parse_boolean(data@, offset as int) == Err::<(bool, int), ErrorKind>(e.kind()),
        },
{
    let t: [u8; 4] = [0x74, 0x72, 0x75, 0x65];
    let f: [u8; 5] = [0x66, 0x61, 0x6C, 0x73, 0x65];
    assert(t@ == kw_true());
    assert(f@ == kw_false());
    if starts_with_at(data, offset, &t) {
        if data.len() - offset > 4 && is_name_char(data[offset + 4]) {
            return Err(ParseError::InvalidObject { offset, reason: found_text("boolean `true` followed by name char: ", data, offset, 8) });
        }
        return Ok((true, 4));
    }
    if starts_with_at(data, offset, &f) {
        if data.len() - offset > 5 && is_name_char(data[offset + 5]) {
            return Err(ParseError::InvalidObject { offset, reason: found_text("boolean `false` followed by name char: ", data, offset, 9) });
        }
        return Ok((false, 5));
    }
    Err(ParseError::InvalidObject { offset, reason: found_text("expected boolean keyword, found ", data, offset, 8) })
}

/// Parses `null` at `offset`.
pub fn parse_null(data: &[u8], offset: usize) -> (r: Result<usize, ParseError>)
    requires
        offset <= data@.len(),
    ensures
        match r {
            Ok(c) => spec_parse_null(data@, offset as int) == Ok::<int, ErrorKind>(c as int),
            Err(e) => spec_parse_null(data@, offset as int) == Err::<int, ErrorKind>(e.kind()),
        },
{
    let n: [u8; 4] = [0x6E, 0x75, 0x6C, 0x6C];
    assert(n@ == kw_null());
    if starts_with_at(data, offset, &n) {
        if data.len() - offset > 4 && is_name_char(data[offset + 4]) {
            return Err(ParseError::InvalidObject { offset, reason: found_text("`null` followed by name char: ", data, offset, 8) });
        }
        return Ok(4);
    }
    Err(ParseError::InvalidObject { offset, reason: found_text("expected null keyword, found ", data, offset, 8) })
}

/// Parses an integer `[+-]?[0-9]+` at `offset`.
pub fn parse_integer(data: &[u8], offset: usize) -> (r: Result<(i64, usize), ParseError>)
    requires
        offset <= data@.len(),
    ensures
        match r {
            Ok((v, c)) => spec_parse_integer(data@, offset as int) == Ok::<(i64, int), ErrorKind>((v, c as int)),
            Err(e) => spec_parse_integer(data@, offset as int) == Err::<(i64, int), ErrorKind>(e.kind()),
        },
{
    if offset >= data.len() {
        return Err(ParseError::InvalidObject { offset, reason: text("empty input") });
    }
    let negative = data[offset] == MINUS;
    let q = if data[offset] == PLUS || negative { offset + 1 } else { offset };
    if q >= data.len() || !is_digit(data[q]) {
        return Err(ParseError::InvalidObject { offset, reason: found_text("expected digit, found ", data, q, 4) });
    }
    let e = scan_digits(data, q);
    proof {
        lemma_digits_end(data@, q as int);
    }
    let limit: u64 = if negative { 0x8000_0000_0000_0000 } else { 0x7FFF_FFFF_FFFF_FFFF };
    match digits_value_upto(data, q, e, limit) {
        None => {
            let why = if negative {
                "number too small to fit in target type"
            } else {
                "number too large to fit in target type"
            };
            Err(ParseError::InvalidObject { offset, reason: crate::text::concat_str("integer out of range: ", why) })
        },
        Some(mag) => {
            let v: i64 = if negative {
                if mag == 0x8000_0000_0000_0000 {
                    i64::MIN
                } else {
                    -(mag as i64)
                }
            } else {
                mag as i64
            };
            Ok((v, e - offset))
        },
    }
}

/// The values of a list of objects.
pub open spec fn view_items(items: Seq<PdfObject>) -> Seq<ObjectView> {
    Seq::new(items.len(), |i: int| view_object(items[i]))
}

/// A copy of `data[start..end]`.
pub fn copy_range(data: &[u8], start: usize, end: usize) -> (r: Vec<u8>)
    requires
        start <= end <= data@.len(),
    ensures
        r@ == data@.subrange(start as int, end as int),
{
    let mut out: Vec<u8> = Vec::new();
    let mut i = start;
    while i < end
        invariant
            start <= i <= end,
            end <= data@.len(),
            out@ == data@.subrange(start as int, i as int),
        decreases end - i,
    {
        out.push(data[i]);
        i += 1;
        assert(out@ =~= data@.subrange(start as int, i as int));
    }
    out
}

/// Parses a number at `offset`: an integer, or a real number kept as its text.
pub fn parse_number(data: &[u8], offset: usize) -> (r: Result<(PdfObject, usize), ParseError>)
    requires
        offset <= data@.len(),
    ensures
        agrees(r, spec_parse_number(data@, offset as int)),
        r is Ok ==> 0 < r->Ok_0.1 <= data@.len() - offset,
{
    if offset >= data.len() {
        return Err(ParseError::InvalidObject { offset, reason: text("empty input") });
    }
    let q = if data[offset] == PLUS || data[offset] == MINUS { offset + 1 } else { offset };
    let e1 = scan_digits(data, q);
    if e1 < data.len() && data[e1] == DOT {
        let e2 = scan_digits(data, e1 + 1);
        if e1 == q && e2 == e1 + 1 {
            return Err(ParseError::InvalidObject { offset, reason: text("real number has no digits (just '.')") });
        }
        let t = copy_range(data, offset, e2);
        return Ok((PdfObject::Real(t), e2 - offset));
    }
    if e1 == q {
        return Err(ParseError::InvalidObject { offset, reason: found_text("expected number, found ", data, offset, 8) });
    }
    match parse_integer(data, offset) {
        Ok((v, c)) => Ok((PdfObject::Integer(v), c)),
        Err(e) => Err(e),
    }
}

/// The byte a one-character escape `\c` of a literal string stands for.
pub fn escape_byte(c: u8) -> (r: u8)
    ensures
        r == simple_escape(c),
{
    if c == 0x6E {
        LF
    } else if c == 0x72 {
        CR
    } else if c == 0x74 {
        TAB
    } else if c == 0x62 {
        0x08
    } else if c == 0x66 {
        FF
    } else {
        c
    }
}

/// Parses a literal string `(...)` at `offset`.
pub fn parse_literal_string(data: &[u8], offset: usize) -> (r: Result<(Vec<u8>, usize), ParseError>)
    requires
        offset <= data@.len(),
    ensures
        agrees(r, spec_parse_literal_string(data@, offset as int)),
        r is Ok ==> 2 <= r->Ok_0.1 <= data@.len() - offset,
{
    if offset >= data.len() || data[offset] != LPAREN {
        return Err(ParseError::InvalidObject { offset, reason: found_text("expected '(' for literal string, found ", data, offset, 4) });
    }
    let mut out: Vec<u8> = Vec::new();
    let mut pos = offset + 1;
    let mut depth: usize = 1;
    while pos < data.len() && depth > 0
        invariant
            offset < pos <= data@.len(),
            data@[offset as int] == LPAREN,
            depth <= pos - offset,
            depth == 0 ==> pos >= offset + 2,
            spec_literal_from(data@, pos as int, depth as nat, out@) == spec_literal_from(
                data@,
                offset + 1,
                1,
                Seq::empty(),
            ),
        decreases data@.len() - pos,
    {
        let b = data[pos];
        if b == LPAREN {
            depth += 1;
            out.push(LPAREN);
            pos += 1;
        } else if b == RPAREN {
            depth -= 1;
            if depth > 0 {
                out.push(RPAREN);
            }
            pos += 1;
        } else if b == BACKSLASH {
            if data.len() - pos <= 1 {
                return Err(ParseError::InvalidObject { offset, reason: text("unterminated literal string (missing ')')") });
            }
            let c = data[pos + 1];
            if c == CR {
                if data.len() - pos > 2 && data[pos + 2] == LF {
                    pos += 3;
                } else {
                    pos += 2;
                }
            } else if c == LF {
                pos += 2;
            } else if is_octal(c) {
                let mut val: u32 = (c - DIGIT_0) as u32;
                let mut next = pos + 2;
                if next < data.len() && is_octal(data[next]) {
                    val = val * 8 + (data[next] - DIGIT_0) as u32;
                    next += 1;
                    if next < data.len() && is_octal(data[next]) {
                        val = val * 8 + (data[next] - DIGIT_0) as u32;
                        next += 1;
                    }
                }
                assert(octal_escape(data@, pos + 1) == (val as int, next as int));
                out.push((val % 256) as u8);
                pos = next;
            } else {
                out.push(escape_byte(c));
                pos += 2;
            }
        } else if b == CR {
            out.push(LF);
            if data.len() - pos > 1 && data[pos + 1] == LF {
                pos += 2;
            } else {
                pos += 1;
            }
        } else {
            out.push(b);
            pos += 1;
        }
    }
    if depth != 0 {
        return Err(ParseError::InvalidObject { offset, reason: text("unterminated literal string (missing ')')") });
    }
    Ok((out, pos - offset))
}

/// The value of a hexadecimal digit.
pub fn hex_nibble(b: u8) -> (r: Option<u8>)
    ensures
        r == spec_hex_nibble(b),
        r is Some ==> r->0 < 16,
{
    if DIGIT_0 <= b && b <= DIGIT_9 {
        Some(b - DIGIT_0)
    } else if 0x61 <= b && b <= 0x66 {
        Some(b - 0x61 + 10)
    } else if 0x41 <= b && b <= 0x46 {
        Some(b - 0x41 + 10)
    } else {
        None
    }
}

/// Parses a hexadecimal string `<...>` at `offset`.
pub fn parse_hex_string(data: &[u8], offset: usize) -> (r: Result<(Vec<u8>, usize), ParseError>)
    requires
        offset <= data@.len(),
    ensures
        agrees(r, spec_parse_hex_string(data@, offset as int)),
        r is Ok ==> 1 <= r->Ok_0.1 <= data@.len() - offset,
{
    if offset >= data.len() || data[offset] != LT {
        return Err(ParseError::InvalidObject { offset, reason: found_text("expected '<' for hex string, found ", data, offset, 4) });
    }
    if data.len() - offset > 1 && data[offset + 1] == LT {
        return Err(ParseError::InvalidObject { offset, reason: text("'<<' is a dictionary delimiter, not a hex string") });
    }
    let mut out: Vec<u8> = Vec::new();
    let mut pos = offset + 1;
    let mut high: Option<u8> = None;
    while pos < data.len()
        invariant
            offset < pos <= data@.len(),
            data@[offset as int] == LT,
            !(offset + 1 < data@.len() && data@[offset + 1] == LT),
            high is Some ==> high->0 < 16,
            spec_hex_from(data@, pos as int, high, out@) == spec_hex_from(data@, offset + 1, None, Seq::empty()),
        decreases data@.len() - pos,
    {
        let b = data[pos];
        if b == GT {
            let ghost before = out@;
            if let Some(h) = high {
                out.push(h * 16);
            }
            assert(out@ =~= hex_finish(before, high));
            assert(spec_hex_from(data@, pos as int, high, before) == Ok::<(Seq<u8>, int), ErrorKind>((out@, pos + 1)));
            return Ok((out, pos + 1 - offset));
        }
        if !is_whitespace(b) {
            match hex_nibble(b) {
                None => {
                    return Err(ParseError::InvalidObject { offset: pos, reason: with_hex("invalid hex character in hex string: ", b, false) });
                },
                Some(n) => match high {
                    None => {
                        high = Some(n);
                    },
                    Some(h) => {
                        out.push(h * 16 + n);
                        high = None;
                    },
                },
            }
        }
        pos += 1;
    }
    if let Some(h) = high {
        out.push(h * 16);
    }
    Ok((out, pos - offset))
}

/// Whether `b` ends a name: white-space or a delimiter.
pub fn is_name_end(b: u8) -> (r: bool)
    ensures
        r == ends_name(b),
{
    is_whitespace(b) || b == LPAREN || b == RPAREN || b == LT || b == GT || b == LBRACKET
        || b == RBRACKET || b == SLASH || b == PERCENT
}

/// Parses a name `/...` at `offset`.
pub fn parse_name(data: &[u8], offset: usize) -> (r: Result<(Vec<u8>, usize), ParseError>)
    requires
        offset <= data@.len(),
    ensures
        agrees(r, spec_parse_name(data@, offset as int)),
        r is Ok ==> 1 <= r->Ok_0.1 <= data@.len() - offset,
{
    if offset >= data.len() || data[offset] != SLASH {
        return Err(ParseError::InvalidObject { offset, reason: found_text("expected '/' for name, found ", data, offset, 4) });
    }
    let mut out: Vec<u8> = Vec::new();
    let mut pos = offset + 1;
    while pos < data.len()
        invariant
            offset < pos <= data@.len(),
            data@[offset as int] == SLASH,
            spec_name_from(data@, pos as int, out@) == spec_name_from(data@, offset + 1, Seq::empty()),
        decreases data@.len() - pos,
    {
        let b = data[pos];
        if is_name_end(b) {
            assert(spec_name_from(data@, pos as int, out@) == Ok::<(Seq<u8>, int), ErrorKind>((out@, pos as int)));
            return Ok((out, pos - offset));
        }
        if b == HASH {
            if data.len() - pos <= 2 {
                return Err(ParseError::InvalidObject { offset: pos, reason: text("incomplete #HH escape in name") });
            }
            let hi = match hex_nibble(data[pos + 1]) {
                Some(v) => v,
                None => {
                    return Err(ParseError::InvalidObject { offset: pos + 1, reason: with_hex("invalid hex digit in name escape: ", data[pos + 1], false) });
                },
            };
            let lo = match hex_nibble(data[pos + 2]) {
                Some(v) => v,
                None => {
                    return Err(ParseError::InvalidObject { offset: pos + 2, reason: with_hex("invalid hex digit in name escape: ", data[pos + 2], false) });
                },
            };
            out.push(hi * 16 + lo);
            pos += 3;
        } else {
            out.push(b);
            pos += 1;
        }
    }
    Ok((out, pos - offset))
}

/// The number of white-space bytes (comments not included) from `start`.
pub fn count_whitespace(data: &[u8], start: usize) -> (r: usize)
    requires
        start <= data@.len(),
    ensures
        r == ws_run_end(data@, start as int) - start,
        start + r <= data.len(),
{
    let mut i = start;
    while i < data.len() && is_whitespace(data[i])
        invariant
            start <= i <= data@.len(),
            ws_run_end(data@, i as int) == ws_run_end(data@, start as int),
        decreases data@.len() - i,
    {
        i += 1;
    }
    i - start
}

/// Tries to read a reference `N G R` at `offset`.
pub fn try_parse_reference(data: &[u8], offset: usize) -> (r: Option<(ObjectId, usize)>)
    requires
        offset <= data@.len(),
    ensures
        match r {
            Some((id, c)) => spec_try_reference(data@, offset as int) == Some((id, c as int))
                && 5 <= c <= data@.len() - offset,
            None => spec_try_reference(data@, offset as int) is None,
        },
{
    let e1 = scan_digits(data, offset);
    proof {
        lemma_digits_end(data@, offset as int);
    }
    if e1 == offset {
        return None;
    }
    let n = match digits_value_upto(data, offset, e1, 0xFFFF_FFFF) {
        Some(v) => v,
        None => {
            return None;
        },
    };
    let ws1 = count_whitespace(data, e1);
    let w1 = e1 + ws1;
    if w1 == e1 {
        return None;
    }
    let e2 = scan_digits(data, w1);
    proof {
        lemma_digits_end(data@, w1 as int);
    }
    if e2 == w1 {
        return None;
    }
    let g = match digits_value_upto(data, w1, e2, 0xFFFF) {
        Some(v) => v,
        None => {
            return None;
        },
    };
    let ws2 = count_whitespace(data, e2);
    let w2 = e2 + ws2;
    if w2 == e2 {
        return None;
    }
    if w2 >= data.len() || data[w2] != LETTER_R {
        return None;
    }
    if data.len() - w2 > 1 && is_name_char(data[w2 + 1]) {
        return None;
    }
    Some((ObjectId { number: n as u32, generation: g as u16 }, w2 + 1 - offset))
}

/// Parses the `stream ... endstream` part of a stream whose dictionary is
/// `dict`; `offset` is where the `stream` keyword should be.
pub fn parse_stream(data: &[u8], offset: usize, dict: PdfDict) -> (r: Result<(PdfStream, usize), ParseError>)
    requires
        offset <= data@.len(),
    ensures
        agrees(r, spec_parse_stream(data@, offset as int, dict@)),
        r is Ok ==> 0 < r->Ok_0.1 <= data@.len() - offset,
{
    let kw: [u8; 6] = [0x73, 0x74, 0x72, 0x65, 0x61, 0x6D];
    assert(kw@ == kw_stream());
    if !starts_with_at(data, offset, &kw) {
        return Err(ParseError::MalformedStream { offset, reason: found_text("expected 'stream' keyword, found ", data, offset, 8) });
    }
    assert(offset + 6 <= data.len());
    let after_kw = offset + 6;
    let eol: usize = if after_kw < data.len() && data[after_kw] == LF {
        1
    } else if after_kw < data.len() && data.len() - after_kw > 1 && data[after_kw] == CR && data[after_kw + 1] == LF {
        2
    } else {
        0
    };
    assert(eol == stream_eol_len(data@, after_kw as int));
    if eol == 0 {
        if after_kw < data.len() && data[after_kw] == CR {
            return Err(ParseError::MalformedStream { offset: after_kw, reason: text("stream keyword followed by CR alone (must be LF or CRLF)") });
        }
        return Err(ParseError::MalformedStream { offset: after_kw, reason: text("stream keyword not followed by EOL (LF or CRLF required)") });
    }
    let start = after_kw + eol;
    let key: [u8; 6] = [0x4C, 0x65, 0x6E, 0x67, 0x74, 0x68];
    assert(key@ == kw_length());
    let length: usize = match dict.get(&key) {
        Some(PdfObject::Integer(n)) => {
            if *n < 0 {
                return Err(ParseError::MalformedStream { offset, reason: text("/Length is negative") });
            }
            if *n as u64 > (data.len() - start) as u64 {
                let mut why = text("/Length ");
                append_decimal(&mut why, *n as u64);
                why.append(" exceeds available data (");
                append_decimal(&mut why, (data.len() - start) as u64);
                why.append(")");
                return Err(ParseError::MalformedStream { offset, reason: why });
            }
            *n as usize
        },
        Some(PdfObject::Reference(_)) => {
            return Err(ParseError::MalformedStream { offset, reason: text("/Length is an indirect reference (not yet supported; Task #7)") });
        },
        Some(_) => {
            return Err(ParseError::MalformedStream { offset, reason: text("/Length is not an integer") });
        },
        None => {
            return Err(ParseError::MalformedStream { offset, reason: text("missing /Length in stream dictionary") });
        },
    };
    let end = start + length;
    let raw = copy_range(data, start, end);
    let mut pos = end;
    while pos < data.len() && (data[pos] == LF || data[pos] == CR || data[pos] == SPACE || data[pos] == TAB)
        invariant
            end <= pos <= data@.len(),
            stream_gap_end(data@, pos as int) == stream_gap_end(data@, end as int),
        decreases data@.len() - pos,
    {
        pos += 1;
    }
    let endkw: [u8; 9] = [0x65, 0x6E, 0x64, 0x73, 0x74, 0x72, 0x65, 0x61, 0x6D];
    assert(endkw@ == kw_endstream());
    if !starts_with_at(data, pos, &endkw) {
        return Err(ParseError::MalformedStream { offset: pos, reason: text("missing endstream keyword") });
    }
    let st = PdfStream { dict, data: raw };
    Ok((st, pos + 9 - offset))
}

/// Parses an array `[...]` at `offset`, whose items lie at nesting `depth`.
pub fn parse_array(data: &[u8], offset: usize, depth: usize) -> (r: Result<(Vec<PdfObject>, usize), ParseError>)
    requires
        offset < data@.len(),
        data@[offset as int] == LBRACKET,
        1 <= depth <= MAX_OBJECT_DEPTH,
    ensures
        match r {
            Ok((items, c)) => spec_array_items_from(data@, offset + 1, offset as int, depth as int, Seq::empty())
                == Ok::<(Seq<ObjectView>, int), ErrorKind>((view_items(items@), offset + c))
                && 2 <= c <= data@.len() - offset,
            Err(e) => spec_array_items_from(data@, offset + 1, offset as int, depth as int, Seq::empty())
                == Err::<(Seq<ObjectView>, int), ErrorKind>(e.kind()),
        },
    decreases budget(depth as int) + 1, 0int,
{
    let mut items: Vec<PdfObject> = Vec::new();
    assert(offset + 1 <= data.len());
    let mut pos = offset + 1;
    assert(view_items(items@) =~= Seq::<ObjectView>::empty());
    loop
        invariant
            offset < pos <= data@.len(),
            1 <= depth <= MAX_OBJECT_DEPTH,
            spec_array_items_from(data@, pos as int, offset as int, depth as int, view_items(items@))
                == spec_array_items_from(data@, offset + 1, offset as int, depth as int, Seq::empty()),
        decreases data@.len() - pos,
    {
        let p = skip_whitespace_and_comments(data, pos);
        proof {
            lemma_skip_ws_bounds(data@, pos as int, false);
        }
        if p >= data.len() {
            return Err(ParseError::InvalidObject { offset, reason: text("unterminated array (missing ']')") });
        }
        if data[p] == RBRACKET {
            return Ok((items, p + 1 - offset));
        }
        let (o, c) = match parse_object_with_depth(data, p, depth) {
            Ok(x) => x,
            Err(e) => {
                return Err(e);
            },
        };
        let ghost before = items@;
        items.push(o);
        assert(view_items(items@) =~= view_items(before).push(o@));
        pos = p + c;
    }
}

/// Parses a dictionary `<<...>>` at `offset`, whose values lie at nesting `depth`.
pub fn parse_dictionary(data: &[u8], offset: usize, depth: usize) -> (r: Result<(PdfDict, usize), ParseError>)
    requires
        offset + 1 < data@.len(),
        data@[offset as int] == LT,
        data@[offset + 1] == LT,
        depth <= MAX_OBJECT_DEPTH,
    ensures
        match r {
            Ok((d, c)) => spec_dict_entries_from(data@, offset + 2, offset as int, depth as int, Seq::empty())
                == Ok::<(Seq<(Seq<u8>, ObjectView)>, int), ErrorKind>((d@, offset + c))
                && 2 <= c <= data@.len() - offset,
            Err(e) => spec_dict_entries_from(data@, offset + 2, offset as int, depth as int, Seq::empty())
                == Err::<(Seq<(Seq<u8>, ObjectView)>, int), ErrorKind>(e.kind()),
        },
    decreases budget(depth as int) + 1, 0int,
{
    let mut entries: Vec<(Vec<u8>, PdfObject)> = Vec::new();
    assert(offset + 2 <= data.len());
    let mut pos = offset + 2;
    assert(view_entries(entries@) =~= Seq::<(Seq<u8>, ObjectView)>::empty());
    loop
        invariant
            offset + 2 <= pos <= data@.len(),
            depth <= MAX_OBJECT_DEPTH,
            spec_dict_entries_from(data@, pos as int, offset as int, depth as int, view_entries(entries@))
                == spec_dict_entries_from(data@, offset + 2, offset as int, depth as int, Seq::empty()),
        decreases data@.len() - pos,
    {
        let p = skip_whitespace_and_comments(data, pos);
        proof {
            lemma_skip_ws_bounds(data@, pos as int, false);
        }
        if p >= data.len() || data.len() - p <= 1 {
            return Err(ParseError::InvalidObject { offset, reason: text("unterminated dictionary (missing '>>')") });
        }
        if data[p] == GT && data[p + 1] == GT {
            return Ok((PdfDict(entries), p + 2 - offset));
        }
        if data[p] != SLASH {
            return Err(ParseError::InvalidObject { offset: p, reason: found_text("dictionary key must be a Name, found ", data, p, 8) });
        }
        let (k, kc) = match parse_name(data, p) {
            Ok(x) => x,
            Err(e) => {
                return Err(e);
            },
        };
        let q = skip_whitespace_and_comments(data, p + kc);
        proof {
            lemma_skip_ws_bounds(data@, p + kc, false);
        }
        let (v, vc) = match parse_object_with_depth(data, q, depth) {
            Ok(x) => x,
            Err(e) => {
                return Err(e);
            },
        };
        let ghost before = entries@;
        entries.push((k, v));
        assert(view_entries(entries@) =~= view_entries(before).push((k@, v@)));
        pos = q + vc;
    }
}

/// Parses the object after white-space and comments at `offset`, at nesting
/// `depth`. Returns the object and the bytes consumed from `offset`.
pub fn parse_object_with_depth(data: &[u8], offset: usize, depth: usize) -> (r: Result<(PdfObject, usize), ParseError>)
    ensures
        agrees(r, spec_parse_object(data@, offset as int, depth as int)),
        r is Ok ==> 0 < r->Ok_0.1 && offset + r->Ok_0.1 <= data@.len(),
    decreases budget(depth as int), 2int,
{
    let pos = skip_whitespace_and_comments(data, offset);
    proof {
        lemma_skip_ws_bounds(data@, offset as int, false);
    }
    if pos >= data.len() {
        return Err(ParseError::InvalidObject { offset: pos, reason: text("unexpected end of data") });
    }
    let b = data[pos];
    let (obj, consumed) = if b == 0x74 || b == 0x66 {
        match parse_boolean(data, pos) {
            Ok((v, c)) => (PdfObject::Boolean(v), c),
            Err(e) => {
                return Err(e);
            },
        }
    } else if b == 0x6E {
        match parse_null(data, pos) {
            Ok(c) => (PdfObject::Null, c),
            Err(e) => {
                return Err(e);
            },
        }
    } else if b == LPAREN {
        match parse_literal_string(data, pos) {
            Ok((v, c)) => (PdfObject::LiteralString(v), c),
            Err(e) => {
                return Err(e);
            },
        }
    } else if b == LT && data.len() - pos > 1 && data[pos + 1] == LT {
        if depth >= MAX_OBJECT_DEPTH {
            return Err(ParseError::ObjectTooDeep { offset: pos, max_depth: MAX_OBJECT_DEPTH });
        }
        let (dict, dict_c) = match parse_dictionary(data, pos, depth + 1) {
            Ok(x) => x,
            Err(e) => {
                return Err(e);
            },
        };
        let after = pos + dict_c;
        let sp = skip_whitespace_and_comments(data, after);
        let kw: [u8; 6] = [0x73, 0x74, 0x72, 0x65, 0x61, 0x6D];
        assert(kw@ == kw_stream());
        if starts_with_at(data, sp, &kw) {
            match parse_stream(data, sp, dict) {
                Ok((st, sc)) => {
                    proof {
                        lemma_stream_view(st);
                    }
                    (PdfObject::Stream(st), sp + sc - pos)
                },
                Err(e) => {
                    return Err(e);
                },
            }
        } else {
            proof {
                lemma_dictionary_view(dict);
            }
            (PdfObject::Dictionary(dict), dict_c)
        }
    } else if b == LT {
        match parse_hex_string(data, pos) {
            Ok((v, c)) => (PdfObject::HexString(v), c),
            Err(e) => {
                return Err(e);
            },
        }
    } else if b == SLASH {
        match parse_name(data, pos) {
            Ok((v, c)) => (PdfObject::Name(v), c),
            Err(e) => {
                return Err(e);
            },
        }
    } else if b == LBRACKET {
        if depth >= MAX_OBJECT_DEPTH {
            return Err(ParseError::ObjectTooDeep { offset: pos, max_depth: MAX_OBJECT_DEPTH });
        }
        match parse_array(data, pos, depth + 1) {
            Ok((items, c)) => {
                proof {
                    lemma_array_view(items);
                    assert(view_items(items@) =~= Seq::new(items@.len(), |i: int| view_object(items@[i])));
                }
                (PdfObject::Array(items), c)
            },
            Err(e) => {
                return Err(e);
            },
        }
    } else if is_digit(b) {
        match try_parse_reference(data, pos) {
            Some((id, c)) => (PdfObject::Reference(id), c),
            None => match parse_number(data, pos) {
                Ok(x) => x,
                Err(e) => {
                    return Err(e);
                },
            },
        }
    } else if b == PLUS || b == MINUS || b == DOT {
        match parse_number(data, pos) {
            Ok(x) => x,
            Err(e) => {
                return Err(e);
            },
        }
    } else {
        let mut why = with_hex("unsupported object start byte: ", b, false);
        let shown = debug_of_char(b as char);
        why.append(" (");
        why.append(shown.as_str());
        why.append(")");
        return Err(ParseError::InvalidObject { offset: pos, reason: why });
    };
    Ok((obj, pos - offset + consumed))
}

/// Parses one object at `offset` (leading white-space and comments
/// skipped). Returns the object and the bytes consumed from `offset`,
/// leading white-space included.
pub fn parse_object(data: &[u8], offset: usize) -> (r: Result<(PdfObject, usize), ParseError>)
    ensures
        agrees(r, spec_parse_object(data@, offset as int, 0)),
        r is Ok ==> 0 < r->Ok_0.1 && offset + r->Ok_0.1 <= data@.len(),
{
    parse_object_with_depth(data, offset, 0)
}

/// An indirect object `N G obj <object> endobj` after white-space and
/// comments at `offset` (§7.3.10): `N` must fit in a `u32` and `G` in a
/// `u16`, each followed by white-space, and `obj` must not run into a name
/// character. The result is the object and the bytes consumed from `offset`.
pub open spec fn spec_parse_indirect(s: Seq<u8>, offset: int) -> Result<((ObjectId, ObjectView), int), ErrorKind> {
    let cur = skip_ws(s, offset);
    if cur >= s.len() || !spec_is_digit(s[cur]) {
        Err(invalid(cur, found_msg("expected object number, found "@, s, cur, 8)))
    } else {
        let e1 = digits_end(s, cur);
        let n = decimal_value(s.subrange(cur, e1));
        if n > u64::MAX {
            Err(invalid(cur, "object number overflow"@))
        } else if n > u32::MAX {
            Err(invalid(cur, "object number "@ + spec_decimal(n) + " exceeds u32::MAX"@))
        } else if e1 >= s.len() || !spec_is_whitespace(s[e1]) {
            Err(invalid(e1, "expected whitespace after object number"@))
        } else {
            let g0 = skip_ws(s, e1);
            if g0 >= s.len() || !spec_is_digit(s[g0]) {
                Err(invalid(g0, found_msg("expected generation number, found "@, s, g0, 8)))
            } else {
                let e2 = digits_end(s, g0);
                let g = decimal_value(s.subrange(g0, e2));
                if g > u64::MAX {
                    Err(invalid(g0, "generation number overflow"@))
                } else if g > u16::MAX {
                    Err(invalid(g0, "generation number "@ + spec_decimal(g) + " exceeds u16::MAX"@))
                } else if e2 >= s.len() || !spec_is_whitespace(s[e2]) {
                    Err(invalid(e2, "expected whitespace after generation number"@))
                } else {
                    let k = skip_ws(s, e2);
                    if !spec_starts_with_at(s, k, kw_obj()) {
                        Err(invalid(k, found_msg("expected 'obj' keyword, found "@, s, k, 8)))
                    } else if k + 3 < s.len() && spec_is_name_char(s[k + 3]) {
                        Err(invalid(k, found_msg("'obj' followed by name char: "@, s, k + 3, 4)))
                    } else {
                        match spec_parse_object(s, k + 3, 0) {
                            Err(e) => Err(e),
                            Ok((o, c)) => {
                                let t = skip_ws(s, k + 3 + c);
                                if spec_starts_with_at(s, t, kw_endobj()) {
                                    Ok(((ObjectId { number: n as u32, generation: g as u16 }, o), t + 6 - offset))
                                } else {
                                    Err(ErrorKind::MissingEndobj { offset: t as usize })
                                }
                            },
                        }
                    }
                }
            }
        }
    }
}

/// Parses an indirect object `N G obj ... endobj` at `offset`. Returns the
/// object and the bytes consumed from `offset`.
pub fn parse_indirect_object(data: &[u8], offset: usize) -> (r: Result<(IndirectObject, usize), ParseError>)
    requires
        offset <= data@.len(),
    ensures
        agrees(r, spec_parse_indirect(data@, offset as int)),
        r is Ok ==> 0 < r->Ok_0.1 <= data@.len() - offset,
{
    let dlen = data.len();
    let cur = skip_whitespace_and_comments(data, offset);
    proof {
        lemma_skip_ws_bounds(data@, offset as int, false);
    }
    if cur >= dlen || !is_digit(data[cur]) {
        return Err(ParseError::InvalidObject { offset: cur, reason: found_text("expected object number, found ", data, cur, 8) });
    }
    let e1 = scan_digits(data, cur);
    proof {
        lemma_digits_end(data@, cur as int);
    }
    let number = match digits_value_upto(data, cur, e1, 0xFFFF_FFFF_FFFF_FFFF) {
        Some(v) => {
            if v > 0xFFFF_FFFF {
                let mut why = text("object number ");
                append_decimal(&mut why, v);
                why.append(" exceeds u32::MAX");
                return Err(ParseError::InvalidObject { offset: cur, reason: why });
            }
            v as u32
        },
        None => {
            return Err(ParseError::InvalidObject { offset: cur, reason: text("object number overflow") });
        },
    };
    if e1 >= dlen || !is_whitespace(data[e1]) {
        return Err(ParseError::InvalidObject { offset: e1, reason: text("expected whitespace after object number") });
    }
    let g0 = skip_whitespace_and_comments(data, e1);
    proof {
        lemma_skip_ws_bounds(data@, e1 as int, false);
    }
    if g0 >= dlen || !is_digit(data[g0]) {
        return Err(ParseError::InvalidObject { offset: g0, reason: found_text("expected generation number, found ", data, g0, 8) });
    }
    let e2 = scan_digits(data, g0);
    proof {
        lemma_digits_end(data@, g0 as int);
    }
    let generation = match digits_value_upto(data, g0, e2, 0xFFFF_FFFF_FFFF_FFFF) {
        Some(v) => {
            if v > 0xFFFF {
                let mut why = text("generation number ");
                append_decimal(&mut why, v);
                why.append(" exceeds u16::MAX");
                return Err(ParseError::InvalidObject { offset: g0, reason: why });
            }
            v as u16
        },
        None => {
            return Err(ParseError::InvalidObject { offset: g0, reason: text("generation number overflow") });
        },
    };
    if e2 >= dlen || !is_whitespace(data[e2]) {
        return Err(ParseError::InvalidObject { offset: e2, reason: text("expected whitespace after generation number") });
    }
    let k = skip_whitespace_and_comments(data, e2);
    proof {
        lemma_skip_ws_bounds(data@, e2 as int, false);
    }
    let objkw: [u8; 3] = [0x6F, 0x62, 0x6A];
    assert(objkw@ == kw_obj());
    if !starts_with_at(data, k, &objkw) {
        return Err(ParseError::InvalidObject { offset: k, reason: found_text("expected 'obj' keyword, found ", data, k, 8) });
    }
    if dlen - k > 3 && is_name_char(data[k + 3]) {
        return Err(ParseError::InvalidObject { offset: k, reason: found_text("'obj' followed by name char: ", data, k + 3, 4) });
    }
    let (object, c) = match parse_object_with_depth(data, k + 3, 0) {
        Ok(x) => x,
        Err(e) => {
            return Err(e);
        },
    };
    let t = skip_whitespace_and_comments(data, k + 3 + c);
    proof {
        lemma_skip_ws_bounds(data@, k + 3 + c, false);
    }
    let endkw: [u8; 6] = [0x65, 0x6E, 0x64, 0x6F, 0x62, 0x6A];
    assert(endkw@ == kw_endobj());
    if !starts_with_at(data, t, &endkw) {
        return Err(ParseError::MissingEndobj { offset: t });
    }
    Ok((IndirectObject { id: ObjectId { number, generation }, object }, t + 6 - offset))
}

} // verus!

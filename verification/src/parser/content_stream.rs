//! Content streams: the sequence of operands and operators that paints a
//! page (ISO 32000-1 §7.8.2), inline images included (§8.9.7).

use vstd::prelude::*;
use crate::parser::error::{ErrorKind, ParseError, debug_char, debug_of_char, hex_byte_in, text, with_hex};
use crate::parser::lex::{
    DQUOTE, QUOTE, SLASH, is_whitespace, lemma_skip_ws_bounds, skip_whitespace_and_comments,
    skip_ws, spec_is_whitespace, spec_starts_with_at, starts_with_at,
};
use crate::parser::objects::{copy_range, parse_object, spec_parse_object, view_items};
use crate::types::content_stream::{
    ContentStreamOperation, ContentStreamOperator, OperatorView, keyword_to_operator,
    spec_operator_of,
};
use crate::types::object::{ObjectView, PdfObject};

verus! {

/// An ASCII letter.
pub open spec fn spec_is_alpha(b: u8) -> bool {
    (0x41 <= b <= 0x5A) || (0x61 <= b <= 0x7A)
}

/// A byte that may continue an operator keyword: a letter, `*`, `'` or `"`.
pub open spec fn spec_is_keyword_char(b: u8) -> bool {
    spec_is_alpha(b) || b == 0x2A || b == QUOTE || b == DQUOTE
}

/// Whether `b` may continue an operator keyword.
pub fn is_keyword_char(b: u8) -> (r: bool)
    ensures
        r == spec_is_keyword_char(b),
{
    (0x41 <= b && b <= 0x5A) || (0x61 <= b && b <= 0x7A) || b == 0x2A || b == QUOTE || b == DQUOTE
}

/// Whether `b` is PDF white-space.
pub fn is_pdf_whitespace(b: u8) -> (r: bool)
    ensures
        r == spec_is_whitespace(b),
{
    is_whitespace(b)
}

/// The end of the keyword that starts at `pos`.
pub open spec fn keyword_run_end(s: Seq<u8>, pos: int) -> int
    decreases s.len() - pos,
{
    if 0 <= pos < s.len() && spec_is_keyword_char(s[pos]) { keyword_run_end(s, pos + 1) } else { pos }
}

/// A two-letter keyword `kw` at `p` that does not run into a keyword character.
pub open spec fn keyword_at(s: Seq<u8>, p: int, kw: Seq<u8>) -> bool {
    spec_starts_with_at(s, p, kw) && !(p + 2 < s.len() && spec_is_keyword_char(s[p + 2]))
}

pub open spec fn kw_bi() -> Seq<u8> { seq![0x42u8, 0x49] }
pub open spec fn kw_id() -> Seq<u8> { seq![0x49u8, 0x44] }
pub open spec fn kw_ei() -> Seq<u8> { seq![0x45u8, 0x49] }

/// The dictionary of an inline image opened at `bi`, from `pos`, with the
/// keys and values `acc` read so far: all of them, and the position after
/// `ID`.
pub open spec fn spec_ii_dict(s: Seq<u8>, pos: int, bi: int, acc: Seq<ObjectView>) -> Result<(Seq<ObjectView>, int), ErrorKind>
    decreases s.len() - pos,
{
    let w = skip_ws(s, pos);
    proof {
        lemma_skip_ws_bounds(s, pos, false);
    }
    if pos < 0 || w >= s.len() {
        Err(ErrorKind::MalformedInlineImage { offset: bi as usize, reason: "BI 이후 ID 키워드 없이 데이터 끝"@ })
    } else if keyword_at(s, w, kw_id()) {
        Ok((acc, w + 2))
    } else if s[w] != SLASH {
        Err(ErrorKind::MalformedInlineImage { offset: w as usize, reason: "인라인 이미지 dict key가 Name이 아님: "@ + hex_byte_in(s[w], true) })
    } else {
        match spec_parse_object(s, w, 0) {
            Err(_) => Err(ErrorKind::MalformedInlineImage { offset: w as usize, reason: "인라인 이미지 dict key 파싱 실패"@ }),
            Ok((k, kc)) => {
                let p = w + kc;
                match spec_parse_object(s, p, 0) {
                    Err(_) => Err(ErrorKind::MalformedInlineImage { offset: p as usize, reason: "인라인 이미지 dict value 파싱 실패"@ }),
                    Ok((v, vc)) => if kc > 0 && vc > 0 && p + vc <= s.len() {
                        spec_ii_dict(s, p + vc, bi, acc.push(k).push(v))
                    } else {
                        Err(ErrorKind::MalformedInlineImage { offset: p as usize, reason: "인라인 이미지 dict value 파싱 실패"@ })
                    },
                }
            },
        }
    }
}

/// An object that starts with `/` is a name.
pub proof fn lemma_slash_starts_a_name(s: Seq<u8>, w: int)
    requires
        0 <= w < s.len(),
        s[w] == SLASH,
    ensures
        spec_parse_object(s, w, 0) is Ok ==> spec_parse_object(s, w, 0)->Ok_0.0 is Name,
{
    assert(skip_ws(s, w) == w);
}

/// The operands an inline image's dictionary gives are its keys and values
/// in file order: they come in pairs whose first member, the key, is a
/// name; what was read before is kept in front; and the entry that starts
/// the rest of the dictionary comes first, as the key that `parse_object`
/// reads there followed by the value it reads right after the key.
pub proof fn lemma_inline_dict_in_file_order(s: Seq<u8>, pos: int, bi: int, acc: Seq<ObjectView>)
    requires
        acc.len() % 2 == 0,
        forall|i: int| 0 <= i < acc.len() / 2 ==> (#[trigger] acc[2 * i]) is Name,
    ensures
        spec_ii_dict(s, pos, bi, acc) is Ok ==> {
            let ops = spec_ii_dict(s, pos, bi, acc)->Ok_0.0;
            &&& ops.len() % 2 == 0
            &&& acc.len() <= ops.len()
            &&& ops.subrange(0, acc.len() as int) == acc
            &&& forall|i: int| 0 <= i < ops.len() / 2 ==> (#[trigger] ops[2 * i]) is Name
        },
        ({
            let w = skip_ws(s, pos);
            (0 <= pos && w < s.len() && !keyword_at(s, w, kw_id()) && spec_parse_object(s, w, 0) is Ok
                && spec_parse_object(s, w + spec_parse_object(s, w, 0)->Ok_0.1, 0) is Ok && spec_ii_dict(s, pos, bi, acc) is Ok)
                ==> {
                let ops = spec_ii_dict(s, pos, bi, acc)->Ok_0.0;
                let kc = spec_parse_object(s, w, 0)->Ok_0.1;
                &&& ops[acc.len() as int] == spec_parse_object(s, w, 0)->Ok_0.0
                &&& ops[acc.len() as int + 1] == spec_parse_object(s, w + kc, 0)->Ok_0.0
            }
        }),
    decreases s.len() - pos,
{
    let w = skip_ws(s, pos);
    lemma_skip_ws_bounds(s, pos, false);
    if pos < 0 || w >= s.len() {
    } else if keyword_at(s, w, kw_id()) {
        assert(acc.subrange(0, acc.len() as int) =~= acc);
    } else if s[w] != SLASH {
    } else {
        lemma_slash_starts_a_name(s, w);
        if spec_parse_object(s, w, 0) is Ok {
            let k = spec_parse_object(s, w, 0)->Ok_0.0;
            let kc = spec_parse_object(s, w, 0)->Ok_0.1;
            let p = w + kc;
            if spec_parse_object(s, p, 0) is Ok {
                let v = spec_parse_object(s, p, 0)->Ok_0.0;
                let vc = spec_parse_object(s, p, 0)->Ok_0.1;
                if kc > 0 && vc > 0 && p + vc <= s.len() {
                    let acc2 = acc.push(k).push(v);
                    assert forall|i: int| 0 <= i < acc2.len() / 2 implies (#[trigger] acc2[2 * i]) is Name by {
                        if i < acc.len() / 2 {
                            assert(acc2[2 * i] == acc[2 * i]);
                        } else {
                            assert(2 * i == acc.len());
                        }
                    }
                    lemma_inline_dict_in_file_order(s, p + vc, bi, acc2);
                    assert(spec_ii_dict(s, pos, bi, acc) == spec_ii_dict(s, p + vc, bi, acc2));
                    if spec_ii_dict(s, p + vc, bi, acc2) is Ok {
                        let ops = spec_ii_dict(s, p + vc, bi, acc2)->Ok_0.0;
                        assert(ops.subrange(0, acc.len() as int) =~= acc2.subrange(0, acc.len() as int));
                        assert(acc2.subrange(0, acc.len() as int) =~= acc);
                        assert(ops[acc.len() as int] == ops.subrange(0, acc2.len() as int)[acc.len() as int]);
                        assert(ops[acc.len() as int + 1] == ops.subrange(0, acc2.len() as int)[acc.len() as int + 1]);
                    }
                }
            }
        }
    }
}

/// The operands of an inline image `BI ... ID ... EI` are its dictionary's
/// keys and values in file order: key/value pairs whose keys are names, the
/// first key being the object right after `BI` and the first value the
/// object right after it.
pub proof fn lemma_inline_image_operands(s: Seq<u8>, bi: int)
    ensures
        spec_inline_image(s, bi) is Ok ==> {
            let ops = spec_inline_image(s, bi)->Ok_0.0.1;
            &&& ops.len() % 2 == 0
            &&& forall|i: int| 0 <= i < ops.len() / 2 ==> (#[trigger] ops[2 * i]) is Name
        },
{
    lemma_inline_dict_in_file_order(s, bi + 2, bi, Seq::empty());
}

/// The first position from `pos` of white-space followed by `EI` that does
/// not run into a keyword character.
pub open spec fn ei_search(s: Seq<u8>, pos: int) -> Option<int>
    decreases s.len() - pos,
{
    if pos < 0 || pos >= s.len() {
        None
    } else if spec_is_whitespace(s[pos]) && keyword_at(s, pos + 1, kw_ei()) {
        Some(pos)
    } else {
        ei_search(s, pos + 1)
    }
}

/// The inline image `BI ... ID data EI` at `bi`: its dictionary entries as
/// operands, the data (after the one white-space byte that ends `ID`), and
/// the position after `EI`.
pub open spec fn spec_inline_image(s: Seq<u8>, bi: int) -> Result<((OperatorView, Seq<ObjectView>, Option<Seq<u8>>), int), ErrorKind> {
    match spec_ii_dict(s, bi + 2, bi, Seq::empty()) {
        Err(e) => Err(e),
        Ok((operands, after_id)) => {
            let start = if after_id < s.len() && spec_is_whitespace(s[after_id]) { after_id + 1 } else { after_id };
            match ei_search(s, start) {
                None => Err(ErrorKind::MalformedInlineImage { offset: bi as usize, reason: "인라인 이미지 EI 키워드 없이 데이터 끝"@ }),
                Some(e) => Ok(
                    (
                        (OperatorView::Known(ContentStreamOperator::InlineImage), operands, Some(s.subrange(start, e))),
                        e + 3,
                    ),
                ),
            }
        },
    }
}

/// What a content stream error says of a byte that starts no operand or
/// operator: the byte in hexadecimal, then as a quoted character.
pub open spec fn unexpected_byte_msg(b: u8) -> Seq<char> {
    "예상치 못한 바이트: "@ + hex_byte_in(b, true) + " ("@ + debug_char(b as char) + ")"@
}

/// The message of `unexpected_byte_msg`.
fn unexpected_byte(b: u8) -> (r: String)
    ensures
        r@ == unexpected_byte_msg(b),
{
    let mut r = with_hex("예상치 못한 바이트: ", b, true);
    let c = debug_of_char(b as char);
    r.append(" (");
    r.append(c.as_str());
    r.append(")");
    r
}

/// The depth an error shows: the count of open `q`, at most `i32::MAX`.
pub open spec fn shown_depth(depth: int) -> i32 {
    if depth > i32::MAX { i32::MAX } else { depth as i32 }
}

/// The operations of a content stream from `pos`, with `ops` and pending
/// `operands` read so far and `depth` graphics states saved. Operands
/// gather until an operator takes them; `Q` without a matching `q`, and `q`
/// left open at the end, are errors.
pub open spec fn spec_cs_from(
    s: Seq<u8>,
    pos: int,
    ops: Seq<(OperatorView, Seq<ObjectView>, Option<Seq<u8>>)>,
    operands: Seq<ObjectView>,
    depth: int,
) -> Result<Seq<(OperatorView, Seq<ObjectView>, Option<Seq<u8>>)>, ErrorKind>
    decreases s.len() - pos,
{
    let w = skip_ws(s, pos);
    proof {
        lemma_skip_ws_bounds(s, pos, false);
    }
    if pos < 0 || w >= s.len() {
        if depth > 0 {
            Err(ErrorKind::UnbalancedGraphicsState { offset: s.len() as usize, depth: shown_depth(depth) })
        } else {
            Ok(ops)
        }
    } else if keyword_at(s, w, kw_bi()) {
        match spec_inline_image(s, w) {
            Err(e) => Err(e),
            Ok((op, next)) => if pos < next <= s.len() {
                spec_cs_from(s, next, ops.push(op), Seq::empty(), depth)
            } else {
                Err(ErrorKind::MalformedInlineImage { offset: w as usize, reason: "인라인 이미지 EI 키워드 없이 데이터 끝"@ })
            },
        }
    } else if spec_is_alpha(s[w]) || s[w] == QUOTE || s[w] == DQUOTE {
        let e = keyword_run_end(s, w);
        let opv = spec_operator_of(s.subrange(w, e));
        if opv == OperatorView::Known(ContentStreamOperator::RestoreState) && depth == 0 {
            Err(ErrorKind::UnbalancedGraphicsState { offset: w as usize, depth: -1i32 })
        } else {
            let d2 = if opv == OperatorView::Known(ContentStreamOperator::SaveState) {
                depth + 1
            } else if opv == OperatorView::Known(ContentStreamOperator::RestoreState) {
                depth - 1
            } else {
                depth
            };
            if w < e <= s.len() {
                spec_cs_from(s, e, ops.push((opv, operands, None)), Seq::empty(), d2)
            } else {
                Err(ErrorKind::MalformedContentStream { offset: w as usize, reason: unexpected_byte_msg(s[w]) })
            }
        }
    } else {
        match spec_parse_object(s, w, 0) {
            Err(_) => Err(ErrorKind::MalformedContentStream { offset: w as usize, reason: unexpected_byte_msg(s[w]) }),
            Ok((o, c)) => if c > 0 && w + c <= s.len() {
                spec_cs_from(s, w + c, ops, operands.push(o), depth)
            } else {
                Err(ErrorKind::MalformedContentStream { offset: w as usize, reason: unexpected_byte_msg(s[w]) })
            },
        }
    }
}

/// The operations of a content stream.
pub open spec fn spec_content_stream(s: Seq<u8>) -> Result<Seq<(OperatorView, Seq<ObjectView>, Option<Seq<u8>>)>, ErrorKind> {
    spec_cs_from(s, 0, Seq::empty(), Seq::empty(), 0)
}

/// The values of a list of operations.
pub open spec fn view_ops(ops: Seq<ContentStreamOperation>) -> Seq<(OperatorView, Seq<ObjectView>, Option<Seq<u8>>)> {
    Seq::new(ops.len(), |i: int| ops[i]@)
}

/// A token of a content stream: an operand or an operator keyword.
pub enum Token {
    Operand(PdfObject),
    Keyword(Vec<u8>),
}

/// The next token after white-space and comments at `pos`, and where it
/// ends; `None` at the end of the data.
pub fn next_token(data: &[u8], pos: usize) -> (r: Result<Option<(Token, usize)>, ParseError>)
    requires
        pos <= data@.len(),
    ensures
        ({
            let w = skip_ws(data@, pos as int);
            match r {
                Ok(None) => w >= data@.len(),
                Ok(Some((Token::Keyword(k), e))) => w < data@.len() && (spec_is_alpha(data@[w]) || data@[w] == QUOTE
                    || data@[w] == DQUOTE) && e == keyword_run_end(data@, w) && w < e <= data@.len()
                    && k@ == data@.subrange(w, e as int) && (e >= data@.len() || !spec_is_keyword_char(data@[e as int])),
                Ok(Some((Token::Operand(o), e))) => w < data@.len() && !(spec_is_alpha(data@[w]) || data@[w] == QUOTE
                    || data@[w] == DQUOTE) && spec_parse_object(data@, w, 0) == Ok::<(ObjectView, int), ErrorKind>((o@, e - w))
                    && w < e <= data@.len(),
                Err(e) => w < data@.len() && !(spec_is_alpha(data@[w]) || data@[w] == QUOTE || data@[w] == DQUOTE)
                    && spec_parse_object(data@, w, 0) is Err && e.kind() == ErrorKind::MalformedContentStream {
                    offset: w as usize,
                    reason: unexpected_byte_msg(data@[w]),
                },
            }
        }),
{
    let w = skip_whitespace_and_comments(data, pos);
    proof {
        lemma_skip_ws_bounds(data@, pos as int, false);
    }
    if w >= data.len() {
        return Ok(None);
    }
    let b = data[w];
    if (0x41 <= b && b <= 0x5A) || (0x61 <= b && b <= 0x7A) || b == QUOTE || b == DQUOTE {
        let mut e = w;
        while e < data.len() && is_keyword_char(data[e])
            invariant
                w <= e <= data@.len(),
                keyword_run_end(data@, e as int) == keyword_run_end(data@, w as int),
            decreases data@.len() - e,
        {
            e += 1;
        }
        let k = copy_range(data, w, e);
        return Ok(Some((Token::Keyword(k), e)));
    }
    match parse_object(data, w) {
        Ok((o, c)) => Ok(Some((Token::Operand(o), w + c))),
        Err(_) => Err(ParseError::MalformedContentStream { offset: w, reason: unexpected_byte(data[w]) }),
    }
}

/// Whether the two-letter keyword `kw` stands at `p`, not running into a
/// keyword character.
fn keyword_at_exec(data: &[u8], p: usize, kw: &[u8]) -> (r: bool)
    requires
        kw@.len() == 2,
    ensures
        r == keyword_at(data@, p as int, kw@),
{
    if !starts_with_at(data, p, kw) {
        return false;
    }
    !(data.len() - p > 2 && is_keyword_char(data[p + 2]))
}

/// Parses the inline image whose `BI` is at `bi_offset`.
pub fn parse_inline_image(data: &[u8], bi_offset: usize) -> (r: Result<(ContentStreamOperation, usize), ParseError>)
    requires
        bi_offset + 2 <= data@.len(),
    ensures
        match r {
            Ok((op, n)) => spec_inline_image(data@, bi_offset as int) == Ok::<((OperatorView, Seq<ObjectView>, Option<Seq<u8>>), int), ErrorKind>((op@, n as int))
                && bi_offset < n <= data@.len(),
            Err(e) => spec_inline_image(data@, bi_offset as int) == Err::<((OperatorView, Seq<ObjectView>, Option<Seq<u8>>), int), ErrorKind>(e.kind()),
        },
{
    let dlen = data.len();
    let id: [u8; 2] = [0x49, 0x44];
    let ei: [u8; 2] = [0x45, 0x49];
    assert(id@ == kw_id());
    assert(ei@ == kw_ei());
    let mut acc: Vec<PdfObject> = Vec::new();
    let mut pos = bi_offset + 2;
    assert(view_items(acc@) =~= Seq::<ObjectView>::empty());
    let after_id;
    loop
        invariant
            bi_offset + 2 <= pos <= data@.len(),
            dlen == data@.len(),
            id@ == kw_id(),
            spec_ii_dict(data@, pos as int, bi_offset as int, view_items(acc@)) == spec_ii_dict(
                data@,
                bi_offset + 2,
                bi_offset as int,
                Seq::empty(),
            ),
        ensures
            bi_offset + 2 <= after_id <= data@.len(),
            spec_ii_dict(data@, bi_offset + 2, bi_offset as int, Seq::empty()) == Ok::<(Seq<ObjectView>, int), ErrorKind>((view_items(acc@), after_id as int)),
        decreases data@.len() - pos,
    {
        let w = skip_whitespace_and_comments(data, pos);
        proof {
            lemma_skip_ws_bounds(data@, pos as int, false);
        }
        if w >= dlen {
            return Err(ParseError::MalformedInlineImage { offset: bi_offset, reason: text("BI 이후 ID 키워드 없이 데이터 끝") });
        }
        if keyword_at_exec(data, w, &id) {
            after_id = w + 2;
            break;
        }
        if data[w] != SLASH {
            return Err(ParseError::MalformedInlineImage { offset: w, reason: with_hex("인라인 이미지 dict key가 Name이 아님: ", data[w], true) });
        }
        let (k, kc) = match parse_object(data, w) {
            Ok(x) => x,
            Err(_) => {
                return Err(ParseError::MalformedInlineImage { offset: w, reason: text("인라인 이미지 dict key 파싱 실패") });
            },
        };
        let p = w + kc;
        let (v, vc) = match parse_object(data, p) {
            Ok(x) => x,
            Err(_) => {
                return Err(ParseError::MalformedInlineImage { offset: p, reason: text("인라인 이미지 dict value 파싱 실패") });
            },
        };
        let ghost before = acc@;
        acc.push(k);
        acc.push(v);
        assert(view_items(acc@) =~= view_items(before).push(k@).push(v@));
        pos = p + vc;
    }
    let start = if after_id < dlen && is_pdf_whitespace(data[after_id]) { after_id + 1 } else { after_id };
    let mut q = start;
    loop
        invariant
            start <= q <= data@.len(),
            dlen == data@.len(),
            bi_offset + 2 <= after_id <= data@.len(),
            start == (if after_id < data@.len() && spec_is_whitespace(data@[after_id as int]) { after_id + 1 } else { after_id as int }),
            spec_ii_dict(data@, bi_offset + 2, bi_offset as int, Seq::empty()) == Ok::<(Seq<ObjectView>, int), ErrorKind>((view_items(acc@), after_id as int)),
            ei@ == kw_ei(),
            ei_search(data@, q as int) == ei_search(data@, start as int),
        decreases data@.len() - q,
    {
        if q >= dlen {
            return Err(ParseError::MalformedInlineImage { offset: bi_offset, reason: text("인라인 이미지 EI 키워드 없이 데이터 끝") });
        }
        if is_pdf_whitespace(data[q]) && keyword_at_exec(data, q + 1, &ei) {
            let image = copy_range(data, start, q);
            let op = ContentStreamOperation::inline_image(acc, image);
            proof {
                assert(op@.1 =~= view_items(acc@));
            }
            return Ok((op, q + 3));
        }
        q += 1;
    }
}

/// Parses a content stream into its operations.
pub fn parse_content_stream(data: &[u8]) -> (r: Result<Vec<ContentStreamOperation>, ParseError>)
    ensures
        match r {
            Ok(ops) => spec_content_stream(data@) == Ok::<Seq<(OperatorView, Seq<ObjectView>, Option<Seq<u8>>)>, ErrorKind>(view_ops(ops@)),
            Err(e) => spec_content_stream(data@) == Err::<Seq<(OperatorView, Seq<ObjectView>, Option<Seq<u8>>)>, ErrorKind>(e.kind()),
        },
{
    let dlen = data.len();
    let bi: [u8; 2] = [0x42, 0x49];
    assert(bi@ == kw_bi());
    let mut ops: Vec<ContentStreamOperation> = Vec::new();
    let mut operands: Vec<PdfObject> = Vec::new();
    let mut depth: u64 = 0;
    let mut pos: usize = 0;
    assert(view_ops(ops@) =~= Seq::<(OperatorView, Seq<ObjectView>, Option<Seq<u8>>)>::empty());
    assert(view_items(operands@) =~= Seq::<ObjectView>::empty());
    loop
        invariant
            pos <= data@.len(),
            dlen == data@.len(),
            2 * depth <= pos + 1,
            2 * depth == pos + 1 ==> (pos >= data@.len() || !spec_is_keyword_char(data@[pos as int])),
            bi@ == kw_bi(),
            spec_cs_from(data@, pos as int, view_ops(ops@), view_items(operands@), depth as int) == spec_content_stream(data@),
        decreases data@.len() - pos,
    {
        let w = skip_whitespace_and_comments(data, pos);
        proof {
            lemma_skip_ws_bounds(data@, pos as int, false);
        }
        if w < dlen && keyword_at_exec(data, w, &bi) {
            let (op, next) = match parse_inline_image(data, w) {
                Ok(x) => x,
                Err(e) => {
                    return Err(e);
                },
            };
            let ghost before = ops@;
            ops.push(op);
            assert(view_ops(ops@) =~= view_ops(before).push(op@));
            operands = Vec::new();
            assert(view_items(operands@) =~= Seq::<ObjectView>::empty());
            pos = next;
            continue;
        }
        match next_token(data, pos) {
            Err(e) => {
                return Err(e);
            },
            Ok(None) => {
                if depth > 0 {
                    let shown: i32 = if depth > 0x7FFF_FFFF { 0x7FFF_FFFF } else { depth as i32 };
                    return Err(ParseError::UnbalancedGraphicsState { offset: dlen, depth: shown });
                }
                return Ok(ops);
            },
            Ok(Some((Token::Operand(o), next))) => {
                let ghost before = operands@;
                operands.push(o);
                assert(view_items(operands@) =~= view_items(before).push(o@));
                pos = next;
            },
            Ok(Some((Token::Keyword(k), next))) => {
                let operator = keyword_to_operator(k.as_slice());
                let is_save = match &operator {
                    ContentStreamOperator::SaveState => true,
                    _ => false,
                };
                let is_restore = match &operator {
                    ContentStreamOperator::RestoreState => true,
                    _ => false,
                };
                if is_restore {
                    if depth == 0 {
                        return Err(ParseError::UnbalancedGraphicsState { offset: w, depth: -1 });
                    }
                    depth -= 1;
                } else if is_save {
                    depth += 1;
                }
                let taken = operands;
                operands = Vec::new();
                let op = ContentStreamOperation::new(operator, taken);
                let ghost before = ops@;
                ops.push(op);
                proof {
                    assert(op@.1 =~= view_items(taken@));
                    assert(view_ops(ops@) =~= view_ops(before).push(op@));
                    assert(view_items(operands@) =~= Seq::<ObjectView>::empty());
                }
                pos = next;
            },
        }
    }
}

} // verus!

//! Errors of the PDF parser.

use vstd::prelude::*;
use vstd::string::*;
use crate::types::ObjectId;

verus! {

/// Everything that can go wrong while parsing a PDF.
///
/// Variants carry, where they can, the byte offset of the failure and a short
/// text saying what was found, so that a failure can be located.
#[derive(Debug)]
pub enum ParseError {
    /// No `%PDF-` signature in the first kilobyte.
    HeaderNotFound { searched_bytes: usize },
    /// The version after `%PDF-` is not `<digit>.<digit>` followed by an end of line.
    InvalidVersion { offset: usize, found: String },
    /// No `%%EOF` marker near the end of the file.
    MissingEof,
    /// No `startxref` keyword before `%%EOF`.
    MissingStartXref,
    /// The value after `startxref` is not an unsigned integer.
    InvalidStartXref { found: String },
    /// No `trailer` keyword.
    MissingTrailer,
    /// A required trailer key is missing.
    MissingRequiredKey { key: &'static str },
    /// A value that must be an indirect reference is not one.
    InvalidObjectRef { found: String },
    /// The file uses a cross-reference stream (PDF 1.5+), which is not supported.
    XrefStreamUnsupported { xref_offset: u64 },
    /// A cross-reference entry is not in its 20-byte form.
    MalformedXref { offset: u64, reason: String },
    /// The `/Prev` chain comes back to an offset it has already visited.
    XrefChainCycle { offset: u64 },
    /// The `/Prev` chain is longer than allowed.
    XrefChainTooDeep { max_depth: usize },
    /// A cross-reference offset lies outside the file.
    XrefOffsetOutOfBounds { offset: u64, file_size: u64 },
    /// There is no `xref` keyword at the given offset.
    InvalidXrefAtOffset { offset: u64, found: String },
    /// The trailer dictionary is damaged.
    MalformedTrailer { reason: String },
    /// The trailer dictionary is larger than allowed.
    TrailerTooLarge { limit_kb: usize },
    /// Arrays or dictionaries are nested deeper than allowed.
    ObjectTooDeep { offset: usize, max_depth: usize },
    /// An object could not be parsed.
    InvalidObject { offset: usize, reason: String },
    /// A stream is damaged (`stream`/`endstream` or `/Length`).
    MalformedStream { offset: usize, reason: String },
    /// The `endobj` keyword is missing.
    MissingEndobj { offset: usize },
    /// Any other format error.
    UnexpectedFormat(String),
    /// A content stream holds a byte no operand or operator can start with.
    MalformedContentStream { offset: usize, reason: String },
    /// `q`/`Q` operators do not balance; `depth` is -1 for a `Q` without its `q`.
    UnbalancedGraphicsState { offset: usize, depth: i32 },
    /// An inline image `BI ... ID ... EI` is damaged.
    MalformedInlineImage { offset: usize, reason: String },
    /// The document catalog is damaged.
    MalformedCatalog { reason: String },
    /// The page tree is damaged.
    MalformedPageTree { reason: String },
    /// The contents of a page are damaged.
    MalformedPageContents { reason: String },
    /// A content stream uses a filter that is not supported.
    InvalidContentStreamFilter { filter: String },
    /// A referenced object does not exist (or is free).
    ReferenceNotFound { obj_id: ObjectId },
    /// A chain of references comes back to an object it has already visited.
    ReferenceCycle { obj_id: ObjectId },
    /// A chain of references is longer than allowed.
    ReferenceTooDeep { max_depth: usize },
}

/// A parse error as a value of specifications: its variant and everything
/// it carries, each text by its characters.
pub enum ErrorKind {
    HeaderNotFound { searched_bytes: usize },
    InvalidVersion { offset: usize, found: Seq<char> },
    MissingEof,
    MissingStartXref,
    InvalidStartXref { found: Seq<char> },
    MissingTrailer,
    MissingRequiredKey { key: Seq<char> },
    InvalidObjectRef { found: Seq<char> },
    XrefStreamUnsupported { xref_offset: u64 },
    MalformedXref { offset: u64, reason: Seq<char> },
    XrefChainCycle { offset: u64 },
    XrefChainTooDeep { max_depth: usize },
    XrefOffsetOutOfBounds { offset: u64, file_size: u64 },
    InvalidXrefAtOffset { offset: u64, found: Seq<char> },
    MalformedTrailer { reason: Seq<char> },
    TrailerTooLarge { limit_kb: usize },
    ObjectTooDeep { offset: usize, max_depth: usize },
    InvalidObject { offset: usize, reason: Seq<char> },
    MalformedStream { offset: usize, reason: Seq<char> },
    MissingEndobj { offset: usize },
    UnexpectedFormat { text: Seq<char> },
    MalformedContentStream { offset: usize, reason: Seq<char> },
    UnbalancedGraphicsState { offset: usize, depth: i32 },
    MalformedInlineImage { offset: usize, reason: Seq<char> },
    MalformedCatalog { reason: Seq<char> },
    MalformedPageTree { reason: Seq<char> },
    MalformedPageContents { reason: Seq<char> },
    InvalidContentStreamFilter { filter: Seq<char> },
    ReferenceNotFound { obj_id: ObjectId },
    ReferenceCycle { obj_id: ObjectId },
    ReferenceTooDeep { max_depth: usize },
}

impl ParseError {
    /// This error as a value: its variant, its positions and its texts.
    pub open spec fn kind(&self) -> ErrorKind {
        match *self {
            ParseError::HeaderNotFound { searched_bytes } => ErrorKind::HeaderNotFound { searched_bytes },
            ParseError::InvalidVersion { offset, found } => ErrorKind::InvalidVersion { offset, found: found@ },
            ParseError::MissingEof => ErrorKind::MissingEof,
            ParseError::MissingStartXref => ErrorKind::MissingStartXref,
            ParseError::InvalidStartXref { found } => ErrorKind::InvalidStartXref { found: found@ },
            ParseError::MissingTrailer => ErrorKind::MissingTrailer,
            ParseError::MissingRequiredKey { key } => ErrorKind::MissingRequiredKey { key: key@ },
            ParseError::InvalidObjectRef { found } => ErrorKind::InvalidObjectRef { found: found@ },
            ParseError::XrefStreamUnsupported { xref_offset } => ErrorKind::XrefStreamUnsupported { xref_offset },
            ParseError::MalformedXref { offset, reason } => ErrorKind::MalformedXref { offset, reason: reason@ },
            ParseError::XrefChainCycle { offset } => ErrorKind::XrefChainCycle { offset },
            ParseError::XrefChainTooDeep { max_depth } => ErrorKind::XrefChainTooDeep { max_depth },
            ParseError::XrefOffsetOutOfBounds { offset, file_size } => ErrorKind::XrefOffsetOutOfBounds { offset, file_size },
            ParseError::InvalidXrefAtOffset { offset, found } => ErrorKind::InvalidXrefAtOffset { offset, found: found@ },
            ParseError::MalformedTrailer { reason } => ErrorKind::MalformedTrailer { reason: reason@ },
            ParseError::TrailerTooLarge { limit_kb } => ErrorKind::TrailerTooLarge { limit_kb },
            ParseError::ObjectTooDeep { offset, max_depth } => ErrorKind::ObjectTooDeep { offset, max_depth },
            ParseError::InvalidObject { offset, reason } => ErrorKind::InvalidObject { offset, reason: reason@ },
            ParseError::MalformedStream { offset, reason } => ErrorKind::MalformedStream { offset, reason: reason@ },
            ParseError::MissingEndobj { offset } => ErrorKind::MissingEndobj { offset },
            ParseError::UnexpectedFormat(t) => ErrorKind::UnexpectedFormat { text: t@ },
            ParseError::MalformedContentStream { offset, reason } => ErrorKind::MalformedContentStream { offset, reason: reason@ },
            ParseError::UnbalancedGraphicsState { offset, depth } => ErrorKind::UnbalancedGraphicsState { offset, depth },
            ParseError::MalformedInlineImage { offset, reason } => ErrorKind::MalformedInlineImage { offset, reason: reason@ },
            ParseError::MalformedCatalog { reason } => ErrorKind::MalformedCatalog { reason: reason@ },
            ParseError::MalformedPageTree { reason } => ErrorKind::MalformedPageTree { reason: reason@ },
            ParseError::MalformedPageContents { reason } => ErrorKind::MalformedPageContents { reason: reason@ },
            ParseError::InvalidContentStreamFilter { filter } => ErrorKind::InvalidContentStreamFilter { filter: filter@ },
            ParseError::ReferenceNotFound { obj_id } => ErrorKind::ReferenceNotFound { obj_id },
            ParseError::ReferenceCycle { obj_id } => ErrorKind::ReferenceCycle { obj_id },
            ParseError::ReferenceTooDeep { max_depth } => ErrorKind::ReferenceTooDeep { max_depth },
        }
    }
}

/// An error that carries a text made of a literal.
pub fn text(s: &str) -> (r: String)
    ensures
        r@ == s@,
{
    String::from_str(s)
}

/// What `String::from_utf8_lossy` makes of a byte string: the text it
/// decodes, with U+FFFD for each invalid sequence.
pub uninterp spec fn lossy_utf8(bytes: Seq<u8>) -> Seq<char>;

/// The characters of an ASCII byte string.
pub open spec fn ascii_chars(bytes: Seq<u8>) -> Seq<char> {
    Seq::new(bytes.len(), |i: int| bytes[i] as char)
}

/// `String::from_utf8_lossy`, as an owned string. Its result is named by
/// `lossy_utf8`; on ASCII input, which is valid UTF-8, it is the same
/// characters.
#[verifier::external_body]
pub(crate) fn utf8_lossy(bytes: &[u8]) -> (r: String)
    ensures
        r@ == lossy_utf8(bytes@),
        (forall|i: int| 0 <= i < bytes@.len() ==> bytes@[i] < 0x80) ==> r@ == ascii_chars(bytes@),
{
    String::from_utf8_lossy(bytes).to_string()
}

/// The text an error shows of some input bytes: the first 16 of them.
pub open spec fn shown(b: Seq<u8>) -> Seq<char> {
    lossy_utf8(b.take(if b.len() < 16 { b.len() as int } else { 16 }))
}

/// The first `max` bytes of `bytes` (or all of them), as text for an error.
pub fn truncate_for_error(bytes: &[u8], max: usize) -> (r: String)
    ensures
        r@ == lossy_utf8(bytes@.take(if bytes@.len() < max { bytes@.len() as int } else { max as int })),
{
    let n = if bytes.len() < max { bytes.len() } else { max };
    let head = vstd::slice::slice_subrange(bytes, 0, n);
    assert(head@ =~= bytes@.take(n as int));
    utf8_lossy(head)
}

/// What `format!("{:?}", s)` makes of a string: the string in double
/// quotes, with its special characters escaped.
pub uninterp spec fn debug_str(s: Seq<char>) -> Seq<char>;

/// What `format!("{:?}", c)` makes of a character: the character in single
/// quotes, escaped where needed.
pub uninterp spec fn debug_char(c: char) -> Seq<char>;

/// `str`'s `Debug` formatting, as an owned string; its result is named by
/// `debug_str`.
#[verifier::external_body]
pub(crate) fn debug_quoted(s: &str) -> (r: String)
    ensures
        r@ == debug_str(s@),
{
    format!("{:?}", s)
}

/// `char`'s `Debug` formatting, as an owned string; its result is named by
/// `debug_char`.
#[verifier::external_body]
pub(crate) fn debug_of_char(c: char) -> (r: String)
    ensures
        r@ == debug_char(c),
{
    format!("{:?}", c)
}

/// The first `max` bytes of `b` (or all of them) as an error shows them:
/// decoded, then quoted.
pub open spec fn quoted_head(b: Seq<u8>, max: int) -> Seq<char> {
    debug_str(lossy_utf8(b.take(if b.len() < max { b.len() as int } else { max })))
}

/// A message: `prefix`, then what stands in `s` from `at`, as
/// `quoted_head` shows its first `max` bytes.
pub open spec fn found_msg(prefix: Seq<char>, s: Seq<u8>, at: int, max: int) -> Seq<char> {
    prefix + quoted_head(s.subrange(at, s.len() as int), max)
}

/// The message `prefix` followed by the first `max` bytes of `data` from
/// `at`, quoted.
pub fn found_text(prefix: &str, data: &[u8], at: usize, max: usize) -> (r: String)
    requires
        at <= data@.len(),
    ensures
        r@ == found_msg(prefix@, data@, at as int, max as int),
{
    let rest = vstd::slice::slice_subrange(data, at, data.len());
    let head = truncate_for_error(rest, max);
    let q = debug_quoted(head.as_str());
    let mut out = String::from_str(prefix);
    out.append(q.as_str());
    out
}

/// The message `prefix` followed by `b` written as `0x` and two
/// hexadecimal digits.
pub fn with_hex(prefix: &str, b: u8, upper: bool) -> (r: String)
    ensures
        r@ == prefix@ + hex_byte_in(b, upper),
{
    let h = hex_byte_text(b, upper);
    let mut out = String::from_str(prefix);
    out.append(h.as_str());
    out
}

/// A hexadecimal digit, in upper or lower case.
pub open spec fn hex_digit_char(d: int, upper: bool) -> char {
    if d < 10 {
        (0x30 + d) as char
    } else if upper {
        (0x41 + d - 10) as char
    } else {
        (0x61 + d - 10) as char
    }
}

/// A byte written as `0x` and two lower-case hexadecimal digits.
pub open spec fn hex_byte(b: u8) -> Seq<char> {
    hex_byte_in(b, false)
}

/// A byte written as `0x` and two hexadecimal digits, in upper or lower
/// case.
pub open spec fn hex_byte_in(b: u8, upper: bool) -> Seq<char> {
    seq!['0', 'x', hex_digit_char(b as int / 16, upper), hex_digit_char(b as int % 16, upper)]
}

/// The hexadecimal digit of `d`.
fn hex_digit(d: u8, upper: bool) -> (c: char)
    requires
        d < 16,
    ensures
        c == hex_digit_char(d as int, upper),
{
    if d < 10 {
        (0x30 + d) as char
    } else if upper {
        (0x41 + d - 10) as char
    } else {
        (0x61 + d - 10) as char
    }
}

/// `b` written as `0x` and two hexadecimal digits, in upper or lower case.
pub fn hex_byte_text(b: u8, upper: bool) -> (r: String)
    ensures
        r@ == hex_byte_in(b, upper),
{
    let v: Vec<char> = vec!['0', 'x', hex_digit(b / 16, upper), hex_digit(b % 16, upper)];
    let r = crate::text::chars_to_string(v.as_slice());
    assert(r@ =~= hex_byte_in(b, upper));
    r
}

} // verus!

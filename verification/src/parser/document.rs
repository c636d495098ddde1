//! Loading a document: resolving references through the cross-reference
//! table, walking the page tree with inherited attributes, and decoding
//! page contents (ISO 32000-1 §7.3.10, §7.7.2, §7.7.3).

use vstd::prelude::*;
use std::io::Read;
use crate::parser::content_stream::{parse_content_stream, spec_content_stream, view_ops};
use crate::parser::error::{ErrorKind, ParseError, lossy_utf8, text, utf8_lossy};
use crate::parser::objects::{parse_indirect_object, spec_parse_indirect};
use crate::text::{append_decimal, spec_decimal};
use crate::types::content_stream::OperatorView;
use crate::types::document::{
    Document, DocumentMetadata, DocumentView, MetadataView, Page, PageView, PdfNumber, clone_rect, opt_bytes,
    pages_view,
    rect_view,
};
use crate::parser::eof::{find_eof, spec_find_eof};
use crate::parser::startxref::{parse_startxref, spec_startxref};
use crate::parser::xref::{merge_sections, parse_xref, spec_xref_chain};
use crate::types::object::{
    ObjectId, ObjectView, PdfDict, PdfObject, bytes_equal, clone_dict, dict_lookup,
    lemma_array_view, lemma_dictionary_view, lemma_stream_view, view_object,
};
use crate::types::xref::{XrefEntry, XrefTable};

verus! {

/// How many references may be followed to reach an object.
pub const MAX_RESOLVE_DEPTH: usize = 50;

pub open spec fn key_type() -> Seq<u8> { seq![0x54u8, 0x79, 0x70, 0x65] }
/// The bytes `Type`.
pub fn bytes_type() -> (r: Vec<u8>)
    ensures
        r@ == key_type(),
{
    let a: [u8; 4] = [0x54, 0x79, 0x70, 0x65];
    let r = vstd::slice::slice_to_vec(&a);
    assert(r@ == key_type());
    r
}

pub open spec fn key_catalog() -> Seq<u8> { seq![0x43u8, 0x61, 0x74, 0x61, 0x6C, 0x6F, 0x67] }
/// The bytes `Catalog`.
pub fn bytes_catalog() -> (r: Vec<u8>)
    ensures
        r@ == key_catalog(),
{
    let a: [u8; 7] = [0x43, 0x61, 0x74, 0x61, 0x6C, 0x6F, 0x67];
    let r = vstd::slice::slice_to_vec(&a);
    assert(r@ == key_catalog());
    r
}

pub open spec fn key_pages() -> Seq<u8> { seq![0x50u8, 0x61, 0x67, 0x65, 0x73] }
/// The bytes `Pages`.
pub fn bytes_pages() -> (r: Vec<u8>)
    ensures
        r@ == key_pages(),
{
    let a: [u8; 5] = [0x50, 0x61, 0x67, 0x65, 0x73];
    let r = vstd::slice::slice_to_vec(&a);
    assert(r@ == key_pages());
    r
}

pub open spec fn key_page() -> Seq<u8> { seq![0x50u8, 0x61, 0x67, 0x65] }
/// The bytes `Page`.
pub fn bytes_page() -> (r: Vec<u8>)
    ensures
        r@ == key_page(),
{
    let a: [u8; 4] = [0x50, 0x61, 0x67, 0x65];
    let r = vstd::slice::slice_to_vec(&a);
    assert(r@ == key_page());
    r
}

pub open spec fn key_kids() -> Seq<u8> { seq![0x4Bu8, 0x69, 0x64, 0x73] }
/// The bytes `Kids`.
pub fn bytes_kids() -> (r: Vec<u8>)
    ensures
        r@ == key_kids(),
{
    let a: [u8; 4] = [0x4B, 0x69, 0x64, 0x73];
    let r = vstd::slice::slice_to_vec(&a);
    assert(r@ == key_kids());
    r
}

pub open spec fn key_contents() -> Seq<u8> { seq![0x43u8, 0x6F, 0x6E, 0x74, 0x65, 0x6E, 0x74, 0x73] }
/// The bytes `Contents`.
pub fn bytes_contents() -> (r: Vec<u8>)
    ensures
        r@ == key_contents(),
{
    let a: [u8; 8] = [0x43, 0x6F, 0x6E, 0x74, 0x65, 0x6E, 0x74, 0x73];
    let r = vstd::slice::slice_to_vec(&a);
    assert(r@ == key_contents());
    r
}

pub open spec fn key_filter() -> Seq<u8> { seq![0x46u8, 0x69, 0x6C, 0x74, 0x65, 0x72] }
/// The bytes `Filter`.
pub fn bytes_filter() -> (r: Vec<u8>)
    ensures
        r@ == key_filter(),
{
    let a: [u8; 6] = [0x46, 0x69, 0x6C, 0x74, 0x65, 0x72];
    let r = vstd::slice::slice_to_vec(&a);
    assert(r@ == key_filter());
    r
}

pub open spec fn key_flate() -> Seq<u8> { seq![0x46u8, 0x6C, 0x61, 0x74, 0x65, 0x44, 0x65, 0x63, 0x6F, 0x64, 0x65] }
/// The bytes `FlateDecode`.
pub fn bytes_flate() -> (r: Vec<u8>)
    ensures
        r@ == key_flate(),
{
    let a: [u8; 11] = [0x46, 0x6C, 0x61, 0x74, 0x65, 0x44, 0x65, 0x63, 0x6F, 0x64, 0x65];
    let r = vstd::slice::slice_to_vec(&a);
    assert(r@ == key_flate());
    r
}

pub open spec fn key_resources() -> Seq<u8> { seq![0x52u8, 0x65, 0x73, 0x6F, 0x75, 0x72, 0x63, 0x65, 0x73] }
/// The bytes `Resources`.
pub fn bytes_resources() -> (r: Vec<u8>)
    ensures
        r@ == key_resources(),
{
    let a: [u8; 9] = [0x52, 0x65, 0x73, 0x6F, 0x75, 0x72, 0x63, 0x65, 0x73];
    let r = vstd::slice::slice_to_vec(&a);
    assert(r@ == key_resources());
    r
}

pub open spec fn key_mediabox() -> Seq<u8> { seq![0x4Du8, 0x65, 0x64, 0x69, 0x61, 0x42, 0x6F, 0x78] }
/// The bytes `MediaBox`.
pub fn bytes_mediabox() -> (r: Vec<u8>)
    ensures
        r@ == key_mediabox(),
{
    let a: [u8; 8] = [0x4D, 0x65, 0x64, 0x69, 0x61, 0x42, 0x6F, 0x78];
    let r = vstd::slice::slice_to_vec(&a);
    assert(r@ == key_mediabox());
    r
}

pub open spec fn key_cropbox() -> Seq<u8> { seq![0x43u8, 0x72, 0x6F, 0x70, 0x42, 0x6F, 0x78] }
/// The bytes `CropBox`.
pub fn bytes_cropbox() -> (r: Vec<u8>)
    ensures
        r@ == key_cropbox(),
{
    let a: [u8; 7] = [0x43, 0x72, 0x6F, 0x70, 0x42, 0x6F, 0x78];
    let r = vstd::slice::slice_to_vec(&a);
    assert(r@ == key_cropbox());
    r
}

pub open spec fn key_rotate() -> Seq<u8> { seq![0x52u8, 0x6F, 0x74, 0x61, 0x74, 0x65] }
/// The bytes `Rotate`.
pub fn bytes_rotate() -> (r: Vec<u8>)
    ensures
        r@ == key_rotate(),
{
    let a: [u8; 6] = [0x52, 0x6F, 0x74, 0x61, 0x74, 0x65];
    let r = vstd::slice::slice_to_vec(&a);
    assert(r@ == key_rotate());
    r
}

pub open spec fn key_title() -> Seq<u8> { seq![0x54u8, 0x69, 0x74, 0x6C, 0x65] }
/// The bytes `Title`.
pub fn bytes_title() -> (r: Vec<u8>)
    ensures
        r@ == key_title(),
{
    let a: [u8; 5] = [0x54, 0x69, 0x74, 0x6C, 0x65];
    let r = vstd::slice::slice_to_vec(&a);
    assert(r@ == key_title());
    r
}

pub open spec fn key_author() -> Seq<u8> { seq![0x41u8, 0x75, 0x74, 0x68, 0x6F, 0x72] }
/// The bytes `Author`.
pub fn bytes_author() -> (r: Vec<u8>)
    ensures
        r@ == key_author(),
{
    let a: [u8; 6] = [0x41, 0x75, 0x74, 0x68, 0x6F, 0x72];
    let r = vstd::slice::slice_to_vec(&a);
    assert(r@ == key_author());
    r
}

pub open spec fn key_subject() -> Seq<u8> { seq![0x53u8, 0x75, 0x62, 0x6A, 0x65, 0x63, 0x74] }
/// The bytes `Subject`.
pub fn bytes_subject() -> (r: Vec<u8>)
    ensures
        r@ == key_subject(),
{
    let a: [u8; 7] = [0x53, 0x75, 0x62, 0x6A, 0x65, 0x63, 0x74];
    let r = vstd::slice::slice_to_vec(&a);
    assert(r@ == key_subject());
    r
}

pub open spec fn key_creator() -> Seq<u8> { seq![0x43u8, 0x72, 0x65, 0x61, 0x74, 0x6F, 0x72] }
/// The bytes `Creator`.
pub fn bytes_creator() -> (r: Vec<u8>)
    ensures
        r@ == key_creator(),
{
    let a: [u8; 7] = [0x43, 0x72, 0x65, 0x61, 0x74, 0x6F, 0x72];
    let r = vstd::slice::slice_to_vec(&a);
    assert(r@ == key_creator());
    r
}

pub open spec fn key_producer() -> Seq<u8> { seq![0x50u8, 0x72, 0x6F, 0x64, 0x75, 0x63, 0x65, 0x72] }
/// The bytes `Producer`.
pub fn bytes_producer() -> (r: Vec<u8>)
    ensures
        r@ == key_producer(),
{
    let a: [u8; 8] = [0x50, 0x72, 0x6F, 0x64, 0x75, 0x63, 0x65, 0x72];
    let r = vstd::slice::slice_to_vec(&a);
    assert(r@ == key_producer());
    r
}

pub open spec fn key_creationdate() -> Seq<u8> { seq![0x43u8, 0x72, 0x65, 0x61, 0x74, 0x69, 0x6F, 0x6E, 0x44, 0x61, 0x74, 0x65] }
/// The bytes `CreationDate`.
pub fn bytes_creationdate() -> (r: Vec<u8>)
    ensures
        r@ == key_creationdate(),
{
    let a: [u8; 12] = [0x43, 0x72, 0x65, 0x61, 0x74, 0x69, 0x6F, 0x6E, 0x44, 0x61, 0x74, 0x65];
    let r = vstd::slice::slice_to_vec(&a);
    assert(r@ == key_creationdate());
    r
}

pub open spec fn key_moddate() -> Seq<u8> { seq![0x4Du8, 0x6F, 0x64, 0x44, 0x61, 0x74, 0x65] }
/// The bytes `ModDate`.
pub fn bytes_moddate() -> (r: Vec<u8>)
    ensures
        r@ == key_moddate(),
{
    let a: [u8; 7] = [0x4D, 0x6F, 0x64, 0x44, 0x61, 0x74, 0x65];
    let r = vstd::slice::slice_to_vec(&a);
    assert(r@ == key_moddate());
    r
}

// ─── resolving references ────────────────────────────────────────────────

/// The object `id` refers to, given the table `x`: an in-use entry is read
/// at its offset, and a reference found there is followed in turn. `chain`
/// holds the object numbers on the way; a repeated number is a cycle, and
/// at most 50 references are followed.
#[verifier::opaque]
pub open spec fn spec_resolve(s: Seq<u8>, x: Map<u32, XrefEntry>, id: ObjectId, chain: Seq<u32>) -> Result<ObjectView, ErrorKind>
    decreases MAX_RESOLVE_DEPTH - chain.len(),
{
    if chain.len() >= MAX_RESOLVE_DEPTH {
        Err(ErrorKind::ReferenceTooDeep { max_depth: MAX_RESOLVE_DEPTH })
    } else if chain.contains(id.number) {
        Err(ErrorKind::ReferenceCycle { obj_id: id })
    } else if !x.contains_key(id.number) {
        Err(ErrorKind::ReferenceNotFound { obj_id: id })
    } else {
        match x[id.number] {
            XrefEntry::InUse { offset, .. } => if offset > s.len() {
                Err(ErrorKind::InvalidObject { offset: offset as usize, reason: "object offset beyond the end of the data"@ })
            } else {
                match spec_parse_indirect(s, offset as int) {
                    Err(e) => Err(e),
                    Ok((found, _)) => match found.1 {
                        ObjectView::Reference(next) => spec_resolve(s, x, next, chain.push(id.number)),
                        other => Ok(other),
                    },
                }
            },
            XrefEntry::Compressed { obj_stm_num, .. } => if x.contains_key(obj_stm_num) && x[obj_stm_num] is InUse {
                Err(ErrorKind::UnexpectedFormat { text: "objects in object streams are not supported"@ })
            } else {
                Err(ErrorKind::ReferenceNotFound { obj_id: ObjectId { number: obj_stm_num, generation: 0 } })
            },
            XrefEntry::Free { .. } => Err(ErrorKind::ReferenceNotFound { obj_id: id }),
        }
    }
}

/// Whether `v` holds `x`.
fn contains_number(v: &Vec<u32>, x: u32) -> (r: bool)
    ensures
        r == v@.contains(x),
{
    let mut i: usize = 0;
    while i < v.len()
        invariant
            i <= v@.len(),
            forall|j: int| 0 <= j < i ==> v@[j] != x,
        decreases v@.len() - i,
    {
        if v[i] == x {
            return true;
        }
        i += 1;
    }
    false
}

fn get_object_inner(data: &[u8], xref: &XrefTable, obj_id: ObjectId, chain: &mut Vec<u32>) -> (r: Result<PdfObject, ParseError>)
    requires
        old(chain)@.len() <= MAX_RESOLVE_DEPTH,
    ensures
        match r {
            Ok(o) => spec_resolve(data@, xref@, obj_id, old(chain)@) == Ok::<ObjectView, ErrorKind>(o@),
            Err(e) => spec_resolve(data@, xref@, obj_id, old(chain)@) == Err::<ObjectView, ErrorKind>(e.kind()),
        },
    decreases MAX_RESOLVE_DEPTH - old(chain)@.len(),
{
    reveal(spec_resolve);
    if chain.len() >= MAX_RESOLVE_DEPTH {
        return Err(ParseError::ReferenceTooDeep { max_depth: MAX_RESOLVE_DEPTH });
    }
    if contains_number(chain, obj_id.number) {
        return Err(ParseError::ReferenceCycle { obj_id });
    }
    let entry = match xref.get(obj_id.number) {
        Some(e) => *e,
        None => {
            return Err(ParseError::ReferenceNotFound { obj_id });
        },
    };
    let ghost c0 = chain@;
    chain.push(obj_id.number);
    let obj = match entry {
        XrefEntry::InUse { offset, .. } => {
            if offset > data.len() as u64 {
                return Err(ParseError::InvalidObject { offset: #[verifier::truncate] (offset as usize), reason: text("object offset beyond the end of the data") });
            }
            match parse_indirect_object(data, offset as usize) {
                Ok((ind, _)) => ind.object,
                Err(e) => {
                    return Err(e);
                },
            }
        },
        XrefEntry::Compressed { obj_stm_num, .. } => {
            let stream_id = ObjectId { number: obj_stm_num, generation: 0 };
            match xref.get(obj_stm_num) {
                Some(XrefEntry::InUse { .. }) => {
                    return Err(ParseError::UnexpectedFormat(text("objects in object streams are not supported")));
                },
                _ => {
                    return Err(ParseError::ReferenceNotFound { obj_id: stream_id });
                },
            }
        },
        XrefEntry::Free { .. } => {
            return Err(ParseError::ReferenceNotFound { obj_id });
        },
    };
    match obj {
        PdfObject::Reference(next) => {
            assert(chain@ == c0.push(obj_id.number));
            get_object_inner(data, xref, next, chain)
        },
        other => Ok(other),
    }
}

/// The object `obj_id` refers to, following references.
pub fn get_object(data: &[u8], xref: &XrefTable, obj_id: ObjectId) -> (r: Result<PdfObject, ParseError>)
    ensures
        match r {
            Ok(o) => spec_resolve(data@, xref@, obj_id, Seq::empty()) == Ok::<ObjectView, ErrorKind>(o@),
            Err(e) => spec_resolve(data@, xref@, obj_id, Seq::empty()) == Err::<ObjectView, ErrorKind>(e.kind()),
        },
{
    let mut chain: Vec<u32> = Vec::new();
    assert(chain@ =~= Seq::<u32>::empty());
    get_object_inner(data, xref, obj_id, &mut chain)
}

/// The document catalog: the root object, a dictionary whose `/Type` is
/// `/Catalog`.
pub open spec fn spec_catalog(s: Seq<u8>, x: Map<u32, XrefEntry>, root: ObjectId) -> Result<Seq<(Seq<u8>, ObjectView)>, ErrorKind> {
    match spec_resolve(s, x, root, Seq::empty()) {
        Err(e) => Err(e),
        Ok(ObjectView::Dictionary(d)) => match dict_lookup(d, key_type()) {
            Some(ObjectView::Name(n)) => if n == key_catalog() {
                Ok(d)
            } else {
                Err(ErrorKind::MalformedCatalog { reason: "/Type is not /Catalog"@ })
            },
            Some(_) => Err(ErrorKind::MalformedCatalog { reason: "/Type is not /Catalog"@ }),
            None => Err(ErrorKind::MalformedCatalog { reason: "/Type key missing in root object"@ }),
        },
        Ok(_) => Err(ErrorKind::MalformedCatalog { reason: "root object is not a dictionary"@ }),
    }
}

/// Reads the document catalog.
pub fn find_catalog(data: &[u8], xref: &XrefTable, root_id: ObjectId) -> (r: Result<PdfDict, ParseError>)
    ensures
        match r {
            Ok(d) => spec_catalog(data@, xref@, root_id) == Ok::<Seq<(Seq<u8>, ObjectView)>, ErrorKind>(d@),
            Err(e) => spec_catalog(data@, xref@, root_id) == Err::<Seq<(Seq<u8>, ObjectView)>, ErrorKind>(e.kind()),
        },
{
    let obj = match get_object(data, xref, root_id) {
        Ok(o) => o,
        Err(e) => {
            return Err(e);
        },
    };
    let dict = match obj {
        PdfObject::Dictionary(d) => {
            proof {
                lemma_dictionary_view(d);
            }
            d
        },
        _ => {
            return Err(ParseError::MalformedCatalog { reason: text("root object is not a dictionary") });
        },
    };
    let kt = bytes_type();
    let kc = bytes_catalog();
    match dict.get(kt.as_slice()) {
        Some(PdfObject::Name(n)) => {
            if !bytes_equal(n.as_slice(), kc.as_slice()) {
                return Err(ParseError::MalformedCatalog { reason: text("/Type is not /Catalog") });
            }
        },
        Some(_) => {
            return Err(ParseError::MalformedCatalog { reason: text("/Type is not /Catalog") });
        },
        None => {
            return Err(ParseError::MalformedCatalog { reason: text("/Type key missing in root object") });
        },
    }
    Ok(dict)
}

// ─── page contents ───────────────────────────────────────────────────────

/// What flate2's `ZlibDecoder` yields for `data`: the inflated bytes, or
/// `None` when the zlib stream is damaged.
pub uninterp spec fn zlib_decoded(data: Seq<u8>) -> Option<Seq<u8>>;

/// `flate2::read::ZlibDecoder` read to its end: the inflated bytes, or
/// `None` when reading fails. The result is named by `zlib_decoded`.
#[verifier::external_body]
fn zlib_decode(data: &[u8]) -> (r: Option<Vec<u8>>)
    ensures
        match r {
            Some(v) => zlib_decoded(data@) == Some(v@),
            None => zlib_decoded(data@) is None,
        },
{
    let mut out: Vec<u8> = Vec::new();
    match flate2::read::ZlibDecoder::new(data).read_to_end(&mut out) {
        Ok(_) => Some(out),
        Err(_) => None,
    }
}

/// Inflates FlateDecode (zlib) data.
pub fn decompress_flate(raw: &[u8], offset: u64) -> (r: Result<Vec<u8>, ParseError>)
    ensures
        match r {
            Ok(v) => zlib_decoded(raw@) == Some(v@),
            Err(e) => zlib_decoded(raw@) is None && e.kind() == ErrorKind::UnexpectedFormat { text: "the FlateDecode data does not inflate"@ },
        },
{
    match zlib_decode(raw) {
        Some(v) => Ok(v),
        None => Err(ParseError::UnexpectedFormat(text("the FlateDecode data does not inflate"))),
    }
}

/// The inflated bytes of FlateDecode data, as page contents.
pub open spec fn spec_inflate(data: Seq<u8>) -> Result<Seq<u8>, ErrorKind> {
    match zlib_decoded(data) {
        Some(v) => Ok(v),
        None => Err(ErrorKind::MalformedPageContents { reason: "FlateDecode 압축 해제 실패: 예상치 못한 형식: the FlateDecode data does not inflate"@ }),
    }
}

/// The decoded data of a content stream object: no filter, or
/// `/FlateDecode` alone (as a name or a one-element array).
#[verifier::opaque]
pub open spec fn spec_stream_data(o: ObjectView) -> Result<Seq<u8>, ErrorKind> {
    match o {
        ObjectView::Stream(d, data) => match dict_lookup(d, key_filter()) {
            None => Ok(data),
            Some(ObjectView::Name(n)) => if n == key_flate() {
                spec_inflate(data)
            } else {
                Err(ErrorKind::InvalidContentStreamFilter { filter: lossy_utf8(n) })
            },
            Some(ObjectView::Array(arr)) => if arr.len() == 1 {
                match arr[0] {
                    ObjectView::Name(n) => if n == key_flate() {
                        spec_inflate(data)
                    } else {
                        Err(ErrorKind::InvalidContentStreamFilter { filter: lossy_utf8(n) })
                    },
                    _ => Err(ErrorKind::MalformedPageContents { reason: "/Filter array contains non-name"@ }),
                }
            } else {
                Err(ErrorKind::InvalidContentStreamFilter { filter: "multiple filters ("@ + spec_decimal(arr.len()) + ")"@ })
            },
            Some(_) => Err(ErrorKind::MalformedPageContents { reason: "/Filter value is not a name or array"@ }),
        },
        _ => Err(ErrorKind::MalformedPageContents { reason: "a /Contents object is not a stream"@ }),
    }
}

/// The decoded data of the content stream `obj` (object `obj_id`).
pub fn extract_stream_data(obj: PdfObject, obj_id: ObjectId) -> (r: Result<Vec<u8>, ParseError>)
    ensures
        match r {
            Ok(v) => spec_stream_data(obj@) == Ok::<Seq<u8>, ErrorKind>(v@),
            Err(e) => spec_stream_data(obj@) == Err::<Seq<u8>, ErrorKind>(e.kind()),
        },
{
    reveal(spec_stream_data);
    let st = match obj {
        PdfObject::Stream(st) => {
            proof {
                lemma_stream_view(st);
            }
            st
        },
        _ => {
            return Err(ParseError::MalformedPageContents { reason: text("a /Contents object is not a stream") });
        },
    };
    let kf = bytes_filter();
    let fl = bytes_flate();
    match st.dict.get(kf.as_slice()) {
        None => Ok(st.data),
        Some(PdfObject::Name(name)) => {
            if bytes_equal(name.as_slice(), fl.as_slice()) {
                match decompress_flate(st.data.as_slice(), 0) {
                    Ok(v) => Ok(v),
                    Err(_) => Err(ParseError::MalformedPageContents { reason: text("FlateDecode 압축 해제 실패: 예상치 못한 형식: the FlateDecode data does not inflate") }),
                }
            } else {
                Err(ParseError::InvalidContentStreamFilter { filter: utf8_lossy(name.as_slice()) })
            }
        },
        Some(PdfObject::Array(arr)) => {
            proof {
                lemma_array_view(*arr);
            }
            if arr.len() == 1 {
                match &arr[0] {
                    PdfObject::Name(name) => {
                        if bytes_equal(name.as_slice(), fl.as_slice()) {
                            match decompress_flate(st.data.as_slice(), 0) {
                                Ok(v) => Ok(v),
                                Err(_) => Err(ParseError::MalformedPageContents { reason: text("FlateDecode 압축 해제 실패: 예상치 못한 형식: the FlateDecode data does not inflate") }),
                            }
                        } else {
                            Err(ParseError::InvalidContentStreamFilter { filter: utf8_lossy(name.as_slice()) })
                        }
                    },
                    _ => Err(ParseError::MalformedPageContents { reason: text("/Filter array contains non-name") }),
                }
            } else {
                let mut f = text("multiple filters (");
                append_decimal(&mut f, arr.len() as u64);
                f.append(")");
                Err(ParseError::InvalidContentStreamFilter { filter: f })
            }
        },
        Some(_) => Err(ParseError::MalformedPageContents { reason: text("/Filter value is not a name or array") }),
    }
}

/// The decoded contents of the streams listed in `items` from `i`,
/// appended to `acc`.
pub open spec fn spec_concat_contents(s: Seq<u8>, x: Map<u32, XrefEntry>, items: Seq<ObjectView>, i: int, acc: Seq<u8>) -> Result<Seq<u8>, ErrorKind>
    decreases items.len() - i,
{
    if i < 0 || i >= items.len() {
        Ok(acc)
    } else {
        match items[i] {
            ObjectView::Reference(id) => match spec_resolve(s, x, id, Seq::empty()) {
                Err(e) => Err(e),
                Ok(o) => match spec_stream_data(o) {
                    Err(e) => Err(e),
                    Ok(chunk) => spec_concat_contents(s, x, items, i + 1, acc + chunk),
                },
            },
            _ => Err(ErrorKind::MalformedPageContents { reason: "/Contents array contains non-reference"@ }),
        }
    }
}

/// The decoded `/Contents` of a page: nothing, one stream, or the
/// concatenation of an array of streams.
pub open spec fn spec_contents(s: Seq<u8>, x: Map<u32, XrefEntry>, page: Seq<(Seq<u8>, ObjectView)>) -> Result<Seq<u8>, ErrorKind> {
    match dict_lookup(page, key_contents()) {
        None => Ok(Seq::empty()),
        Some(ObjectView::Reference(id)) => match spec_resolve(s, x, id, Seq::empty()) {
            Err(e) => Err(e),
            Ok(o) => spec_stream_data(o),
        },
        Some(ObjectView::Array(items)) => spec_concat_contents(s, x, items, 0, Seq::empty()),
        Some(_) => Err(ErrorKind::MalformedPageContents { reason: "/Contents is not a reference or array"@ }),
    }
}

/// Reads and decodes the `/Contents` of a page.
pub fn merge_contents(data: &[u8], xref: &XrefTable, page_dict: &PdfDict) -> (r: Result<Vec<u8>, ParseError>)
    ensures
        match r {
            Ok(v) => spec_contents(data@, xref@, page_dict@) == Ok::<Seq<u8>, ErrorKind>(v@),
            Err(e) => spec_contents(data@, xref@, page_dict@) == Err::<Seq<u8>, ErrorKind>(e.kind()),
        },
{
    let kc = bytes_contents();
    match page_dict.get(kc.as_slice()) {
        None => Ok(Vec::new()),
        Some(PdfObject::Reference(id)) => {
            let obj = match get_object(data, xref, *id) {
                Ok(o) => o,
                Err(e) => {
                    return Err(e);
                },
            };
            extract_stream_data(obj, *id)
        },
        Some(PdfObject::Array(arr)) => {
            proof {
                lemma_array_view(*arr);
            }
            let ghost items = Seq::new(arr@.len(), |j: int| view_object(arr@[j]));
            let mut combined: Vec<u8> = Vec::new();
            let mut i: usize = 0;
            assert(combined@ =~= Seq::<u8>::empty());
            assert(spec_contents(data@, xref@, page_dict@) == spec_concat_contents(data@, xref@, items, 0, Seq::empty()));
            while i < arr.len()
                invariant
                    i <= arr@.len(),
                    spec_contents(data@, xref@, page_dict@) == spec_concat_contents(data@, xref@, items, 0, Seq::empty()),
                    items == Seq::new(arr@.len(), |j: int| view_object(arr@[j])),
                    spec_concat_contents(data@, xref@, items, i as int, combined@) == spec_concat_contents(data@, xref@, items, 0, Seq::empty()),
                decreases arr@.len() - i,
            {
                let id = match &arr[i] {
                    PdfObject::Reference(id) => *id,
                    _ => {
                        return Err(ParseError::MalformedPageContents { reason: text("/Contents array contains non-reference") });
                    },
                };
                let obj = match get_object(data, xref, id) {
                    Ok(o) => o,
                    Err(e) => {
                        return Err(e);
                    },
                };
                let mut chunk = match extract_stream_data(obj, id) {
                    Ok(c) => c,
                    Err(e) => {
                        return Err(e);
                    },
                };
                combined.append(&mut chunk);
                i += 1;
            }
            Ok(combined)
        },
        Some(_) => Err(ParseError::MalformedPageContents { reason: text("/Contents is not a reference or array") }),
    }
}

// ─── page attributes ─────────────────────────────────────────────────────

/// A box `[a b c d]` of four numbers; `None` for anything else.
pub open spec fn spec_rect(arr: Seq<ObjectView>) -> Option<Seq<ObjectView>> {
    if arr.len() == 4 && forall|i: int| 0 <= i < 4 ==> (#[trigger] arr[i] is Integer || arr[i] is Real) {
        Some(arr)
    } else {
        None
    }
}

/// The number an object holds, if it is one.
fn to_number(o: &PdfObject) -> (r: Option<PdfNumber>)
    ensures
        match r {
            Some(n) => (o@ is Integer || o@ is Real) && n@ == o@,
            None => !(o@ is Integer || o@ is Real),
        },
{
    match o {
        PdfObject::Integer(n) => Some(PdfNumber::Integer(*n)),
        PdfObject::Real(t) => Some(PdfNumber::Real(crate::types::object::copy_bytes(t))),
        _ => None,
    }
}

/// Reads a box from an array of four numbers.
pub fn parse_rect(arr: &[PdfObject]) -> (r: Option<[PdfNumber; 4]>)
    ensures
        match r {
            Some(a) => spec_rect(Seq::new(arr@.len(), |i: int| view_object(arr@[i]))) == Some(rect_view(a)),
            None => spec_rect(Seq::new(arr@.len(), |i: int| view_object(arr@[i]))) is None,
        },
{
    let ghost v = Seq::new(arr@.len(), |i: int| view_object(arr@[i]));
    if arr.len() != 4 {
        return None;
    }
    let a = match to_number(&arr[0]) {
        Some(n) => n,
        None => {
            assert(!(v[0] is Integer || v[0] is Real));
            return None;
        },
    };
    let b = match to_number(&arr[1]) {
        Some(n) => n,
        None => {
            assert(!(v[1] is Integer || v[1] is Real));
            return None;
        },
    };
    let c = match to_number(&arr[2]) {
        Some(n) => n,
        None => {
            assert(!(v[2] is Integer || v[2] is Real));
            return None;
        },
    };
    let d = match to_number(&arr[3]) {
        Some(n) => n,
        None => {
            assert(!(v[3] is Integer || v[3] is Real));
            return None;
        },
    };
    let rect = [a, b, c, d];
    assert(rect_view(rect) =~= v);
    Some(rect)
}

/// The attributes a page inherits from its ancestors in the page tree
/// (ISO 32000-1 §7.7.3.4).
#[derive(Debug)]
pub struct InheritedPageAttrs {
    pub resources: Option<PdfDict>,
    pub media_box: Option<[PdfNumber; 4]>,
    pub crop_box: Option<[PdfNumber; 4]>,
    pub rotation: Option<i32>,
}

/// The value of inherited attributes.
pub type InheritedView = (
    Option<Seq<(Seq<u8>, ObjectView)>>,
    Option<Seq<ObjectView>>,
    Option<Seq<ObjectView>>,
    Option<i32>,
);

impl View for InheritedPageAttrs {
    type V = InheritedView;

    open spec fn view(&self) -> InheritedView {
        (
            match self.resources {
                Some(d) => Some(d@),
                None => None,
            },
            match self.media_box {
                Some(b) => Some(rect_view(b)),
                None => None,
            },
            match self.crop_box {
                Some(b) => Some(rect_view(b)),
                None => None,
            },
            self.rotation,
        )
    }
}

impl InheritedPageAttrs {
    /// No inherited attribute.
    pub fn none() -> (r: InheritedPageAttrs)
        ensures
            r@ == (None::<Seq<(Seq<u8>, ObjectView)>>, None::<Seq<ObjectView>>, None::<Seq<ObjectView>>, None::<i32>),
    {
        InheritedPageAttrs { resources: None, media_box: None, crop_box: None, rotation: None }
    }
}

/// The heritable attributes a node sets itself: `/Resources` when a
/// dictionary, `/MediaBox` and `/CropBox` when boxes of four numbers, and
/// `/Rotate` when an integer (kept modulo 2^32).
pub open spec fn spec_heritable(d: Seq<(Seq<u8>, ObjectView)>) -> InheritedView {
    (
        match dict_lookup(d, key_resources()) {
            Some(ObjectView::Dictionary(r)) => Some(r),
            _ => None,
        },
        match dict_lookup(d, key_mediabox()) {
            Some(ObjectView::Array(a)) => spec_rect(a),
            _ => None,
        },
        match dict_lookup(d, key_cropbox()) {
            Some(ObjectView::Array(a)) => spec_rect(a),
            _ => None,
        },
        match dict_lookup(d, key_rotate()) {
            Some(ObjectView::Integer(n)) => Some(n as i32),
            _ => None,
        },
    )
}

/// The first of two optional values that is there.
pub open spec fn or_else<T>(a: Option<T>, b: Option<T>) -> Option<T> {
    match a {
        Some(v) => Some(v),
        None => b,
    }
}

/// A node's attributes: its own where it sets them, else its parent's.
pub open spec fn spec_merge_inherited(parent: InheritedView, d: Seq<(Seq<u8>, ObjectView)>) -> InheritedView {
    let c = spec_heritable(d);
    (or_else(c.0, parent.0), or_else(c.1, parent.1), or_else(c.2, parent.2), or_else(c.3, parent.3))
}

/// Page attributes are inherited through the page tree (ISO 32000-1
/// §7.7.3.4): for each of /Resources, /MediaBox, /CropBox and /Rotate, a
/// node that sets the attribute itself (a dictionary, a box of four
/// numbers, an integer) has that value, and a node that does not takes its
/// parent's.
pub proof fn lemma_attributes_inherited(parent: InheritedView, d: Seq<(Seq<u8>, ObjectView)>)
    ensures
        spec_merge_inherited(parent, d).0 == match dict_lookup(d, seq![0x52u8, 0x65, 0x73, 0x6F, 0x75, 0x72, 0x63, 0x65, 0x73]) {
            Some(ObjectView::Dictionary(r)) => Some(r),
            _ => parent.0,
        },
        spec_merge_inherited(parent, d).1 == match dict_lookup(d, seq![0x4Du8, 0x65, 0x64, 0x69, 0x61, 0x42, 0x6F, 0x78]) {
            Some(ObjectView::Array(a)) => if a.len() == 4 && forall|i: int| 0 <= i < 4 ==> (#[trigger] a[i] is Integer || a[i] is Real) {
                Some(a)
            } else {
                parent.1
            },
            _ => parent.1,
        },
        spec_merge_inherited(parent, d).2 == match dict_lookup(d, seq![0x43u8, 0x72, 0x6F, 0x70, 0x42, 0x6F, 0x78]) {
            Some(ObjectView::Array(a)) => if a.len() == 4 && forall|i: int| 0 <= i < 4 ==> (#[trigger] a[i] is Integer || a[i] is Real) {
                Some(a)
            } else {
                parent.2
            },
            _ => parent.2,
        },
        spec_merge_inherited(parent, d).3 == match dict_lookup(d, seq![0x52u8, 0x6F, 0x74, 0x61, 0x74, 0x65]) {
            Some(ObjectView::Integer(n)) => Some(n as i32),
            _ => parent.3,
        },
{
    assert(key_resources() == seq![0x52u8, 0x65, 0x73, 0x6F, 0x75, 0x72, 0x63, 0x65, 0x73]);
    assert(key_mediabox() == seq![0x4Du8, 0x65, 0x64, 0x69, 0x61, 0x42, 0x6F, 0x78]);
    assert(key_cropbox() == seq![0x43u8, 0x72, 0x6F, 0x70, 0x42, 0x6F, 0x78]);
    assert(key_rotate() == seq![0x52u8, 0x6F, 0x74, 0x61, 0x74, 0x65]);
}

/// The box under `key`, if it is an array of four numbers.
fn rect_entry(dict: &PdfDict, key: &[u8]) -> (r: Option<[PdfNumber; 4]>)
    ensures
        match r {
            Some(b) => (match dict_lookup(dict@, key@) {
                Some(ObjectView::Array(a)) => spec_rect(a),
                _ => None,
            }) == Some(rect_view(b)),
            None => (match dict_lookup(dict@, key@) {
                Some(ObjectView::Array(a)) => spec_rect(a),
                _ => None,
            }) is None,
        },
{
    match dict.get(key) {
        Some(PdfObject::Array(arr)) => {
            proof {
                lemma_array_view(*arr);
            }
            parse_rect(arr.as_slice())
        },
        _ => None,
    }
}

/// The heritable attributes that `dict` sets itself.
pub fn extract_heritable(dict: &PdfDict) -> (r: InheritedPageAttrs)
    ensures
        r@ == spec_heritable(dict@),
{
    let kr = bytes_resources();
    let km = bytes_mediabox();
    let kc = bytes_cropbox();
    let kt = bytes_rotate();
    let resources = match dict.get(kr.as_slice()) {
        Some(PdfObject::Dictionary(d)) => {
            proof {
                lemma_dictionary_view(*d);
            }
            Some(clone_dict(d))
        },
        _ => None,
    };
    let media_box = rect_entry(dict, km.as_slice());
    let crop_box = rect_entry(dict, kc.as_slice());
    let rotation = match dict.get(kt.as_slice()) {
        Some(PdfObject::Integer(n)) => Some(#[verifier::truncate] (*n as i32)),
        _ => None,
    };
    InheritedPageAttrs { resources, media_box, crop_box, rotation }
}

/// The attributes of a node: its own, else those it inherits from `parent`.
pub fn merge_inherited(parent: &InheritedPageAttrs, child_dict: &PdfDict) -> (r: InheritedPageAttrs)
    ensures
        r@ == spec_merge_inherited(parent@, child_dict@),
{
    let c = extract_heritable(child_dict);
    let resources = match c.resources {
        Some(d) => Some(d),
        None => match &parent.resources {
            Some(d) => Some(clone_dict(d)),
            None => None,
        },
    };
    let media_box = match c.media_box {
        Some(b) => Some(b),
        None => match &parent.media_box {
            Some(b) => Some(clone_rect(b)),
            None => None,
        },
    };
    let crop_box = match c.crop_box {
        Some(b) => Some(b),
        None => match &parent.crop_box {
            Some(b) => Some(clone_rect(b)),
            None => None,
        },
    };
    let rotation = match c.rotation {
        Some(v) => Some(v),
        None => parent.rotation,
    };
    InheritedPageAttrs { resources, media_box, crop_box, rotation }
}

// ─── pages ───────────────────────────────────────────────────────────────

/// How deeply the page tree may nest.
pub const MAX_PAGE_TREE_DEPTH: usize = 64;

/// The page `page` with attributes inherited from `inh`, at `index`: its
/// decoded contents parsed as a content stream.
pub open spec fn spec_build_page(
    s: Seq<u8>,
    x: Map<u32, XrefEntry>,
    page: Seq<(Seq<u8>, ObjectView)>,
    inh: InheritedView,
    index: usize,
) -> Result<PageView, ErrorKind> {
    let pi = spec_merge_inherited(inh, page);
    match spec_contents(s, x, page) {
        Err(e) => Err(e),
        Ok(raw) => {
            let content: Result<Seq<(OperatorView, Seq<ObjectView>, Option<Seq<u8>>)>, ErrorKind> = if raw.len() == 0 {
                Ok(Seq::empty())
            } else {
                match spec_content_stream(raw) {
                    Ok(ops) => Ok(ops),
                    Err(_) => Err(ErrorKind::MalformedPageContents { reason: "the page contents do not parse"@ }),
                }
            };
            match content {
                Err(e) => Err(e),
                Ok(ops) => Ok(
                    (
                        index,
                        ops,
                        pi.0,
                        pi.1,
                        pi.2,
                        match pi.3 {
                            Some(r) => r,
                            None => 0i32,
                        },
                    ),
                ),
            }
        },
    }
}

/// Builds the page whose dictionary is `page_dict`.
pub fn build_page(
    data: &[u8],
    xref: &XrefTable,
    page_dict: PdfDict,
    inherited: &InheritedPageAttrs,
    index: usize,
) -> (r: Result<Page, ParseError>)
    ensures
        match r {
            Ok(p) => spec_build_page(data@, xref@, page_dict@, inherited@, index) == Ok::<PageView, ErrorKind>(p@),
            Err(e) => spec_build_page(data@, xref@, page_dict@, inherited@, index) == Err::<PageView, ErrorKind>(e.kind()),
        },
{
    let pi = merge_inherited(inherited, &page_dict);
    let raw = match merge_contents(data, xref, &page_dict) {
        Ok(v) => v,
        Err(e) => {
            return Err(e);
        },
    };
    let content = if raw.len() == 0 {
        Vec::new()
    } else {
        match parse_content_stream(raw.as_slice()) {
            Ok(ops) => ops,
            Err(_) => {
                return Err(ParseError::MalformedPageContents { reason: text("the page contents do not parse") });
            },
        }
    };
    let rotation = match pi.rotation {
        Some(r) => r,
        None => 0,
    };
    let page = Page {
        index,
        content,
        resources: pi.resources,
        media_box: pi.media_box,
        crop_box: pi.crop_box,
        rotation,
    };
    assert(page@.1 =~= (if raw@.len() == 0 { Seq::empty() } else { view_ops(page.content@) }));
    Ok(page)
}


/// The pages under the page-tree node `node`, in order, numbered from
/// `counter`, with the counter after them. A node with `/Type /Pages`, or
/// with `/Kids` and no `/Type`, has kids; one with `/Type /Page`, or with
/// neither key, is a page; any other `/Type` is an error.
pub open spec fn spec_collect_pages(
    s: Seq<u8>,
    x: Map<u32, XrefEntry>,
    node: Seq<(Seq<u8>, ObjectView)>,
    inh: InheritedView,
    counter: int,
    depth: int,
) -> Result<(Seq<PageView>, int), ErrorKind>
    decreases MAX_PAGE_TREE_DEPTH - depth, 2int, 0int,
{
    if depth < 0 || depth >= MAX_PAGE_TREE_DEPTH {
        Err(ErrorKind::MalformedPageTree { reason: "the page tree nests too deeply"@ })
    } else {
        let ni = spec_merge_inherited(inh, node);
        let is_pages = match dict_lookup(node, key_type()) {
            Some(t) => t == ObjectView::Name(key_pages()),
            None => dict_lookup(node, key_kids()) is Some,
        };
        let is_page = match dict_lookup(node, key_type()) {
            Some(t) => t == ObjectView::Name(key_page()),
            None => dict_lookup(node, key_kids()) is None,
        };
        if is_pages {
            spec_collect_kids(s, x, node, ni, counter, depth)
        } else if is_page {
            if counter < 0 || counter >= usize::MAX {
                Err(ErrorKind::MalformedPageTree { reason: "too many pages"@ })
            } else {
                match spec_build_page(s, x, node, ni, counter as usize) {
                    Ok(p) => Ok((seq![p], counter + 1)),
                    Err(e) => Err(e),
                }
            }
        } else {
            Err(ErrorKind::MalformedPageTree { reason: "unknown /Type"@ })
        }
    }
}

/// The pages under the kids of the node `node`.
pub open spec fn spec_collect_kids(
    s: Seq<u8>,
    x: Map<u32, XrefEntry>,
    node: Seq<(Seq<u8>, ObjectView)>,
    ni: InheritedView,
    counter: int,
    depth: int,
) -> Result<(Seq<PageView>, int), ErrorKind>
    decreases MAX_PAGE_TREE_DEPTH - depth, 1int, 0int,
{
    match dict_lookup(node, key_kids()) {
        Some(ObjectView::Array(kids)) => spec_kids_from(s, x, kids, 0, ni, counter, depth, Seq::empty()),
        Some(_) => Err(ErrorKind::MalformedPageTree { reason: "/Kids is not an array"@ }),
        None => Err(ErrorKind::MalformedPageTree { reason: "/Kids key missing in Pages node"@ }),
    }
}

/// The pages under the kids from `i`, appended to `acc`: each kid must be a
/// reference to a dictionary.
pub open spec fn spec_kids_from(
    s: Seq<u8>,
    x: Map<u32, XrefEntry>,
    kids: Seq<ObjectView>,
    i: int,
    ni: InheritedView,
    counter: int,
    depth: int,
    acc: Seq<PageView>,
) -> Result<(Seq<PageView>, int), ErrorKind>
    decreases MAX_PAGE_TREE_DEPTH - depth, 0int, kids.len() - i,
{
    if i < 0 || i >= kids.len() {
        Ok((acc, counter))
    } else if depth < 0 || depth >= MAX_PAGE_TREE_DEPTH {
        Err(ErrorKind::MalformedPageTree { reason: "the page tree nests too deeply"@ })
    } else {
        match kids[i] {
            ObjectView::Reference(id) => match spec_resolve(s, x, id, Seq::empty()) {
                Err(e) => Err(e),
                Ok(ObjectView::Dictionary(kd)) => match spec_collect_pages(s, x, kd, ni, counter, depth + 1) {
                    Err(e) => Err(e),
                    Ok((pages, c2)) => spec_kids_from(s, x, kids, i + 1, ni, c2, depth, acc + pages),
                },
                Ok(_) => Err(ErrorKind::MalformedPageTree { reason: "kid object is not a dictionary"@ }),
            },
            _ => Err(ErrorKind::MalformedPageTree { reason: "/Kids array contains non-reference"@ }),
        }
    }
}

/// Whether `o` is the name `n`.
fn is_name(o: &PdfObject, n: &[u8]) -> (r: bool)
    ensures
        r == (o@ == ObjectView::Name(n@)),
{
    match o {
        PdfObject::Name(v) => bytes_equal(v.as_slice(), n),
        _ => false,
    }
}

/// Collects the pages under the page-tree node `node_dict`.
pub fn collect_pages(
    data: &[u8],
    xref: &XrefTable,
    node_dict: PdfDict,
    inherited: &InheritedPageAttrs,
    counter: &mut usize,
    depth: usize,
) -> (r: Result<Vec<Page>, ParseError>)
    ensures
        match r {
            Ok(pages) => spec_collect_pages(data@, xref@, node_dict@, inherited@, *old(counter) as int, depth as int)
                == Ok::<(Seq<PageView>, int), ErrorKind>((pages_view(pages@), *final(counter) as int)),
            Err(e) => spec_collect_pages(data@, xref@, node_dict@, inherited@, *old(counter) as int, depth as int)
                == Err::<(Seq<PageView>, int), ErrorKind>(e.kind()),
        },
    decreases MAX_PAGE_TREE_DEPTH - depth, 2int, 0int,
{
    if depth >= MAX_PAGE_TREE_DEPTH {
        return Err(ParseError::MalformedPageTree { reason: text("the page tree nests too deeply") });
    }
    let ni = merge_inherited(inherited, &node_dict);
    let kt = bytes_type();
    let kk = bytes_kids();
    let kps = bytes_pages();
    let kp = bytes_page();
    let (is_pages, is_page) = match node_dict.get(kt.as_slice()) {
        Some(t) => (is_name(t, kps.as_slice()), is_name(t, kp.as_slice())),
        None => {
            let has_kids = node_dict.get(kk.as_slice()).is_some();
            (has_kids, !has_kids)
        },
    };
    if is_pages {
        collect_kids(data, xref, &node_dict, &ni, counter, depth)
    } else if is_page {
        if *counter == usize::MAX {
            return Err(ParseError::MalformedPageTree { reason: text("too many pages") });
        }
        let page = match build_page(data, xref, node_dict, &ni, *counter) {
            Ok(p) => p,
            Err(e) => {
                return Err(e);
            },
        };
        *counter = *counter + 1;
        let mut v: Vec<Page> = Vec::new();
        v.push(page);
        assert(pages_view(v@) =~= seq![page@]);
        Ok(v)
    } else {
        Err(ParseError::MalformedPageTree { reason: text("unknown /Type") })
    }
}

/// Collects the pages under the kids of the node `node_dict`.
pub fn collect_kids(
    data: &[u8],
    xref: &XrefTable,
    node_dict: &PdfDict,
    node_inherited: &InheritedPageAttrs,
    counter: &mut usize,
    depth: usize,
) -> (r: Result<Vec<Page>, ParseError>)
    requires
        depth < MAX_PAGE_TREE_DEPTH,
    ensures
        match r {
            Ok(pages) => spec_collect_kids(data@, xref@, node_dict@, node_inherited@, *old(counter) as int, depth as int)
                == Ok::<(Seq<PageView>, int), ErrorKind>((pages_view(pages@), *final(counter) as int)),
            Err(e) => spec_collect_kids(data@, xref@, node_dict@, node_inherited@, *old(counter) as int, depth as int)
                == Err::<(Seq<PageView>, int), ErrorKind>(e.kind()),
        },
    decreases MAX_PAGE_TREE_DEPTH - depth, 1int, 0int,
{
    let kk = bytes_kids();
    let kids = match node_dict.get(kk.as_slice()) {
        Some(PdfObject::Array(arr)) => {
            proof {
                lemma_array_view(*arr);
            }
            arr
        },
        Some(_) => {
            return Err(ParseError::MalformedPageTree { reason: text("/Kids is not an array") });
        },
        None => {
            return Err(ParseError::MalformedPageTree { reason: text("/Kids key missing in Pages node") });
        },
    };
    let ghost kv = Seq::new(kids@.len(), |j: int| view_object(kids@[j]));
    let mut pages: Vec<Page> = Vec::new();
    let mut i: usize = 0;
    assert(pages_view(pages@) =~= Seq::<PageView>::empty());
    while i < kids.len()
        invariant
            i <= kids@.len(),
            depth < MAX_PAGE_TREE_DEPTH,
            kv == Seq::new(kids@.len(), |j: int| view_object(kids@[j])),
            spec_collect_kids(data@, xref@, node_dict@, node_inherited@, *old(counter) as int, depth as int)
                == spec_kids_from(data@, xref@, kv, 0, node_inherited@, *old(counter) as int, depth as int, Seq::empty()),
            spec_kids_from(data@, xref@, kv, i as int, node_inherited@, *counter as int, depth as int, pages_view(pages@))
                == spec_kids_from(data@, xref@, kv, 0, node_inherited@, *old(counter) as int, depth as int, Seq::empty()),
        decreases kids@.len() - i,
    {
        let id = match &kids[i] {
            PdfObject::Reference(id) => *id,
            _ => {
                return Err(ParseError::MalformedPageTree { reason: text("/Kids array contains non-reference") });
            },
        };
        let kid = match get_object(data, xref, id) {
            Ok(o) => o,
            Err(e) => {
                return Err(e);
            },
        };
        let kd = match kid {
            PdfObject::Dictionary(d) => {
                proof {
                    lemma_dictionary_view(d);
                }
                d
            },
            _ => {
                return Err(ParseError::MalformedPageTree { reason: text("kid object is not a dictionary") });
            },
        };
        let mut child = match collect_pages(data, xref, kd, node_inherited, counter, depth + 1) {
            Ok(v) => v,
            Err(e) => {
                return Err(e);
            },
        };
        let ghost before = pages@;
        let ghost cv = child@;
        pages.append(&mut child);
        assert(pages_view(pages@) =~= pages_view(before) + pages_view(cv));
        i += 1;
    }
    Ok(pages)
}

// ─── metadata and the whole document ─────────────────────────────────────

/// A text field of the information dictionary: the bytes of a string value.
pub open spec fn spec_meta_field(d: Seq<(Seq<u8>, ObjectView)>, key: Seq<u8>) -> Option<Seq<u8>> {
    match dict_lookup(d, key) {
        Some(ObjectView::LiteralString(b)) => Some(b),
        Some(ObjectView::HexString(b)) => Some(b),
        _ => None,
    }
}

/// The text under `key` in a dictionary: a literal or hexadecimal string's
/// bytes, or nothing.
pub open spec fn string_at(d: Seq<(Seq<u8>, ObjectView)>, key: Seq<u8>) -> Option<Seq<u8>> {
    match dict_lookup(d, key) {
        Some(ObjectView::LiteralString(b)) => Some(b),
        Some(ObjectView::HexString(b)) => Some(b),
        _ => None,
    }
}

/// Each metadata field is the string under its own key of the information
/// dictionary: /Title, /Author, /Subject, /Creator, /Producer,
/// /CreationDate and /ModDate, in that order.
pub proof fn lemma_metadata_fields(s: Seq<u8>, x: Map<u32, XrefEntry>, info: ObjectId, d: Seq<(Seq<u8>, ObjectView)>)
    requires
        spec_resolve(s, x, info, Seq::empty()) == Ok::<ObjectView, ErrorKind>(ObjectView::Dictionary(d)),
    ensures
        spec_metadata(s, x, info) matches Ok(m) && {
            &&& m.0 == string_at(d, seq![0x54u8, 0x69, 0x74, 0x6C, 0x65])
            &&& m.1 == string_at(d, seq![0x41u8, 0x75, 0x74, 0x68, 0x6F, 0x72])
            &&& m.2 == string_at(d, seq![0x53u8, 0x75, 0x62, 0x6A, 0x65, 0x63, 0x74])
            &&& m.3 == string_at(d, seq![0x43u8, 0x72, 0x65, 0x61, 0x74, 0x6F, 0x72])
            &&& m.4 == string_at(d, seq![0x50u8, 0x72, 0x6F, 0x64, 0x75, 0x63, 0x65, 0x72])
            &&& m.5 == string_at(d, seq![0x43u8, 0x72, 0x65, 0x61, 0x74, 0x69, 0x6F, 0x6E, 0x44, 0x61, 0x74, 0x65])
            &&& m.6 == string_at(d, seq![0x4Du8, 0x6F, 0x64, 0x44, 0x61, 0x74, 0x65])
        },
{
    assert(key_title() == seq![0x54u8, 0x69, 0x74, 0x6C, 0x65]);
    assert(key_author() == seq![0x41u8, 0x75, 0x74, 0x68, 0x6F, 0x72]);
    assert(key_subject() == seq![0x53u8, 0x75, 0x62, 0x6A, 0x65, 0x63, 0x74]);
    assert(key_creator() == seq![0x43u8, 0x72, 0x65, 0x61, 0x74, 0x6F, 0x72]);
    assert(key_producer() == seq![0x50u8, 0x72, 0x6F, 0x64, 0x75, 0x63, 0x65, 0x72]);
    assert(key_creationdate() == seq![0x43u8, 0x72, 0x65, 0x61, 0x74, 0x69, 0x6F, 0x6E, 0x44, 0x61, 0x74, 0x65]);
    assert(key_moddate() == seq![0x4Du8, 0x6F, 0x64, 0x44, 0x61, 0x74, 0x65]);
}

/// The metadata of the information dictionary `info`; an object that is
/// not a dictionary gives empty metadata.
pub open spec fn spec_metadata(s: Seq<u8>, x: Map<u32, XrefEntry>, info: ObjectId) -> Result<MetadataView, ErrorKind> {
    match spec_resolve(s, x, info, Seq::empty()) {
        Err(e) => Err(e),
        Ok(ObjectView::Dictionary(d)) => Ok(
            (
                spec_meta_field(d, key_title()),
                spec_meta_field(d, key_author()),
                spec_meta_field(d, key_subject()),
                spec_meta_field(d, key_creator()),
                spec_meta_field(d, key_producer()),
                spec_meta_field(d, key_creationdate()),
                spec_meta_field(d, key_moddate()),
            ),
        ),
        Ok(_) => Ok((None, None, None, None, None, None, None)),
    }
}

/// The string bytes under `key`, copied.
fn meta_field(dict: &PdfDict, key: &[u8]) -> (r: Option<Vec<u8>>)
    ensures
        opt_bytes(r) == spec_meta_field(dict@, key@),
{
    match dict.get(key) {
        Some(v) => match v.as_string_bytes() {
            Some(b) => Some(vstd::slice::slice_to_vec(b)),
            None => None,
        },
        None => None,
    }
}

/// Reads the document information dictionary `info_id`.
pub fn extract_metadata(data: &[u8], xref: &XrefTable, info_id: ObjectId) -> (r: Result<DocumentMetadata, ParseError>)
    ensures
        match r {
            Ok(m) => spec_metadata(data@, xref@, info_id) == Ok::<MetadataView, ErrorKind>(m@),
            Err(e) => spec_metadata(data@, xref@, info_id) == Err::<MetadataView, ErrorKind>(e.kind()),
        },
{
    let obj = match get_object(data, xref, info_id) {
        Ok(o) => o,
        Err(e) => {
            return Err(e);
        },
    };
    let dict = match obj {
        PdfObject::Dictionary(d) => {
            proof {
                lemma_dictionary_view(d);
            }
            d
        },
        _ => {
            return Ok(DocumentMetadata::default());
        },
    };
    let title = meta_field(&dict, bytes_title().as_slice());
    let author = meta_field(&dict, bytes_author().as_slice());
    let subject = meta_field(&dict, bytes_subject().as_slice());
    let creator = meta_field(&dict, bytes_creator().as_slice());
    let producer = meta_field(&dict, bytes_producer().as_slice());
    let creation_date = meta_field(&dict, bytes_creationdate().as_slice());
    let modification_date = meta_field(&dict, bytes_moddate().as_slice());
    Ok(DocumentMetadata { title, author, subject, creator, producer, creation_date, modification_date })
}

/// The document in `s`: the last `%%EOF`, the `startxref` before it, the
/// merged cross-reference chain, the catalog named by the newest trailer,
/// its `/Pages` tree, and the information dictionary when the trailer
/// names one and it can be read (metadata that cannot be read is left
/// out, not an error).
pub open spec fn spec_load_document(s: Seq<u8>) -> Result<DocumentView, ErrorKind> {
    match spec_find_eof(s) {
        Err(e) => Err(e),
        Ok(eof) => match spec_startxref(s, eof) {
            Err(e) => Err(e),
            Ok(xo) => match spec_xref_chain(s, xo, Seq::empty(), 0) {
                Err(e) => Err(e),
                Ok(secs) => {
                    let x = merge_sections(Map::empty(), secs);
                    let t = secs[0].2;
                    match spec_catalog(s, x, t.root) {
                        Err(e) => Err(e),
                        Ok(cat) => match dict_lookup(cat, key_pages()) {
                            Some(ObjectView::Reference(pid)) => match spec_resolve(s, x, pid, Seq::empty()) {
                                Err(e) => Err(e),
                                Ok(ObjectView::Dictionary(pd)) => match spec_collect_pages(
                                    s,
                                    x,
                                    pd,
                                    (None, None, None, None),
                                    0,
                                    0,
                                ) {
                                    Err(e) => Err(e),
                                    Ok((pages, _)) => Ok(
                                        (
                                            pages,
                                            match t.info {
                                                None => None,
                                                Some(i) => match spec_metadata(s, x, i) {
                                                    Ok(m) => Some(m),
                                                    Err(_) => None,
                                                },
                                            },
                                        ),
                                    ),
                                },
                                Ok(_) => Err(ErrorKind::MalformedCatalog { reason: "/Pages is not a dictionary"@ }),
                            },
                            Some(_) => Err(ErrorKind::MalformedCatalog { reason: "/Pages is not a reference"@ }),
                            None => Err(ErrorKind::MalformedCatalog { reason: "/Pages key missing"@ }),
                        },
                    }
                },
            },
        },
    }
}

/// Loads a document: locates the trailer, reads the cross-reference chain,
/// and walks the page tree from the catalog.
pub fn load_document(data: &[u8]) -> (r: Result<Document, ParseError>)
    ensures
        match r {
            Ok(d) => spec_load_document(data@) == Ok::<DocumentView, ErrorKind>(
                (
                    pages_view(d.pages@),
                    match d.metadata {
                        Some(m) => Some(m@),
                        None => None,
                    },
                ),
            ),
            Err(e) => spec_load_document(data@) == Err::<DocumentView, ErrorKind>(e.kind()),
        },
{
    let eof = match find_eof(data) {
        Ok(p) => p,
        Err(e) => {
            return Err(e);
        },
    };
    let xo = match parse_startxref(data, eof) {
        Ok(v) => v,
        Err(e) => {
            return Err(e);
        },
    };
    let px = match parse_xref(data, xo) {
        Ok(px) => px,
        Err(e) => {
            return Err(e);
        },
    };
    let xref = &px.table;
    let trailer = px.trailer;
    let catalog = match find_catalog(data, xref, trailer.root) {
        Ok(d) => d,
        Err(e) => {
            return Err(e);
        },
    };
    let kp = bytes_pages();
    let pages_ref = match catalog.get(kp.as_slice()) {
        Some(PdfObject::Reference(id)) => *id,
        Some(_) => {
            return Err(ParseError::MalformedCatalog { reason: text("/Pages is not a reference") });
        },
        None => {
            return Err(ParseError::MalformedCatalog { reason: text("/Pages key missing") });
        },
    };
    let pages_obj = match get_object(data, xref, pages_ref) {
        Ok(o) => o,
        Err(e) => {
            return Err(e);
        },
    };
    let pages_dict = match pages_obj {
        PdfObject::Dictionary(d) => {
            proof {
                lemma_dictionary_view(d);
            }
            d
        },
        _ => {
            return Err(ParseError::MalformedCatalog { reason: text("/Pages is not a dictionary") });
        },
    };
    let inherited = InheritedPageAttrs::none();
    let mut counter: usize = 0;
    let pages = match collect_pages(data, xref, pages_dict, &inherited, &mut counter, 0) {
        Ok(p) => p,
        Err(e) => {
            return Err(e);
        },
    };
    let metadata = match trailer.info {
        None => None,
        Some(info_id) => match extract_metadata(data, xref, info_id) {
            Ok(m) => Some(m),
            Err(_) => None,
        },
    };
    Ok(Document { pages, metadata })
}

} // verus!

verus! {

/// Pages numbered in order from `base`, and a counter just past them.
pub open spec fn numbered_from(pages: Seq<PageView>, base: int, next: int) -> bool {
    &&& next == base + pages.len()
    &&& forall|j: int| 0 <= j < pages.len() ==> #[trigger] pages[j].0 == base + j
}

/// The pages collected under a node are numbered in order from the counter
/// given, and the counter after them is just past the last.
pub proof fn lemma_collect_pages_numbered(
    s: Seq<u8>,
    x: Map<u32, XrefEntry>,
    node: Seq<(Seq<u8>, ObjectView)>,
    inh: InheritedView,
    counter: int,
    depth: int,
)
    ensures
        spec_collect_pages(s, x, node, inh, counter, depth) matches Ok((pages, next))
            ==> numbered_from(pages, counter, next),
    decreases MAX_PAGE_TREE_DEPTH - depth, 2int, 0int,
{
    if depth < 0 || depth >= MAX_PAGE_TREE_DEPTH {
    } else {
        let ni = spec_merge_inherited(inh, node);
        let is_pages = match dict_lookup(node, key_type()) {
            Some(t) => t == ObjectView::Name(key_pages()),
            None => dict_lookup(node, key_kids()) is Some,
        };
        if is_pages {
            match dict_lookup(node, key_kids()) {
                Some(ObjectView::Array(kids)) => {
                    lemma_kids_numbered(s, x, kids, 0, ni, counter, depth, Seq::empty(), counter);
                },
                _ => {},
            }
        }
    }
}

/// Collecting the kids from `i` onto pages numbered from `base` keeps them
/// numbered in order.
pub proof fn lemma_kids_numbered(
    s: Seq<u8>,
    x: Map<u32, XrefEntry>,
    kids: Seq<ObjectView>,
    i: int,
    ni: InheritedView,
    counter: int,
    depth: int,
    acc: Seq<PageView>,
    base: int,
)
    requires
        numbered_from(acc, base, counter),
    ensures
        spec_kids_from(s, x, kids, i, ni, counter, depth, acc) matches Ok((pages, next))
            ==> numbered_from(pages, base, next),
    decreases MAX_PAGE_TREE_DEPTH - depth, 0int, kids.len() - i,
{
    if i < 0 || i >= kids.len() {
    } else if depth < 0 || depth >= MAX_PAGE_TREE_DEPTH {
    } else {
        match kids[i] {
            ObjectView::Reference(id) => match spec_resolve(s, x, id, Seq::empty()) {
                Ok(ObjectView::Dictionary(kd)) => {
                    lemma_collect_pages_numbered(s, x, kd, ni, counter, depth + 1);
                    match spec_collect_pages(s, x, kd, ni, counter, depth + 1) {
                        Ok((pages, c2)) => {
                            let acc2 = acc + pages;
                            assert forall|j: int| 0 <= j < acc2.len() implies #[trigger] acc2[j].0 == base + j by {
                                if j >= acc.len() {
                                    assert(acc2[j] == pages[j - acc.len()]);
                                }
                            }
                            lemma_kids_numbered(s, x, kids, i + 1, ni, c2, depth, acc2, base);
                        },
                        Err(_) => {},
                    }
                },
                _ => {},
            },
            _ => {},
        }
    }
}

/// The pages of a loaded document are numbered in order from 0: the page
/// at each position has that position as its index.
pub proof fn lemma_loaded_pages_numbered(s: Seq<u8>)
    ensures
        spec_load_document(s) matches Ok(doc) ==> forall|j: int| 0 <= j < doc.0.len() ==> #[trigger] doc.0[j].0 == j,
{
    match spec_find_eof(s) {
        Ok(eof) => match spec_startxref(s, eof) {
            Ok(xo) => match spec_xref_chain(s, xo, Seq::empty(), 0) {
                Ok(secs) => {
                    let x = merge_sections(Map::empty(), secs);
                    match spec_catalog(s, x, secs[0].2.root) {
                        Ok(cat) => match dict_lookup(cat, key_pages()) {
                            Some(ObjectView::Reference(pid)) => match spec_resolve(s, x, pid, Seq::empty()) {
                                Ok(ObjectView::Dictionary(pd)) => {
                                    lemma_collect_pages_numbered(s, x, pd, (None, None, None, None), 0, 0);
                                },
                                _ => {},
                            },
                            _ => {},
                        },
                        _ => {},
                    }
                },
                _ => {},
            },
            _ => {},
        },
        _ => {},
    }
}

} // verus!

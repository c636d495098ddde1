//! A loaded document: its pages in order and its metadata.

use vstd::prelude::*;
use crate::types::content_stream::{ContentStreamOperation, OperatorView, clone_operation};
use crate::types::object::{ObjectView, PdfDict, clone_dict, copy_bytes};

verus! {

/// A number of a page box: an integer, or a real number as its decimal text.
#[derive(Debug, Clone, PartialEq)]
pub enum PdfNumber {
    Integer(i64),
    Real(Vec<u8>),
}

impl View for PdfNumber {
    type V = ObjectView;

    open spec fn view(&self) -> ObjectView {
        match *self {
            PdfNumber::Integer(n) => ObjectView::Integer(n),
            PdfNumber::Real(t) => ObjectView::Real(t@),
        }
    }
}

/// The value of a box: its four numbers.
pub open spec fn rect_view(r: [PdfNumber; 4]) -> Seq<ObjectView> {
    Seq::new(4, |i: int| r@[i]@)
}

/// A copy of a number.
pub fn clone_number(n: &PdfNumber) -> (r: PdfNumber)
    ensures
        r@ == n@,
{
    match n {
        PdfNumber::Integer(v) => PdfNumber::Integer(*v),
        PdfNumber::Real(t) => PdfNumber::Real(copy_bytes(t)),
    }
}

/// A copy of a box.
pub fn clone_rect(r: &[PdfNumber; 4]) -> (c: [PdfNumber; 4])
    ensures
        rect_view(c) == rect_view(*r),
{
    let c = [clone_number(&r[0]), clone_number(&r[1]), clone_number(&r[2]), clone_number(&r[3])];
    assert(rect_view(c) =~= rect_view(*r));
    c
}

/// One page: its position in the document, its content operations, and
/// its attributes after inheritance from the page tree.
#[derive(Debug, Clone)]
pub struct Page {
    /// The position of the page in the document, from 0.
    pub index: usize,
    /// The operations of the page's content streams, concatenated.
    pub content: Vec<ContentStreamOperation>,
    /// `/Resources`, own or inherited.
    pub resources: Option<PdfDict>,
    /// `/MediaBox`, own or inherited.
    pub media_box: Option<[PdfNumber; 4]>,
    /// `/CropBox`, own or inherited.
    pub crop_box: Option<[PdfNumber; 4]>,
    /// `/Rotate`, own or inherited; 0 when neither.
    pub rotation: i32,
}

/// The value of a page: index, operations, resources, media box, crop box
/// and rotation.
pub type PageView = (
    usize,
    Seq<(OperatorView, Seq<ObjectView>, Option<Seq<u8>>)>,
    Option<Seq<(Seq<u8>, ObjectView)>>,
    Option<Seq<ObjectView>>,
    Option<Seq<ObjectView>>,
    i32,
);

impl View for Page {
    type V = PageView;

    open spec fn view(&self) -> PageView {
        (
            self.index,
            Seq::new(self.content@.len(), |i: int| self.content@[i]@),
            match self.resources {
                Some(d) => Some(d@),
                None => None,
            },
            match self.media_box {
                Some(b) => Some(rect_view(b)),
                None => None,
            },
            match self.crop_box {
                Some(b) => Some(rect_view(b)),
                None => None,
            },
            self.rotation,
        )
    }
}

impl Page {
    /// The content operations.
    pub fn content(&self) -> (r: &[ContentStreamOperation])
        ensures
            r@ == self.content@,
    {
        self.content.as_slice()
    }

    /// The resources dictionary, if any.
    pub fn resources(&self) -> (r: Option<&PdfDict>)
        ensures
            r == (match self.resources {
                Some(ref d) => Some(d),
                None => None::<&PdfDict>,
            }),
    {
        match &self.resources {
            Some(d) => Some(d),
            None => None,
        }
    }

    /// The media box, if any.
    pub fn media_box(&self) -> (r: Option<[PdfNumber; 4]>)
        ensures
            match (r, self.media_box) {
                (Some(a), Some(b)) => rect_view(a) == rect_view(b),
                (None, None) => true,
                _ => false,
            },
    {
        match &self.media_box {
            Some(b) => Some(clone_rect(b)),
            None => None,
        }
    }

    /// The crop box, if any.
    pub fn crop_box(&self) -> (r: Option<[PdfNumber; 4]>)
        ensures
            match (r, self.crop_box) {
                (Some(a), Some(b)) => rect_view(a) == rect_view(b),
                (None, None) => true,
                _ => false,
            },
    {
        match &self.crop_box {
            Some(b) => Some(clone_rect(b)),
            None => None,
        }
    }

    /// The rotation in degrees.
    pub fn rotation(&self) -> (r: i32)
        ensures
            r == self.rotation,
    {
        self.rotation
    }
}

/// The document information dictionary's text fields (ISO 32000-1 §14.3.3),
/// as raw string bytes.
#[derive(Debug, Clone)]
pub struct DocumentMetadata {
    pub title: Option<Vec<u8>>,
    pub author: Option<Vec<u8>>,
    pub subject: Option<Vec<u8>>,
    pub creator: Option<Vec<u8>>,
    pub producer: Option<Vec<u8>>,
    pub creation_date: Option<Vec<u8>>,
    pub modification_date: Option<Vec<u8>>,
}

/// The value of metadata: its seven fields in declaration order.
pub type MetadataView = (
    Option<Seq<u8>>,
    Option<Seq<u8>>,
    Option<Seq<u8>>,
    Option<Seq<u8>>,
    Option<Seq<u8>>,
    Option<Seq<u8>>,
    Option<Seq<u8>>,
);

/// The value of an optional byte string.
pub open spec fn opt_bytes(o: Option<Vec<u8>>) -> Option<Seq<u8>> {
    match o {
        Some(v) => Some(v@),
        None => None,
    }
}

impl View for DocumentMetadata {
    type V = MetadataView;

    open spec fn view(&self) -> MetadataView {
        (
            opt_bytes(self.title),
            opt_bytes(self.author),
            opt_bytes(self.subject),
            opt_bytes(self.creator),
            opt_bytes(self.producer),
            opt_bytes(self.creation_date),
            opt_bytes(self.modification_date),
        )
    }
}

impl Default for DocumentMetadata {
    fn default() -> (r: Self)
        ensures
            r.title is None && r.author is None && r.subject is None && r.creator is None
                && r.producer is None && r.creation_date is None && r.modification_date is None,
    {
        DocumentMetadata {
            title: None,
            author: None,
            subject: None,
            creator: None,
            producer: None,
            creation_date: None,
            modification_date: None,
        }
    }
}

/// The values of a list of pages.
pub open spec fn pages_view(ps: Seq<Page>) -> Seq<PageView> {
    Seq::new(ps.len(), |i: int| ps[i]@)
}

/// The value of optional metadata.
pub open spec fn opt_metadata(m: Option<DocumentMetadata>) -> Option<MetadataView> {
    match m {
        Some(m) => Some(m@),
        None => None,
    }
}

/// A document: its pages in order and, when the trailer names one, the
/// information dictionary.
#[derive(Debug, Clone)]
pub struct Document {
    pub pages: Vec<Page>,
    pub metadata: Option<DocumentMetadata>,
}

/// The value of a document: its pages and its metadata.
pub type DocumentView = (Seq<PageView>, Option<MetadataView>);

impl View for Document {
    type V = DocumentView;

    open spec fn view(&self) -> DocumentView {
        (pages_view(self.pages@), opt_metadata(self.metadata))
    }
}

impl Document {
    /// The pages in order.
    pub fn pages(&self) -> (r: &[Page])
        ensures
            r@ == self.pages@,
    {
        self.pages.as_slice()
    }

    /// The number of pages.
    pub fn page_count(&self) -> (n: usize)
        ensures
            n == self.pages@.len(),
    {
        self.pages.len()
    }

    /// The metadata, if any.
    pub fn metadata(&self) -> (r: Option<&DocumentMetadata>)
        ensures
            r == (match self.metadata {
                Some(ref m) => Some(m),
                None => None::<&DocumentMetadata>,
            }),
    {
        match &self.metadata {
            Some(m) => Some(m),
            None => None,
        }
    }
}

/// A copy of a page.
pub fn clone_page(p: &Page) -> (r: Page)
    ensures
        r@ == p@,
{
    let mut content: Vec<ContentStreamOperation> = Vec::new();
    let mut i: usize = 0;
    while i < p.content.len()
        invariant
            i <= p.content@.len(),
            content@.len() == i,
            forall|j: int| 0 <= j < i ==> (#[trigger] content@[j])@ == p.content@[j]@,
        decreases p.content@.len() - i,
    {
        content.push(clone_operation(&p.content[i]));
        i += 1;
    }
    let resources = match &p.resources {
        Some(d) => Some(clone_dict(d)),
        None => None,
    };
    let media_box = match &p.media_box {
        Some(b) => Some(clone_rect(b)),
        None => None,
    };
    let crop_box = match &p.crop_box {
        Some(b) => Some(clone_rect(b)),
        None => None,
    };
    let r = Page { index: p.index, content, resources, media_box, crop_box, rotation: p.rotation };
    assert(r@.1 =~= p@.1);
    r
}

/// A copy of an optional byte string.
fn clone_opt_bytes(o: &Option<Vec<u8>>) -> (r: Option<Vec<u8>>)
    ensures
        opt_bytes(r) == opt_bytes(*o),
{
    match o {
        Some(v) => Some(copy_bytes(v)),
        None => None,
    }
}

/// A copy of metadata.
pub fn clone_metadata(m: &DocumentMetadata) -> (r: DocumentMetadata)
    ensures
        r@ == m@,
{
    DocumentMetadata {
        title: clone_opt_bytes(&m.title),
        author: clone_opt_bytes(&m.author),
        subject: clone_opt_bytes(&m.subject),
        creator: clone_opt_bytes(&m.creator),
        producer: clone_opt_bytes(&m.producer),
        creation_date: clone_opt_bytes(&m.creation_date),
        modification_date: clone_opt_bytes(&m.modification_date),
    }
}

} // verus!

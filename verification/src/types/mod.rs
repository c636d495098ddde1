pub mod content_stream;
pub mod document;
pub mod object;
pub mod pdf_version;
pub mod xref;

pub use object::{IndirectObject, ObjectId, PdfDict, PdfObject, PdfStream, StringFormat};
pub use pdf_version::PdfVersion;
pub use xref::{XrefEntry, XrefTable};
pub use content_stream::ContentStreamOperator;
pub use document::{Document, DocumentMetadata, Page, PdfNumber};

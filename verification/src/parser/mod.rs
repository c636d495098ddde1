//! The PDF parser: header, trailer, cross-reference table, objects,
//! content streams and the document tree.

pub mod error;

pub use error::{ErrorKind, ParseError};
pub mod lex;
pub mod objects;
pub mod eof;
pub mod header;
pub mod startxref;
pub mod trailer;
pub mod xref;
pub mod content_stream;
pub mod document;
pub mod object_parser;
pub mod object_stream;

pub use content_stream::parse_content_stream;
pub use document::load_document;
pub use eof::find_eof;
pub use header::{parse_header, PdfHeader};
pub use object_stream::ParsedObjectStream;
pub use objects::{parse_indirect_object, parse_object};
pub use startxref::parse_startxref;
pub use trailer::{parse_trailer, ParsedTrailer, PdfTrailer};
pub use xref::{parse_xref, ParsedXref, XrefSectionInfo};

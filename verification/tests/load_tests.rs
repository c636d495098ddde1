use rpdf::parser::{find_eof, load_document, parse_header, parse_startxref, parse_trailer, ParseError};
use rpdf::parser::document::get_object;
use rpdf::types::{ContentStreamOperator, ObjectId, PdfNumber, PdfVersion, XrefEntry, XrefTable};

/// A small, well-formed PDF: a catalog, a page tree with two pages (one
/// inheriting its media box), one content stream and an information
/// dictionary.
fn sample_pdf() -> Vec<u8> {
    let objects = [
        "<< /Type /Catalog /Pages 2 0 R >>".to_string(),
        "<< /Type /Pages /Kids [3 0 R 6 0 R] /Count 2 /MediaBox [0 0 595 842] >>".to_string(),
        "<< /Type /Page /Parent 2 0 R /MediaBox [0 0 612 792] /Rotate 90 /Contents 4 0 R >>".to_string(),
        "<< /Length 15 >>\nstream\nBT /F1 12 Tf ET\nendstream".to_string(),
        "<< /Title (Sample) /Producer <414243> >>".to_string(),
        "<< /Type /Page /Parent 2 0 R >>".to_string(),
    ];
    let mut data = b"%PDF-1.4\n%\xe2\xe3\xcf\xd3\n".to_vec();
    let mut offsets = Vec::new();
    for (i, body) in objects.iter().enumerate() {
        offsets.push(data.len());
        data.extend_from_slice(format!("{} 0 obj\n{}\nendobj\n", i + 1, body).as_bytes());
    }
    let xref_offset = data.len();
    data.extend_from_slice(format!("xref\n0 {}\n", objects.len() + 1).as_bytes());
    data.extend_from_slice(b"0000000000 65535 f\r\n");
    for off in &offsets {
        data.extend_from_slice(format!("{:010} 00000 n\r\n", off).as_bytes());
    }
    data.extend_from_slice(
        format!("trailer\n<< /Size {} /Root 1 0 R /Info 5 0 R >>\nstartxref\n{}\n%%EOF\n", objects.len() + 1, xref_offset)
            .as_bytes(),
    );
    data
}

#[test]
fn front_matter_of_a_sample_file() {
    let data = sample_pdf();
    let eof = find_eof(&data).unwrap();
    let header = parse_header(&data).unwrap();
    assert_eq!(header.version, PdfVersion::V1_4);
    assert!(header.has_binary_marker);
    let xref_offset = parse_startxref(&data, eof).unwrap();
    let parsed = parse_trailer(&data, eof).unwrap();
    assert_eq!(parsed.xref_offset, xref_offset);
    assert_eq!(parsed.trailer.size, 7);
    assert_eq!(parsed.trailer.root, ObjectId { number: 1, generation: 0 });
    assert_eq!(parsed.trailer.info, Some(ObjectId { number: 5, generation: 0 }));
    assert_eq!(parsed.trailer.prev, None);
}

#[test]
fn load_a_sample_file() {
    let doc = load_document(&sample_pdf()).unwrap();
    assert_eq!(doc.page_count(), 2);
    let p0 = &doc.pages()[0];
    let p1 = &doc.pages()[1];
    assert_eq!((p0.index, p1.index), (0, 1));
    assert_eq!(p0.rotation(), 90);
    assert_eq!(p1.rotation(), 0);
    let ops: Vec<ContentStreamOperator> = p0.content().iter().map(|o| o.operator.clone()).collect();
    assert_eq!(ops, vec![ContentStreamOperator::BeginText, ContentStreamOperator::SetFont, ContentStreamOperator::EndText]);
    assert!(p1.content().is_empty());
    assert_eq!(
        p0.media_box(),
        Some([PdfNumber::Integer(0), PdfNumber::Integer(0), PdfNumber::Integer(612), PdfNumber::Integer(792)])
    );
    // the second page has no box of its own and takes its parent's
    assert_eq!(
        p1.media_box(),
        Some([PdfNumber::Integer(0), PdfNumber::Integer(0), PdfNumber::Integer(595), PdfNumber::Integer(842)])
    );
    let meta = doc.metadata().unwrap();
    assert_eq!(meta.title, Some(b"Sample".to_vec()));
    assert_eq!(meta.producer, Some(b"ABC".to_vec()));
    assert_eq!(meta.author, None);
}

#[test]
fn load_rejects_a_truncated_file() {
    let mut data = sample_pdf();
    data.truncate(data.len() - 7);
    assert!(matches!(load_document(&data).unwrap_err(), ParseError::MissingEof));
}

#[test]
fn load_rejects_a_missing_root() {
    let mut data = sample_pdf();
    let at = data.windows(11).position(|w| w == b"/Root 1 0 R").unwrap();
    data[at + 6] = b'9';
    assert!(matches!(
        load_document(&data).unwrap_err(),
        ParseError::ReferenceNotFound { obj_id: ObjectId { number: 9, generation: 0 } }
    ));
}

#[test]
fn objects_in_object_streams() {
    let data = b"1 0 obj\n<< /Type /ObjStm >>\nendobj";
    let mut xref = XrefTable::new();
    xref.insert_if_absent(1, XrefEntry::InUse { offset: 0, generation: 0 });
    xref.insert_if_absent(2, XrefEntry::Compressed { obj_stm_num: 1, index: 0 });
    xref.insert_if_absent(3, XrefEntry::Compressed { obj_stm_num: 9, index: 0 });
    assert!(matches!(get_object(data, &xref, ObjectId::new(2, 0)).unwrap_err(), ParseError::UnexpectedFormat(_)));
    assert!(matches!(
        get_object(data, &xref, ObjectId::new(3, 0)).unwrap_err(),
        ParseError::ReferenceNotFound { obj_id: ObjectId { number: 9, generation: 0 } }
    ));
}

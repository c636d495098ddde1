use rpdf::edit::reindex_pages;
use rpdf::types::{Document, ObjectId, Page, PdfDict, PdfObject, StringFormat, XrefEntry, XrefTable};

fn page(index: usize, rotation: i32) -> Page {
    Page { index, content: vec![], resources: None, media_box: None, crop_box: None, rotation }
}

#[test]
fn object_accessors() {
    let lit = PdfObject::LiteralString(b"abc".to_vec());
    let hex = PdfObject::HexString(b"\x01\x02".to_vec());
    assert_eq!(lit.as_string_bytes(), Some(&b"abc"[..]));
    assert_eq!(hex.as_string_bytes(), Some(&b"\x01\x02"[..]));
    assert_eq!(lit.string_format(), Some(StringFormat::Literal));
    assert_eq!(hex.string_format(), Some(StringFormat::Hex));
    assert_eq!(PdfObject::Null.string_format(), None);
    assert_eq!(PdfObject::Name(b"Type".to_vec()).as_name_bytes(), Some(&b"Type"[..]));
    assert_eq!(lit.as_name_bytes(), None);
    assert_eq!(PdfObject::Integer(-3).as_i64(), Some(-3));
    assert_eq!(PdfObject::Integer(-3).as_u64(), None);
    assert_eq!(PdfObject::Integer(7).as_u64(), Some(7));
    assert_eq!(PdfObject::Real(b"7.0".to_vec()).as_i64(), None);
    assert_eq!(PdfObject::Boolean(true).as_bool(), Some(true));
    assert_eq!(PdfObject::Null.as_bool(), None);
    let arr = PdfObject::Array(vec![PdfObject::Integer(1), PdfObject::Null]);
    assert_eq!(arr.as_array().map(|a| a.len()), Some(2));
    assert!(PdfObject::Reference(ObjectId::new(1, 0)).as_array().is_none());
    let d = PdfObject::Dictionary(PdfDict(vec![(b"K".to_vec(), PdfObject::Integer(1))]));
    assert_eq!(d.as_dict().map(|x| x.len()), Some(1));
    assert!(arr.as_dict().is_none());
}

#[test]
fn dict_lookup_first_and_last() {
    let d = PdfDict(vec![
        (b"A".to_vec(), PdfObject::Integer(1)),
        (b"B".to_vec(), PdfObject::Integer(2)),
        (b"A".to_vec(), PdfObject::Integer(3)),
    ]);
    assert_eq!(d.get(b"A"), Some(&PdfObject::Integer(1)));
    assert_eq!(d.get_last(b"A"), Some(&PdfObject::Integer(3)));
    assert_eq!(d.get(b"C"), None);
    assert_eq!(d.get_last(b"C"), None);
    assert_eq!(d.len(), 3);
    assert!(!d.is_empty());
    assert_eq!(d.iter()[1].0, b"B".to_vec());
    assert!(PdfDict(vec![]).is_empty());
}

#[test]
fn xref_table_keeps_first_entry_in_order() {
    let mut t = XrefTable::new();
    assert!(t.is_empty());
    t.insert_if_absent(5, XrefEntry::InUse { offset: 50, generation: 0 });
    t.insert_if_absent(2, XrefEntry::Free { next_free_obj_num: 0, generation: 65535 });
    t.insert_if_absent(5, XrefEntry::InUse { offset: 99, generation: 1 });
    assert_eq!(t.len(), 2);
    assert_eq!(t.get(5), Some(&XrefEntry::InUse { offset: 50, generation: 0 }));
    assert_eq!(t.get(3), None);
    let keys: Vec<u32> = t.iter().map(|(k, _)| *k).collect();
    assert_eq!(keys, vec![2, 5]);
}

#[test]
fn document_and_page_accessors() {
    let doc = Document { pages: vec![page(0, 90), page(1, 0)], metadata: None };
    assert_eq!(doc.page_count(), 2);
    assert_eq!(doc.pages()[0].rotation(), 90);
    assert!(doc.metadata().is_none());
    assert!(doc.pages()[1].content().is_empty());
    assert!(doc.pages()[1].resources().is_none());
    assert!(doc.pages()[1].media_box().is_none());
    assert!(doc.pages()[1].crop_box().is_none());
}

#[test]
fn reindex_numbers_pages_from_zero() {
    let mut pages = vec![page(7, 0), page(3, 90), page(3, 180)];
    reindex_pages(&mut pages);
    let idx: Vec<usize> = pages.iter().map(|p| p.index).collect();
    assert_eq!(idx, vec![0, 1, 2]);
    let rot: Vec<i32> = pages.iter().map(|p| p.rotation).collect();
    assert_eq!(rot, vec![0, 90, 180]);
}

#[test]
fn default_xref_table_is_empty() {
    let t = XrefTable::default();
    assert!(t.is_empty());
    assert_eq!(t.len(), 0);
}

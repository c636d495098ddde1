use flate2::write::ZlibEncoder;
use flate2::Compression;
use std::io::Write;
use rpdf::parser::document::{build_page, collect_pages, find_catalog, get_object, parse_rect, InheritedPageAttrs};
use rpdf::parser::ParseError;
use rpdf::types::{ObjectId, PdfNumber, PdfObject, XrefEntry, XrefTable};

/// The value of a box number.
fn number_value(n: &PdfNumber) -> f64 {
    match n {
        PdfNumber::Integer(i) => *i as f64,
        PdfNumber::Real(text) => std::str::from_utf8(text).unwrap().parse::<f64>().unwrap(),
    }
}

/// The values of a box.
fn box_values(b: Option<[PdfNumber; 4]>) -> Option<[f64; 4]> {
    b.map(|r| [number_value(&r[0]), number_value(&r[1]), number_value(&r[2]), number_value(&r[3])])
}


// ── 테스트 헬퍼 ─────────────────────────────────────────────────────────────

/// 간단한 간접 객체 바이트를 만든다.
fn make_indirect(obj_num: u32, generation: u16, body: &str) -> Vec<u8> {
    format!("{obj_num} {generation} obj\n{body}\nendobj").into_bytes()
}

fn make_xref_inuse(offset: u64) -> XrefEntry {
    XrefEntry::InUse {
        offset,
        generation: 0,
    }
}

// ── 객체 해석 단위 테스트 ─────────────────────────────────────────────

// B-1. InUse 경로 정상 → PdfObject 반환
#[test]
fn b1_inuse_returns_object() {
    let data = make_indirect(1, 0, "42");
    let mut xref = XrefTable::new();
    xref.insert_if_absent(1, make_xref_inuse(0));
    let obj = get_object(&data, &xref, ObjectId::new(1, 0)).unwrap();
    assert_eq!(obj, PdfObject::Integer(42));
}

// B-2. Free → ReferenceNotFound
#[test]
fn b2_free_entry_returns_not_found() {
    let data = b"";
    let mut xref = XrefTable::new();
    xref.insert_if_absent(
        1,
        XrefEntry::Free {
            next_free_obj_num: 0,
            generation: 65535,
        },
    );
    let err = get_object(data, &xref, ObjectId::new(1, 0)).unwrap_err();
    assert!(
        matches!(err, ParseError::ReferenceNotFound { .. }),
        "expected ReferenceNotFound, got {err:?}"
    );
}

// B-3. 존재하지 않는 obj_id → ReferenceNotFound
#[test]
fn b3_missing_entry_returns_not_found() {
    let data = b"";
    let xref = XrefTable::new();
    let err = get_object(data, &xref, ObjectId::new(99, 0)).unwrap_err();
    assert!(
        matches!(err, ParseError::ReferenceNotFound { .. }),
        "expected ReferenceNotFound, got {err:?}"
    );
}

// B-4. Reference 체인 2단계 해소 (A→B→Integer)
#[test]
fn b4_reference_chain_two_steps() {
    // obj 1: Reference to obj 2
    // obj 2: integer 99
    let mut data = Vec::new();
    let offset1 = data.len();
    data.extend_from_slice(&make_indirect(1, 0, "2 0 R"));
    let offset2 = data.len();
    data.extend_from_slice(b" "); // separator
    data.extend_from_slice(&make_indirect(2, 0, "99"));

    let mut xref = XrefTable::new();
    xref.insert_if_absent(1, make_xref_inuse(offset1 as u64));
    xref.insert_if_absent(2, make_xref_inuse((offset2 + 1) as u64));
    let obj = get_object(&data, &xref, ObjectId::new(1, 0)).unwrap();
    assert_eq!(obj, PdfObject::Integer(99));
}

// B-5. Reference cycle (A→B→A) → ReferenceCycle
#[test]
fn b5_reference_cycle_detected() {
    let mut data = Vec::new();
    let offset1 = data.len();
    data.extend_from_slice(&make_indirect(1, 0, "2 0 R"));
    let offset2 = data.len();
    data.extend_from_slice(&make_indirect(2, 0, "1 0 R"));

    let mut xref = XrefTable::new();
    xref.insert_if_absent(1, make_xref_inuse(offset1 as u64));
    xref.insert_if_absent(2, make_xref_inuse(offset2 as u64));
    let err = get_object(&data, &xref, ObjectId::new(1, 0)).unwrap_err();
    assert!(
        matches!(err, ParseError::ReferenceCycle { .. }),
        "expected ReferenceCycle, got {err:?}"
    );
}

// B-6. 깊이 51단 체인 → ReferenceTooDeep
#[test]
fn b6_deep_chain_returns_too_deep() {
    // 51개 객체가 체인을 이룬다. obj 1 → obj 2 → ... → obj 51 → obj 52(integer)
    // MAX_RESOLVE_DEPTH = 50 → chain.len() = 50일 때 에러 발생
    let total = 52usize;
    let mut data = Vec::new();
    let mut offsets = Vec::new();
    for i in 1..total {
        offsets.push(data.len());
        let body = format!("{} 0 R", i + 1);
        data.extend_from_slice(&make_indirect(i as u32, 0, &body));
    }
    // 마지막 obj: integer
    offsets.push(data.len());
    data.extend_from_slice(&make_indirect(total as u32, 0, "999"));

    let mut xref = XrefTable::new();
    for (i, &off) in offsets.iter().enumerate() {
        xref.insert_if_absent((i + 1) as u32, make_xref_inuse(off as u64));
    }
    let err = get_object(&data, &xref, ObjectId::new(1, 0)).unwrap_err();
    assert!(
        matches!(err, ParseError::ReferenceTooDeep { .. }),
        "expected ReferenceTooDeep, got {err:?}"
    );
}

// ── 페이지 트리 단위 테스트 ─────────────────────────────────────────────

// C-1. 단순 1페이지 구조
#[test]
fn c1_single_page_structure() {
    // Catalog(obj1) → Pages(obj2) → Page(obj3)
    let mut data = Vec::new();
    let off1 = data.len();
    data.extend_from_slice(&make_indirect(1, 0, "<< /Type /Catalog /Pages 2 0 R >>"));
    let off2 = data.len();
    data.extend_from_slice(&make_indirect(
        2,
        0,
        "<< /Type /Pages /Kids [3 0 R] /Count 1 >>",
    ));
    let off3 = data.len();
    data.extend_from_slice(&make_indirect(
        3,
        0,
        "<< /Type /Page /MediaBox [0 0 612 792] >>",
    ));

    let mut xref = XrefTable::new();
    xref.insert_if_absent(1, make_xref_inuse(off1 as u64));
    xref.insert_if_absent(2, make_xref_inuse(off2 as u64));
    xref.insert_if_absent(3, make_xref_inuse(off3 as u64));

    let catalog = find_catalog(&data, &xref, ObjectId::new(1, 0)).unwrap();
    let pages_ref = match catalog.get(b"Pages") {
        Some(PdfObject::Reference(id)) => *id,
        _ => panic!("no /Pages"),
    };
    let pages_obj = get_object(&data, &xref, pages_ref).unwrap();
    let pages_dict = pages_obj.as_dict().unwrap().clone();
    let mut counter: usize = 0;
    let pages = collect_pages(
        &data,
        &xref,
        pages_dict,
        &InheritedPageAttrs::none(),
        &mut counter,
        0,
    )
    .unwrap();
    assert_eq!(pages.len(), 1);
    assert_eq!(pages[0].index, 0);
}

// C-2. 2단계 중첩 Pages
#[test]
fn c2_nested_pages_two_levels() {
    let mut data = Vec::new();
    let off1 = data.len();
    data.extend_from_slice(&make_indirect(1, 0, "<< /Type /Catalog /Pages 2 0 R >>"));
    let off2 = data.len();
    data.extend_from_slice(&make_indirect(
        2,
        0,
        "<< /Type /Pages /Kids [3 0 R] /Count 2 >>",
    ));
    let off3 = data.len();
    data.extend_from_slice(&make_indirect(
        3,
        0,
        "<< /Type /Pages /Kids [4 0 R 5 0 R] /Count 2 >>",
    ));
    let off4 = data.len();
    data.extend_from_slice(&make_indirect(4, 0, "<< /Type /Page >>"));
    let off5 = data.len();
    data.extend_from_slice(&make_indirect(5, 0, "<< /Type /Page >>"));

    let mut xref = XrefTable::new();
    xref.insert_if_absent(1, make_xref_inuse(off1 as u64));
    xref.insert_if_absent(2, make_xref_inuse(off2 as u64));
    xref.insert_if_absent(3, make_xref_inuse(off3 as u64));
    xref.insert_if_absent(4, make_xref_inuse(off4 as u64));
    xref.insert_if_absent(5, make_xref_inuse(off5 as u64));

    let catalog = find_catalog(&data, &xref, ObjectId::new(1, 0)).unwrap();
    let pages_ref = match catalog.get(b"Pages") {
        Some(PdfObject::Reference(id)) => *id,
        _ => panic!("no /Pages"),
    };
    let pages_dict = get_object(&data, &xref, pages_ref)
        .unwrap()
        .as_dict()
        .unwrap()
        .clone();
    let mut counter: usize = 0;
    let pages = collect_pages(
        &data,
        &xref,
        pages_dict,
        &InheritedPageAttrs::none(),
        &mut counter,
        0,
    )
    .unwrap();
    assert_eq!(pages.len(), 2);
}

// C-3. /Type /Catalog 없는 root → MalformedCatalog
#[test]
fn c3_missing_catalog_type_returns_error() {
    let mut data = Vec::new();
    let off1 = data.len();
    data.extend_from_slice(&make_indirect(1, 0, "<< /Pages 2 0 R >>"));

    let mut xref = XrefTable::new();
    xref.insert_if_absent(1, make_xref_inuse(off1 as u64));
    let err = find_catalog(&data, &xref, ObjectId::new(1, 0)).unwrap_err();
    assert!(
        matches!(err, ParseError::MalformedCatalog { .. }),
        "expected MalformedCatalog, got {err:?}"
    );
}

// C-4. /Kids 없는 Pages → MalformedPageTree
#[test]
fn c4_pages_without_kids_returns_error() {
    let mut data = Vec::new();
    let off = data.len();
    data.extend_from_slice(&make_indirect(2, 0, "<< /Type /Pages /Count 0 >>"));

    let mut xref = XrefTable::new();
    xref.insert_if_absent(2, make_xref_inuse(off as u64));
    let obj = get_object(&data, &xref, ObjectId::new(2, 0)).unwrap();
    let dict = obj.as_dict().unwrap().clone();
    let mut counter: usize = 0;
    let err = collect_pages(
        &data,
        &xref,
        dict,
        &InheritedPageAttrs::none(),
        &mut counter,
        0,
    )
    .unwrap_err();
    assert!(
        matches!(err, ParseError::MalformedPageTree { .. }),
        "expected MalformedPageTree, got {err:?}"
    );
}

// C-5. 빈 /Kids → 빈 Vec 반환 (에러 아님)
#[test]
fn c5_empty_kids_returns_empty_vec() {
    let mut data = Vec::new();
    let off = data.len();
    data.extend_from_slice(&make_indirect(2, 0, "<< /Type /Pages /Kids [] /Count 0 >>"));

    let mut xref = XrefTable::new();
    xref.insert_if_absent(2, make_xref_inuse(off as u64));
    let obj = get_object(&data, &xref, ObjectId::new(2, 0)).unwrap();
    let dict = obj.as_dict().unwrap().clone();
    let mut counter: usize = 0;
    let pages = collect_pages(
        &data,
        &xref,
        dict,
        &InheritedPageAttrs::none(),
        &mut counter,
        0,
    )
    .unwrap();
    assert!(pages.is_empty());
}

// ── 페이지 속성 단위 테스트 ─────────────────────────────────────────────

// D-1. 자기 /MediaBox 있는 Page → 자기 값 사용
#[test]
fn d1_page_own_mediabox_used() {
    let page_dict_bytes = b"<< /Type /Page /MediaBox [0 0 612 792] >>";
    let data = format!(
        "1 0 obj\n{}\nendobj",
        std::str::from_utf8(page_dict_bytes).unwrap()
    )
    .into_bytes();
    let mut xref = XrefTable::new();
    xref.insert_if_absent(1, make_xref_inuse(0));
    let obj = get_object(&data, &xref, ObjectId::new(1, 0)).unwrap();
    let dict = obj.as_dict().unwrap().clone();

    // parent inherited에 다른 MediaBox
    let mut inherited = InheritedPageAttrs::none();
    inherited.media_box = Some([
        PdfNumber::Real(b"0.0".to_vec()),
        PdfNumber::Real(b"0.0".to_vec()),
        PdfNumber::Real(b"100.0".to_vec()),
        PdfNumber::Real(b"100.0".to_vec()),
    ]);
    let page = build_page(&data, &xref, dict, &inherited, 0).unwrap();
    // 자기 값 [0,0,612,792] 사용
    assert_eq!(box_values(page.media_box()), Some([0.0, 0.0, 612.0, 792.0]));
}

// D-2. 자기 /MediaBox 없는 Page + 부모 /MediaBox → 상속값 사용
#[test]
fn d2_page_inherits_mediabox() {
    let data = make_indirect(1, 0, "<< /Type /Page >>");
    let mut xref = XrefTable::new();
    xref.insert_if_absent(1, make_xref_inuse(0));
    let obj = get_object(&data, &xref, ObjectId::new(1, 0)).unwrap();
    let dict = obj.as_dict().unwrap().clone();

    let mut inherited = InheritedPageAttrs::none();
    inherited.media_box = Some([
        PdfNumber::Real(b"0.0".to_vec()),
        PdfNumber::Real(b"0.0".to_vec()),
        PdfNumber::Real(b"595.0".to_vec()),
        PdfNumber::Real(b"842.0".to_vec()),
    ]);
    let page = build_page(&data, &xref, dict, &inherited, 0).unwrap();
    assert_eq!(box_values(page.media_box()), Some([0.0, 0.0, 595.0, 842.0]));
}

// D-3. /Rotate 없는 Page → rotation = 0
#[test]
fn d3_page_default_rotation_is_zero() {
    let data = make_indirect(1, 0, "<< /Type /Page >>");
    let mut xref = XrefTable::new();
    xref.insert_if_absent(1, make_xref_inuse(0));
    let obj = get_object(&data, &xref, ObjectId::new(1, 0)).unwrap();
    let dict = obj.as_dict().unwrap().clone();
    let page = build_page(
        &data,
        &xref,
        dict,
        &InheritedPageAttrs::none(),
        0,
    )
    .unwrap();
    assert_eq!(page.rotation(), 0);
}

// D-4. Integer MediaBox → f64 변환
#[test]
fn d4_integer_mediabox_converted_to_f64() {
    let arr = vec![
        PdfObject::Integer(0),
        PdfObject::Integer(0),
        PdfObject::Integer(612),
        PdfObject::Integer(792),
    ];
    let result = parse_rect(&arr).unwrap();
    assert_eq!(box_values(Some(result)), Some([0.0, 0.0, 612.0, 792.0]));
}

// ── 페이지 내용 단위 테스트 ─────────────────────────────────────────────

// E-1. /Contents 없는 Page → content = vec![]
#[test]
fn e1_page_without_contents_has_empty_content() {
    let data = make_indirect(1, 0, "<< /Type /Page >>");
    let mut xref = XrefTable::new();
    xref.insert_if_absent(1, make_xref_inuse(0));
    let obj = get_object(&data, &xref, ObjectId::new(1, 0)).unwrap();
    let dict = obj.as_dict().unwrap().clone();
    let page = build_page(
        &data,
        &xref,
        dict,
        &InheritedPageAttrs::none(),
        0,
    )
    .unwrap();
    assert!(page.content().is_empty());
}

// E-2. 단일 /Contents (Reference → Stream) → 정상 파싱
#[test]
fn e2_single_contents_reference_parsed() {
    // page: { /Type /Page /Contents 2 0 R }
    // obj 2: stream { BT ET }
    let stream_body = b"BT ET";
    let mut data = Vec::new();
    let off1 = data.len();
    data.extend_from_slice(&make_indirect(1, 0, "<< /Type /Page /Contents 2 0 R >>"));
    let off2 = data.len();
    let stream_def = format!(
        "2 0 obj\n<< /Length {} >>\nstream\n{}\nendstream\nendobj",
        stream_body.len(),
        std::str::from_utf8(stream_body).unwrap()
    );
    data.extend_from_slice(stream_def.as_bytes());

    let mut xref = XrefTable::new();
    xref.insert_if_absent(1, make_xref_inuse(off1 as u64));
    xref.insert_if_absent(2, make_xref_inuse(off2 as u64));
    let obj1 = get_object(&data, &xref, ObjectId::new(1, 0)).unwrap();
    let dict = obj1.as_dict().unwrap().clone();
    let page = build_page(
        &data,
        &xref,
        dict,
        &InheritedPageAttrs::none(),
        0,
    )
    .unwrap();
    assert!(!page.content().is_empty(), "content should have operations");
}

// E-3. /Contents 배열 2개 → 두 stream 합쳐서 파싱
#[test]
fn e3_contents_array_two_streams_merged() {
    let stream1 = b"BT";
    let stream2 = b" ET";
    let mut data = Vec::new();
    let off1 = data.len();
    data.extend_from_slice(&make_indirect(
        1,
        0,
        "<< /Type /Page /Contents [2 0 R 3 0 R] >>",
    ));
    let off2 = data.len();
    data.extend_from_slice(
        format!(
            "2 0 obj\n<< /Length {} >>\nstream\n{}\nendstream\nendobj",
            stream1.len(),
            std::str::from_utf8(stream1).unwrap()
        )
        .as_bytes(),
    );
    let off3 = data.len();
    data.extend_from_slice(
        format!(
            "3 0 obj\n<< /Length {} >>\nstream\n{}\nendstream\nendobj",
            stream2.len(),
            std::str::from_utf8(stream2).unwrap()
        )
        .as_bytes(),
    );

    let mut xref = XrefTable::new();
    xref.insert_if_absent(1, make_xref_inuse(off1 as u64));
    xref.insert_if_absent(2, make_xref_inuse(off2 as u64));
    xref.insert_if_absent(3, make_xref_inuse(off3 as u64));
    let obj1 = get_object(&data, &xref, ObjectId::new(1, 0)).unwrap();
    let dict = obj1.as_dict().unwrap().clone();
    let page = build_page(
        &data,
        &xref,
        dict,
        &InheritedPageAttrs::none(),
        0,
    )
    .unwrap();
    // BT ET → 2개 연산자
    assert_eq!(page.content().len(), 2);
}

// E-4. FlateDecode /Contents → 해제 후 파싱
#[test]
fn e4_flatedecode_contents_decompressed() {

    let plain = b"BT ET";
    let mut enc = ZlibEncoder::new(Vec::new(), Compression::default());
    enc.write_all(plain).unwrap();
    let compressed = enc.finish().unwrap();

    let mut data = Vec::new();
    let off1 = data.len();
    data.extend_from_slice(&make_indirect(1, 0, "<< /Type /Page /Contents 2 0 R >>"));
    let off2 = data.len();
    data.extend_from_slice(
        format!(
            "2 0 obj\n<< /Length {} /Filter /FlateDecode >>\nstream\n",
            compressed.len()
        )
        .as_bytes(),
    );
    data.extend_from_slice(&compressed);
    data.extend_from_slice(b"\nendstream\nendobj");

    let mut xref = XrefTable::new();
    xref.insert_if_absent(1, make_xref_inuse(off1 as u64));
    xref.insert_if_absent(2, make_xref_inuse(off2 as u64));
    let obj1 = get_object(&data, &xref, ObjectId::new(1, 0)).unwrap();
    let dict = obj1.as_dict().unwrap().clone();
    let page = build_page(
        &data,
        &xref,
        dict,
        &InheritedPageAttrs::none(),
        0,
    )
    .unwrap();
    // BT ET → 2개 연산자
    assert_eq!(page.content().len(), 2);
}

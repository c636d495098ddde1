use rpdf::cli::{parse_page_list, parse_ranges_for_split, split_output_file_name};
use rpdf::edit::{
    Command, CommandStack, DeletePagesCommand, ExtractPagesCommand, MergeCommand, Query, RotatePageCommand, SplitCommand,
};
use rpdf::parser::document::decompress_flate;
use rpdf::parser::{parse_content_stream, parse_xref, ParseError};
use rpdf::types::content_stream::keyword_to_operator;
use rpdf::types::{ContentStreamOperator, Document, Page, PdfVersion, XrefEntry};

use flate2::write::ZlibEncoder;
use flate2::Compression;
use std::io::Write;

fn make_doc(pages: usize, rotations: &[i32]) -> Document {
    let page_vec = (0..pages)
        .map(|i| Page {
            index: i,
            content: vec![],
            resources: None,
            media_box: None,
            crop_box: None,
            rotation: rotations.get(i).copied().unwrap_or(0),
        })
        .collect();
    Document { pages: page_vec, metadata: None }
}

fn rotations(doc: &Document) -> Vec<i32> {
    doc.pages.iter().map(|p| p.rotation).collect()
}

fn indices(doc: &Document) -> Vec<usize> {
    doc.pages.iter().map(|p| p.index).collect()
}

#[test]
fn rotate_then_undo_gives_back_the_document() {
    let mut doc = make_doc(3, &[0, 90, 270]);
    let mut cmd = RotatePageCommand::new(1, -450);
    cmd.execute(&mut doc).unwrap();
    assert_eq!(rotations(&doc), vec![0, 0, 270]);
    cmd.undo(&mut doc).unwrap();
    assert_eq!(rotations(&doc), vec![0, 90, 270]);
}

#[test]
fn rotation_stays_in_a_quarter_turn_range() {
    for (start, degrees, expected) in [(0, 90, 90), (270, 90, 0), (90, -180, 270), (180, 1080, 180), (0, -90, 270)] {
        let mut doc = make_doc(1, &[start]);
        let mut cmd = RotatePageCommand::new(0, degrees);
        cmd.execute(&mut doc).unwrap();
        assert_eq!(doc.pages[0].rotation, expected);
    }
}

#[test]
fn rotate_error_messages() {
    let mut doc = make_doc(2, &[]);
    let mut cmd = RotatePageCommand::new(0, -45);
    match cmd.execute(&mut doc).unwrap_err() {
        rpdf::edit::CommandError::ExecutionFailed(m) => {
            assert_eq!(m, "degrees must be a multiple of 90, got -45; valid: 90, 180, 270, -90, ...")
        }
        other => panic!("unexpected {other:?}"),
    }
    let mut cmd = RotatePageCommand::new(7, 90);
    match cmd.execute(&mut doc).unwrap_err() {
        rpdf::edit::CommandError::ExecutionFailed(m) => {
            assert_eq!(m, "page index out of bounds: 7 (document has 2 pages)")
        }
        other => panic!("unexpected {other:?}"),
    }
}

#[test]
fn merge_then_undo_gives_back_the_document() {
    let mut doc = make_doc(2, &[90, 180]);
    let mut cmd = MergeCommand::new(vec![make_doc(2, &[270, 0])]);
    cmd.execute(&mut doc).unwrap();
    assert_eq!(rotations(&doc), vec![90, 180, 270, 0]);
    assert_eq!(indices(&doc), vec![0, 1, 2, 3]);
    cmd.undo(&mut doc).unwrap();
    assert_eq!(rotations(&doc), vec![90, 180]);
    assert_eq!(indices(&doc), vec![0, 1]);
}

#[test]
fn delete_then_undo_gives_back_the_document() {
    let mut doc = make_doc(5, &[0, 90, 180, 270, 90]);
    let mut cmd = DeletePagesCommand::new(vec![3, 1, 3]);
    cmd.execute(&mut doc).unwrap();
    assert_eq!(rotations(&doc), vec![0, 180, 90]);
    assert_eq!(indices(&doc), vec![0, 1, 2]);
    cmd.undo(&mut doc).unwrap();
    assert_eq!(rotations(&doc), vec![0, 90, 180, 270, 90]);
    assert_eq!(indices(&doc), vec![0, 1, 2, 3, 4]);
}

#[test]
fn stack_undo_redo_across_commands() {
    let mut doc = make_doc(3, &[]);
    let mut stack: CommandStack<dyn Command> = CommandStack::new(2);
    stack.execute(Box::new(RotatePageCommand::new(0, 90)), &mut doc).unwrap();
    stack.execute(Box::new(DeletePagesCommand::new(vec![2])), &mut doc).unwrap();
    stack.execute(Box::new(MergeCommand::new(vec![make_doc(1, &[180])])), &mut doc).unwrap();
    assert_eq!(stack.undo_len(), 2);
    assert_eq!(rotations(&doc), vec![90, 0, 180]);
    stack.undo(&mut doc).unwrap();
    stack.undo(&mut doc).unwrap();
    assert_eq!(rotations(&doc), vec![90, 0, 0]);
    assert_eq!(stack.redo_len(), 2);
    assert!(stack.undo(&mut doc).is_err());
    stack.redo(&mut doc).unwrap();
    assert_eq!(rotations(&doc), vec![90, 0]);
}

#[test]
fn every_keyword_reads_back_as_its_operator() {
    let ops = parse_content_stream(b"BT ET q Q cm w J j M d i gs ri m l c v y h re S s f F f* B B* b b* n W W* CS cs SC SCN sc scn G g RG rg K k Do sh MP DP BMC BDC EMC BX EX Tc Tw Tz TL Tf Tr Ts Td TD Tm T* Tj TJ ' \"").unwrap();
    assert_eq!(ops.len(), 68);
    for op in &ops {
        assert!(!matches!(op.operator, ContentStreamOperator::Unknown(_)));
        assert_eq!(keyword_to_operator(op.operator.pdf_keyword().as_bytes()), op.operator);
    }
    // an inline image is read from `BI ... ID ... EI` as a whole, not from its keyword
    assert_eq!(ContentStreamOperator::InlineImage.pdf_keyword(), "BI/ID/EI");
    assert_eq!(keyword_to_operator(b"BI"), ContentStreamOperator::Unknown(b"BI".to_vec()));
    assert_eq!(keyword_to_operator(b"BI/ID/EI"), ContentStreamOperator::Unknown(b"BI/ID/EI".to_vec()));
    assert_eq!(keyword_to_operator(b"zz"), ContentStreamOperator::Unknown(b"zz".to_vec()));
}

#[test]
fn unknown_operator_name_is_lossy_text() {
    assert_eq!(ContentStreamOperator::Unknown(b"a\xffb".to_vec()).display_name(), "?a\u{fffd}b");
}

#[test]
fn version_reads_back_from_its_numbers() {
    for (major, minor) in [(1, 0), (1, 4), (1, 7), (2, 0), (3, 9), (0, 0)] {
        let v = PdfVersion::from_bytes(major, minor);
        assert_eq!((v.major(), v.minor()), (major, minor));
        assert_eq!(PdfVersion::from_bytes(v.major(), v.minor()), v);
    }
    assert_eq!(PdfVersion::from_bytes(1, 5), PdfVersion::V1_5);
    assert_eq!(PdfVersion::from_bytes(2, 1), PdfVersion::Other { major: 2, minor: 1 });
}

fn entry(offset: u64, generation: u16, kind: char) -> String {
    format!("{offset:010} {generation:05} {kind}\r\n")
}

#[test]
fn newest_section_wins() {
    // the older section, first in the file, gives object 1 offset 100 and
    // object 2 offset 200; the newer one gives object 1 offset 300
    let older = format!("xref\n1 2\n{}{}trailer\n<< /Size 3 /Root 1 0 R >>\n", entry(100, 0, 'n'), entry(200, 0, 'n'));
    let newer = format!(
        "xref\n1 1\n{}trailer\n<< /Size 3 /Root 1 0 R /Prev 0 >>\n",
        entry(300, 0, 'n')
    );
    let mut data = older.clone().into_bytes();
    let start = data.len() as u64;
    data.extend_from_slice(newer.as_bytes());
    let parsed = parse_xref(&data, start).unwrap();
    assert_eq!(parsed.table.get(1), Some(&XrefEntry::InUse { offset: 300, generation: 0 }));
    assert_eq!(parsed.table.get(2), Some(&XrefEntry::InUse { offset: 200, generation: 0 }));
    assert_eq!(parsed.sections.len(), 2);
    assert_eq!(parsed.sections[0].offset, start);
    assert_eq!(parsed.trailer.prev, Some(0));
}

#[test]
fn flate_round_trip() {
    let mut enc = ZlibEncoder::new(Vec::new(), Compression::default());
    enc.write_all(b"BT /F1 12 Tf ET").unwrap();
    let packed = enc.finish().unwrap();
    assert_eq!(decompress_flate(&packed, 0).unwrap(), b"BT /F1 12 Tf ET".to_vec());
}

#[test]
fn flate_rejects_garbage() {
    assert!(matches!(decompress_flate(b"not zlib at all", 7).unwrap_err(), ParseError::UnexpectedFormat(_)));
}

#[test]
fn page_list_errors_carry_the_token() {
    let err = parse_page_list("3,x7").unwrap_err();
    assert_eq!(err.message(), "잘못된 페이지 번호: x7");
    let err = parse_ranges_for_split("1-2,a-b").unwrap_err();
    assert!(err.message().contains("a-b"));
}

#[test]
fn split_ranges_read_in_order() {
    assert_eq!(parse_ranges_for_split("1-3, 5,7-7").unwrap(), vec![(0, 2), (4, 4), (6, 6)]);
}

#[test]
fn split_file_names() {
    assert_eq!(split_output_file_name("report", 12), "report_part12.pdf");
    assert_eq!(split_output_file_name("", 3), "output_part3.pdf");
}

#[test]
fn select_all_or_one_page() {
    let doc = make_doc(3, &[]);
    assert_eq!(rpdf::cli::select_pages(&doc.pages, None).unwrap(), vec![0, 1, 2]);
    assert_eq!(rpdf::cli::select_pages(&doc.pages, Some(1)).unwrap(), vec![1]);
    assert_eq!(
        rpdf::cli::select_pages(&doc.pages, Some(3)).unwrap_err(),
        "page 3 not found (total: 3, valid: 0..3)"
    );
}

#[test]
fn version_text() {
    assert_eq!(PdfVersion::V1_7.to_text(), "1.7");
    assert_eq!(PdfVersion::V2_0.to_text(), "2.0");
    assert_eq!(PdfVersion::Other { major: 3, minor: 12 }.to_text(), "3.12");
}

fn failed_text(e: rpdf::edit::CommandError) -> String {
    match e {
        rpdf::edit::CommandError::ExecutionFailed(m) => format!("exec: {m}"),
        rpdf::edit::CommandError::UndoFailed(m) => format!("undo: {m}"),
        other => format!("{other:?}"),
    }
}

#[test]
fn command_error_texts() {
    let mut doc = make_doc(2, &[]);
    let mut del = DeletePagesCommand::new(vec![9, 0, 5]);
    assert_eq!(failed_text(del.execute(&mut doc).unwrap_err()), "exec: page index out of bounds: 5 (document has 2 pages)");
    assert_eq!(failed_text(del.undo(&mut doc).unwrap_err()), "undo: undo called before execute");
    let mut del = DeletePagesCommand::new(vec![1]);
    del.execute(&mut doc).unwrap();
    assert_eq!(failed_text(del.execute(&mut doc).unwrap_err()), "exec: DeletePagesCommand already executed");

    let mut rot = RotatePageCommand::new(0, 90);
    assert_eq!(failed_text(rot.undo(&mut doc).unwrap_err()), "undo: undo called before execute");
    let mut rot = RotatePageCommand::new(4, 90);
    assert_eq!(failed_text(rot.undo(&mut doc).unwrap_err()), "undo: page index out of bounds during undo: 4");

    let mut merge = MergeCommand::new(vec![]);
    assert_eq!(failed_text(merge.undo(&mut doc).unwrap_err()), "undo: undo called before execute");
    merge.execute(&mut doc).unwrap();
    assert_eq!(failed_text(merge.execute(&mut doc).unwrap_err()), "exec: MergeCommand already executed");

    assert_eq!(failed_text(ExtractPagesCommand::new(0, 2).unwrap_err()), "exec: page numbers are 1-based, got 0");
    assert_eq!(failed_text(ExtractPagesCommand::new(4, 2).unwrap_err()), "exec: invalid range 4-2: start > end");
    let ext = ExtractPagesCommand::new(1, 3).unwrap();
    assert_eq!(failed_text(ext.execute(&make_doc(2, &[])).unwrap_err()), "exec: page index out of bounds: 2");
    assert_eq!(failed_text(ext.execute(&make_doc(0, &[])).unwrap_err()), "exec: document has no pages");

    assert_eq!(failed_text(SplitCommand::new("").unwrap_err()), "exec: range spec must not be empty");
    assert_eq!(failed_text(SplitCommand::new("1, x-2, 0").unwrap_err()), "exec: invalid range spec: x-2");
    assert_eq!(failed_text(SplitCommand::new("2, 0").unwrap_err()), "exec: page numbers are 1-based, got 0");
    assert_eq!(failed_text(SplitCommand::new("5-3").unwrap_err()), "exec: invalid range 5-3: start > end");
    let split = SplitCommand::new("1, 7, 4").unwrap();
    assert_eq!(failed_text(split.execute(&make_doc(3, &[])).unwrap_err()), "exec: page index out of bounds: 6");
}

#[test]
fn split_readings_agree_on_examples() {
    for spec in ["1-3, 5", "2", "3-1", "0", "a", "1,,2", "4-4,1-2"] {
        let here = parse_ranges_for_split(spec);
        let there = SplitCommand::new(spec);
        assert_eq!(here.is_ok(), there.is_ok(), "{spec}");
    }
}

use rpdf::edit::{Command, CommandError, CommandStack, MergeCommand};
use rpdf::types::{Document, Page, PdfNumber};

/// A box of real numbers, each kept as its decimal text.
fn rect(v: [f64; 4]) -> [PdfNumber; 4] {
    v.map(|x| PdfNumber::Real(format!("{:?}", x).into_bytes()))
}

/// The values of a box.
fn box_values(b: &Option<[PdfNumber; 4]>) -> Option<[f64; 4]> {
    b.as_ref().map(|r| {
        r.clone().map(|n| match n {
            PdfNumber::Integer(i) => i as f64,
            PdfNumber::Real(t) => std::str::from_utf8(&t).unwrap().parse::<f64>().unwrap(),
        })
    })
}

fn make_doc(pages: usize, rotations: &[i32]) -> Document {
    let page_vec = (0..pages)
        .map(|i| Page {
            index: i,
            content: vec![],
            resources: None,
            media_box: None,
            crop_box: None,
            rotation: rotations.get(i).copied().unwrap_or(0),
        })
        .collect();
    Document {
        pages: page_vec,
        metadata: None,
    }
}


#[test]
fn merge_single_source() {
    let mut doc = make_doc(3, &[]);
    let source = make_doc(2, &[]);
    let mut cmd = MergeCommand::new(vec![source]);
    cmd.execute(&mut doc).unwrap();
    assert_eq!(doc.pages.len(), 5);
}

#[test]
fn merge_multiple_sources() {
    let mut doc = make_doc(2, &[]);
    let s1 = make_doc(3, &[10, 11, 12]);
    let s2 = make_doc(1, &[20]);
    let mut cmd = MergeCommand::new(vec![s1, s2]);
    cmd.execute(&mut doc).unwrap();
    assert_eq!(doc.pages.len(), 6);
    // 소스 간 순서: s1 페이지(index 2,3,4) → s2 페이지(index 5)
    assert_eq!(doc.pages[2].rotation, 10);
    assert_eq!(doc.pages[4].rotation, 12);
    assert_eq!(doc.pages[5].rotation, 20);
}

#[test]
fn merge_empty_sources_is_noop() {
    let mut doc = make_doc(3, &[]);
    let mut cmd = MergeCommand::new(vec![]);
    cmd.execute(&mut doc).unwrap();
    assert_eq!(doc.pages.len(), 3);
}

#[test]
fn merge_empty_source_document() {
    let mut doc = make_doc(3, &[]);
    let source = make_doc(0, &[]);
    let mut cmd = MergeCommand::new(vec![source]);
    cmd.execute(&mut doc).unwrap();
    assert_eq!(doc.pages.len(), 3);
}

#[test]
fn merge_into_empty_target() {
    let mut doc = make_doc(0, &[]);
    let source = make_doc(3, &[]);
    let mut cmd = MergeCommand::new(vec![source]);
    cmd.execute(&mut doc).unwrap();
    assert_eq!(doc.pages.len(), 3);
    cmd.undo(&mut doc).unwrap();
    assert_eq!(doc.pages.len(), 0);
}

#[test]
fn undo_restores_original_pages() {
    let mut doc = make_doc(3, &[]);
    let source = make_doc(2, &[]);
    let mut cmd = MergeCommand::new(vec![source]);
    cmd.execute(&mut doc).unwrap();
    assert_eq!(doc.pages.len(), 5);
    cmd.undo(&mut doc).unwrap();
    assert_eq!(doc.pages.len(), 3);
    for i in 0..3 {
        assert_eq!(doc.pages[i].index, i);
    }
}

#[test]
fn merge_execute_undo_redo_via_stack() {
    let mut doc = make_doc(3, &[]);
    let source = make_doc(2, &[]);
    let mut stack = CommandStack::new(10);

    stack
        .execute(Box::new(MergeCommand::new(vec![source])), &mut doc)
        .unwrap();
    assert_eq!(doc.pages.len(), 5);

    stack.undo(&mut doc).unwrap();
    assert_eq!(doc.pages.len(), 3);

    stack.redo(&mut doc).unwrap();
    assert_eq!(doc.pages.len(), 5);
}

#[test]
fn page_indices_consistent_after_merge() {
    let mut doc = make_doc(3, &[]);
    let source = make_doc(2, &[]);
    let mut cmd = MergeCommand::new(vec![source]);
    cmd.execute(&mut doc).unwrap();
    for (i, page) in doc.pages.iter().enumerate() {
        assert_eq!(page.index, i);
    }
}

#[test]
fn merge_page_indices_consistent_after_undo() {
    let mut doc = make_doc(3, &[]);
    let source = make_doc(2, &[]);
    let mut cmd = MergeCommand::new(vec![source]);
    cmd.execute(&mut doc).unwrap();
    cmd.undo(&mut doc).unwrap();
    for (i, page) in doc.pages.iter().enumerate() {
        assert_eq!(page.index, i);
    }
}

#[test]
fn merge_double_execute_fails() {
    let mut doc = make_doc(3, &[]);
    let source = make_doc(2, &[]);
    let mut cmd = MergeCommand::new(vec![source]);
    cmd.execute(&mut doc).unwrap();
    let err = cmd.execute(&mut doc).unwrap_err();
    assert!(matches!(err, CommandError::ExecutionFailed(_)));
    if let CommandError::ExecutionFailed(msg) = err {
        assert!(msg.contains("already executed"));
    }
}

#[test]
fn merge_undo_before_execute_fails() {
    let mut doc = make_doc(3, &[]);
    let mut cmd = MergeCommand::new(vec![]);
    let err = cmd.undo(&mut doc).unwrap_err();
    assert!(matches!(err, CommandError::UndoFailed(_)));
    if let CommandError::UndoFailed(msg) = err {
        assert!(msg.contains("undo called before execute"));
    }
}

#[test]
fn merge_preserves_page_content() {
    let mut doc = make_doc(1, &[90]);
    doc.pages[0].media_box = Some(rect([0.0, 0.0, 595.0, 842.0]));

    let mut source = make_doc(1, &[180]);
    source.pages[0].media_box = Some(rect([0.0, 0.0, 210.0, 297.0]));

    let mut cmd = MergeCommand::new(vec![source]);
    cmd.execute(&mut doc).unwrap();

    assert_eq!(doc.pages[0].rotation, 90);
    assert_eq!(box_values(&doc.pages[0].media_box), Some([0.0, 0.0, 595.0, 842.0]));
    assert_eq!(doc.pages[1].rotation, 180);
    assert_eq!(box_values(&doc.pages[1].media_box), Some([0.0, 0.0, 210.0, 297.0]));
}

#[test]
fn merge_source_page_order_preserved() {
    let mut doc = make_doc(2, &[]);
    let source = make_doc(3, &[90, 180, 270]);
    let mut cmd = MergeCommand::new(vec![source]);
    cmd.execute(&mut doc).unwrap();

    assert_eq!(doc.pages.len(), 5);
    // 소스 페이지 순서: rotation 90, 180, 270
    assert_eq!(doc.pages[2].rotation, 90);
    assert_eq!(doc.pages[3].rotation, 180);
    assert_eq!(doc.pages[4].rotation, 270);
    // index도 올바르게 재정렬됨
    assert_eq!(doc.pages[2].index, 2);
    assert_eq!(doc.pages[3].index, 3);
    assert_eq!(doc.pages[4].index, 4);
}

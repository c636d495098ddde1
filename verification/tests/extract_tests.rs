use rpdf::edit::{CommandError, ExtractPagesCommand, Query};
use rpdf::types::{Document, DocumentMetadata, Page};

fn make_doc(pages: usize, rotations: &[i32]) -> Document {
    let page_vec = (0..pages)
        .map(|i| Page {
            index: i,
            content: vec![],
            resources: None,
            media_box: None,
            crop_box: None,
            rotation: rotations.get(i).copied().unwrap_or(0),
        })
        .collect();
    Document {
        pages: page_vec,
        metadata: None,
    }
}



#[test]
fn extract_basic_range() {
    let doc = make_doc(5, &[]);
    let cmd = ExtractPagesCommand::new(2, 4).unwrap();
    let result = cmd.execute(&doc).unwrap();
    assert_eq!(result.pages.len(), 3);
}

#[test]
fn extract_single_page() {
    let doc = make_doc(5, &[]);
    let cmd = ExtractPagesCommand::new(3, 3).unwrap();
    let result = cmd.execute(&doc).unwrap();
    assert_eq!(result.pages.len(), 1);
}

#[test]
fn extract_entire_document() {
    let doc = make_doc(5, &[]);
    let cmd = ExtractPagesCommand::new(1, 5).unwrap();
    let result = cmd.execute(&doc).unwrap();
    assert_eq!(result.pages.len(), 5);
}

#[test]
fn extract_preserves_page_content() {
    let doc = make_doc(3, &[90, 180, 270]);
    let cmd = ExtractPagesCommand::new(1, 3).unwrap();
    let result = cmd.execute(&doc).unwrap();
    assert_eq!(result.pages[0].rotation, 90);
    assert_eq!(result.pages[1].rotation, 180);
    assert_eq!(result.pages[2].rotation, 270);
}

#[test]
fn extract_page_indices_reindexed() {
    let doc = make_doc(5, &[]);
    let cmd = ExtractPagesCommand::new(2, 4).unwrap();
    let result = cmd.execute(&doc).unwrap();
    assert_eq!(result.pages[0].index, 0);
    assert_eq!(result.pages[1].index, 1);
    assert_eq!(result.pages[2].index, 2);
}

#[test]
fn extract_metadata_copied() {
    let mut doc = make_doc(3, &[]);
    doc.metadata = Some(DocumentMetadata {
        title: Some(b"Test".to_vec()),
        ..Default::default()
    });
    let cmd = ExtractPagesCommand::new(1, 2).unwrap();
    let result = cmd.execute(&doc).unwrap();
    assert!(result.metadata.is_some());
    let meta = result.metadata.as_ref().unwrap();
    assert_eq!(meta.title, Some(b"Test".to_vec()));
}

#[test]
fn extract_out_of_bounds_end() {
    let doc = make_doc(5, &[]);
    let cmd = ExtractPagesCommand::new(1, 10).unwrap();
    let err = cmd.execute(&doc).unwrap_err();
    assert!(matches!(err, CommandError::ExecutionFailed(_)));
    if let CommandError::ExecutionFailed(msg) = err {
        assert!(msg.contains("page index out of bounds"));
    }
}

#[test]
fn extract_start_out_of_bounds() {
    let doc = make_doc(5, &[]);
    let cmd = ExtractPagesCommand::new(8, 10).unwrap();
    let err = cmd.execute(&doc).unwrap_err();
    assert!(matches!(err, CommandError::ExecutionFailed(_)));
}

#[test]
fn extract_zero_start_page() {
    let err = ExtractPagesCommand::new(0, 3).unwrap_err();
    assert!(matches!(err, CommandError::ExecutionFailed(_)));
    if let CommandError::ExecutionFailed(msg) = err {
        assert!(msg.contains("1-based"));
    }
}

#[test]
fn extract_zero_end_page() {
    let err = ExtractPagesCommand::new(1, 0).unwrap_err();
    assert!(matches!(err, CommandError::ExecutionFailed(_)));
    if let CommandError::ExecutionFailed(msg) = err {
        assert!(msg.contains("1-based"));
    }
}

#[test]
fn extract_start_greater_than_end() {
    let err = ExtractPagesCommand::new(4, 2).unwrap_err();
    assert!(matches!(err, CommandError::ExecutionFailed(_)));
    if let CommandError::ExecutionFailed(msg) = err {
        assert!(msg.contains("start > end"));
    }
}

#[test]
fn extract_on_empty_document() {
    let doc = make_doc(0, &[]);
    let cmd = ExtractPagesCommand::new(1, 1).unwrap();
    let err = cmd.execute(&doc).unwrap_err();
    assert!(matches!(err, CommandError::ExecutionFailed(_)));
    if let CommandError::ExecutionFailed(msg) = err {
        assert!(msg.contains("document has no pages"));
    }
}

#[test]
fn extract_original_doc_unchanged() {
    let doc = make_doc(5, &[]);
    let original_len = doc.pages.len();
    let cmd = ExtractPagesCommand::new(1, 3).unwrap();
    cmd.execute(&doc).unwrap();
    assert_eq!(doc.pages.len(), original_len);
}

#[test]
fn extract_last_page_boundary() {
    let doc = make_doc(5, &[]);
    let cmd = ExtractPagesCommand::new(5, 5).unwrap();
    let result = cmd.execute(&doc).unwrap();
    assert_eq!(result.pages.len(), 1);
    assert_eq!(result.pages[0].index, 0);
}

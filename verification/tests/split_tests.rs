use rpdf::edit::{CommandError, Query, SplitCommand};
use rpdf::types::{Document, DocumentMetadata, Page};

fn make_doc(pages: usize, rotations: &[i32]) -> Document {
    let page_vec = (0..pages)
        .map(|i| Page {
            index: i,
            content: vec![],
            resources: None,
            media_box: None,
            crop_box: None,
            rotation: rotations.get(i).copied().unwrap_or(0),
        })
        .collect();
    Document {
        pages: page_vec,
        metadata: None,
    }
}



#[test]
fn split_single_range() {
    let doc = make_doc(5, &[]);
    let cmd = SplitCommand::new("2-4").unwrap();
    let result = cmd.execute(&doc).unwrap();
    assert_eq!(result.len(), 1);
    assert_eq!(result[0].pages.len(), 3);
}

#[test]
fn split_multiple_ranges() {
    let doc = make_doc(5, &[]);
    let cmd = SplitCommand::new("1-2,4-5").unwrap();
    let result = cmd.execute(&doc).unwrap();
    assert_eq!(result.len(), 2);
    assert_eq!(result[0].pages.len(), 2);
    assert_eq!(result[1].pages.len(), 2);
}

#[test]
fn split_single_page_spec() {
    let doc = make_doc(5, &[]);
    let cmd = SplitCommand::new("3").unwrap();
    let result = cmd.execute(&doc).unwrap();
    assert_eq!(result.len(), 1);
    assert_eq!(result[0].pages.len(), 1);
}

#[test]
fn split_entire_document() {
    let doc = make_doc(5, &[]);
    let cmd = SplitCommand::new("1-5").unwrap();
    let result = cmd.execute(&doc).unwrap();
    assert_eq!(result.len(), 1);
    assert_eq!(result[0].pages.len(), 5);
}

#[test]
fn split_preserves_page_content() {
    let doc = make_doc(3, &[90, 180, 270]);
    let cmd = SplitCommand::new("1-3").unwrap();
    let result = cmd.execute(&doc).unwrap();
    assert_eq!(result[0].pages[0].rotation, 90);
    assert_eq!(result[0].pages[1].rotation, 180);
    assert_eq!(result[0].pages[2].rotation, 270);
}

#[test]
fn split_page_indices_reindexed() {
    let doc = make_doc(5, &[]);
    let cmd = SplitCommand::new("2-4").unwrap();
    let result = cmd.execute(&doc).unwrap();
    assert_eq!(result[0].pages[0].index, 0);
    assert_eq!(result[0].pages[1].index, 1);
    assert_eq!(result[0].pages[2].index, 2);
}

#[test]
fn split_metadata_copied() {
    let mut doc = make_doc(3, &[]);
    doc.metadata = Some(DocumentMetadata {
        title: Some(b"Test".to_vec()),
        ..Default::default()
    });
    let cmd = SplitCommand::new("1-2").unwrap();
    let result = cmd.execute(&doc).unwrap();
    assert!(result[0].metadata.is_some());
    let meta = result[0].metadata.as_ref().unwrap();
    assert_eq!(meta.title, Some(b"Test".to_vec()));
}

#[test]
fn split_out_of_bounds() {
    let doc = make_doc(5, &[]);
    let cmd = SplitCommand::new("1-10").unwrap();
    let err = cmd.execute(&doc).unwrap_err();
    assert!(matches!(err, CommandError::ExecutionFailed(_)));
    if let CommandError::ExecutionFailed(msg) = err {
        assert!(msg.contains("page index out of bounds"));
    }
}

#[test]
fn split_invalid_spec_letters() {
    let err = SplitCommand::new("abc").unwrap_err();
    assert!(matches!(err, CommandError::ExecutionFailed(_)));
}

#[test]
fn split_invalid_spec_empty() {
    let err = SplitCommand::new("").unwrap_err();
    assert!(matches!(err, CommandError::ExecutionFailed(_)));
    if let CommandError::ExecutionFailed(msg) = err {
        assert!(msg.contains("range spec must not be empty"));
    }
}

#[test]
fn split_range_start_greater_than_end() {
    let err = SplitCommand::new("3-1").unwrap_err();
    assert!(matches!(err, CommandError::ExecutionFailed(_)));
    if let CommandError::ExecutionFailed(msg) = err {
        assert!(msg.contains("start > end"));
    }
}

#[test]
fn split_on_empty_document() {
    let doc = make_doc(0, &[]);
    let cmd = SplitCommand::new("1-3").unwrap();
    let err = cmd.execute(&doc).unwrap_err();
    assert!(matches!(err, CommandError::ExecutionFailed(_)));
    if let CommandError::ExecutionFailed(msg) = err {
        assert!(msg.contains("document has no pages"));
    }
}

#[test]
fn split_range_order_preserved() {
    let doc = make_doc(5, &[90, 180, 270, 0, 0]);
    let cmd = SplitCommand::new("1-3").unwrap();
    let result = cmd.execute(&doc).unwrap();
    assert_eq!(result[0].pages[0].rotation, 90);
    assert_eq!(result[0].pages[1].rotation, 180);
    assert_eq!(result[0].pages[2].rotation, 270);
}

#[test]
fn split_original_doc_unchanged() {
    let doc = make_doc(5, &[]);
    let original_len = doc.pages.len();
    let cmd = SplitCommand::new("1-3").unwrap();
    cmd.execute(&doc).unwrap();
    assert_eq!(doc.pages.len(), original_len);
}

#[test]
fn split_zero_page_number() {
    let err = SplitCommand::new("0").unwrap_err();
    assert!(matches!(err, CommandError::ExecutionFailed(_)));
    if let CommandError::ExecutionFailed(msg) = err {
        assert!(msg.contains("1-based"));
    }

    let err2 = SplitCommand::new("0-3").unwrap_err();
    assert!(matches!(err2, CommandError::ExecutionFailed(_)));
    if let CommandError::ExecutionFailed(msg) = err2 {
        assert!(msg.contains("1-based"));
    }
}

#[test]
fn split_spec_with_spaces() {
    let doc = make_doc(5, &[]);
    let cmd = SplitCommand::new("1-3, 5").unwrap();
    let result = cmd.execute(&doc).unwrap();
    assert_eq!(result.len(), 2);
    assert_eq!(result[0].pages.len(), 3);
    assert_eq!(result[1].pages.len(), 1);
}

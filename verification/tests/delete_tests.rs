use rpdf::edit::{Command, CommandError, CommandStack, DeletePagesCommand};
use rpdf::types::{Document, Page};

fn make_doc(pages: usize, rotations: &[i32]) -> Document {
    let page_vec = (0..pages)
        .map(|i| Page {
            index: i,
            content: vec![],
            resources: None,
            media_box: None,
            crop_box: None,
            rotation: rotations.get(i).copied().unwrap_or(0),
        })
        .collect();
    Document {
        pages: page_vec,
        metadata: None,
    }
}




#[test]
fn delete_single_page() {
    let mut doc = make_doc(3, &[]);
    let mut cmd = DeletePagesCommand::new(vec![1]);
    cmd.execute(&mut doc).unwrap();
    assert_eq!(doc.pages.len(), 2);
    assert_eq!(doc.pages[0].index, 0);
    assert_eq!(doc.pages[1].index, 1);
}

#[test]
fn delete_multiple_pages() {
    let mut doc = make_doc(5, &[]);
    let mut cmd = DeletePagesCommand::new(vec![1, 3]);
    cmd.execute(&mut doc).unwrap();
    assert_eq!(doc.pages.len(), 3);
}

#[test]
fn delete_first_page() {
    let mut doc = make_doc(3, &[]);
    let mut cmd = DeletePagesCommand::new(vec![0]);
    cmd.execute(&mut doc).unwrap();
    assert_eq!(doc.pages.len(), 2);
    assert_eq!(doc.pages[0].index, 0);
}

#[test]
fn delete_last_page() {
    let mut doc = make_doc(3, &[]);
    let mut cmd = DeletePagesCommand::new(vec![2]);
    cmd.execute(&mut doc).unwrap();
    assert_eq!(doc.pages.len(), 2);
    assert_eq!(doc.pages[1].index, 1);
}

#[test]
fn undo_restores_deleted_pages() {
    let mut doc = make_doc(3, &[]);
    let mut cmd = DeletePagesCommand::new(vec![1]);
    cmd.execute(&mut doc).unwrap();
    assert_eq!(doc.pages.len(), 2);
    cmd.undo(&mut doc).unwrap();
    assert_eq!(doc.pages.len(), 3);
    assert_eq!(doc.pages[0].index, 0);
    assert_eq!(doc.pages[1].index, 1);
    assert_eq!(doc.pages[2].index, 2);
}

#[test]
fn delete_execute_undo_redo_via_stack() {
    let mut doc = make_doc(3, &[]);
    let mut stack = CommandStack::new(10);

    stack
        .execute(Box::new(DeletePagesCommand::new(vec![1])), &mut doc)
        .unwrap();
    assert_eq!(doc.pages.len(), 2);

    stack.undo(&mut doc).unwrap();
    assert_eq!(doc.pages.len(), 3);

    stack.redo(&mut doc).unwrap();
    assert_eq!(doc.pages.len(), 2);
}

#[test]
fn delete_page_index_out_of_bounds() {
    let mut doc = make_doc(2, &[]);
    let mut cmd = DeletePagesCommand::new(vec![5]);
    let err = cmd.execute(&mut doc).unwrap_err();
    assert!(matches!(err, CommandError::ExecutionFailed(_)));
    if let CommandError::ExecutionFailed(msg) = err {
        assert!(msg.contains("page index out of bounds"));
        assert!(msg.contains("document has 2 pages"));
    }
}

#[test]
fn duplicate_indices_deduplicated() {
    let mut doc = make_doc(4, &[]);
    let mut cmd = DeletePagesCommand::new(vec![1, 1, 2]);
    cmd.execute(&mut doc).unwrap();
    assert_eq!(doc.pages.len(), 2);
}

#[test]
fn empty_indices_is_noop() {
    let mut doc = make_doc(3, &[]);
    let mut cmd = DeletePagesCommand::new(vec![]);
    cmd.execute(&mut doc).unwrap();
    assert_eq!(doc.pages.len(), 3);
}

#[test]
fn delete_all_pages() {
    let mut doc = make_doc(3, &[]);
    let mut cmd = DeletePagesCommand::new(vec![0, 1, 2]);
    cmd.execute(&mut doc).unwrap();
    assert_eq!(doc.pages.len(), 0);
    cmd.undo(&mut doc).unwrap();
    assert_eq!(doc.pages.len(), 3);
    for i in 0..3 {
        assert_eq!(doc.pages[i].index, i);
    }
}

#[test]
fn delete_undo_before_execute_fails() {
    let mut doc = make_doc(3, &[]);
    let mut cmd = DeletePagesCommand::new(vec![0]);
    let err = cmd.undo(&mut doc).unwrap_err();
    assert!(matches!(err, CommandError::UndoFailed(_)));
    if let CommandError::UndoFailed(msg) = err {
        assert!(msg.contains("undo called before execute"));
    }
}

#[test]
fn page_indices_consistent_after_execute() {
    let mut doc = make_doc(5, &[]);
    let mut cmd = DeletePagesCommand::new(vec![1, 3]);
    cmd.execute(&mut doc).unwrap();
    for (i, page) in doc.pages.iter().enumerate() {
        assert_eq!(page.index, i);
    }
}

#[test]
fn delete_page_indices_consistent_after_undo() {
    let mut doc = make_doc(5, &[]);
    let mut cmd = DeletePagesCommand::new(vec![1, 3]);
    cmd.execute(&mut doc).unwrap();
    cmd.undo(&mut doc).unwrap();
    for (i, page) in doc.pages.iter().enumerate() {
        assert_eq!(page.index, i);
    }
}

#[test]
fn partial_out_of_bounds_is_atomic() {
    let mut doc = make_doc(2, &[]);
    let mut cmd = DeletePagesCommand::new(vec![0, 5]);
    let err = cmd.execute(&mut doc).unwrap_err();
    assert!(matches!(err, CommandError::ExecutionFailed(_)));
    // doc 변경 없음 (원자성 보장)
    assert_eq!(doc.pages.len(), 2);
    assert_eq!(doc.pages[0].index, 0);
    assert_eq!(doc.pages[1].index, 1);
}

#[test]
fn delete_double_execute_fails() {
    let mut doc = make_doc(3, &[]);
    let mut cmd = DeletePagesCommand::new(vec![1]);
    cmd.execute(&mut doc).unwrap();
    let err = cmd.execute(&mut doc).unwrap_err();
    assert!(matches!(err, CommandError::ExecutionFailed(_)));
    if let CommandError::ExecutionFailed(msg) = err {
        assert!(msg.contains("already executed"));
    }
}

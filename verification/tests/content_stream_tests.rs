use rpdf::parser::{parse_content_stream, ParseError};
use rpdf::types::{ContentStreamOperator, PdfObject};

#[test]
fn empty_input_returns_empty_vec() {
    let result = parse_content_stream(b"").unwrap();
    assert!(result.is_empty());
}


// ── 기본 파싱 단위 테스트 ────────────────────────────────────

#[test]
fn empty_input_returns_empty() {
    assert!(parse_content_stream(b"").unwrap().is_empty());
}

#[test]
fn single_operand_plus_keyword() {
    let ops = parse_content_stream(b"12 w").unwrap();
    assert_eq!(ops.len(), 1);
    assert_eq!(ops[0].operator, ContentStreamOperator::SetLineWidth);
    assert_eq!(ops[0].operands, vec![PdfObject::Integer(12)]);
}

#[test]
fn multiple_operands_plus_keyword() {
    let ops = parse_content_stream(b"1 0 0 1 50 700 cm").unwrap();
    assert_eq!(ops.len(), 1);
    assert_eq!(ops[0].operands.len(), 6);
}

#[test]
fn keyword_with_no_operands() {
    let ops = parse_content_stream(b"BT").unwrap();
    assert_eq!(ops.len(), 1);
    assert_eq!(ops[0].operator, ContentStreamOperator::BeginText);
    assert!(ops[0].operands.is_empty());
}

#[test]
fn comment_is_skipped() {
    // % 주석 줄 사이에 연산자가 있어도 정상 파싱
    let ops = parse_content_stream(b"% comment\nBT\n% another\nET").unwrap();
    assert_eq!(ops.len(), 2);
    assert_eq!(ops[0].operator, ContentStreamOperator::BeginText);
    assert_eq!(ops[1].operator, ContentStreamOperator::EndText);
}

#[test]
fn multiple_operations_in_sequence() {
    let ops = parse_content_stream(b"BT\n/F1 12 Tf\n72 720 Td\nET").unwrap();
    assert_eq!(ops.len(), 4);
    assert_eq!(ops[0].operator, ContentStreamOperator::BeginText);
    assert_eq!(ops[1].operator, ContentStreamOperator::SetFont);
    assert_eq!(ops[2].operator, ContentStreamOperator::MoveText);
    assert_eq!(ops[3].operator, ContentStreamOperator::EndText);
}

#[test]
fn array_operand_for_tj() {
    // TJ의 배열 인자: [(Hello)10(World)]
    let ops = parse_content_stream(b"[(Hello)10(World)] TJ").unwrap();
    assert_eq!(ops.len(), 1);
    assert_eq!(ops[0].operator, ContentStreamOperator::ShowTextAdjusted);
    assert_eq!(ops[0].operands.len(), 1);
    matches!(ops[0].operands[0], PdfObject::Array(_));
}

#[test]
fn operands_only_no_keyword_returns_empty() {
    // 피연산자만 있고 키워드 없음 → 남은 스택 무시
    let ops = parse_content_stream(b"1 2 3").unwrap();
    assert!(ops.is_empty());
}

#[test]
fn invalid_byte_returns_error() {
    let err = parse_content_stream(b"!invalid").unwrap_err();
    assert!(matches!(err, ParseError::MalformedContentStream { .. }));
}

#[test]
fn balanced_q_q_succeeds() {
    let ops = parse_content_stream(b"q Q").unwrap();
    assert_eq!(ops.len(), 2);
}

// ── 연산자 분류 단위 테스트 ────────────────────────────────────

#[test]
fn text_operators_classified() {
    let ops = parse_content_stream(b"BT ET").unwrap();
    assert_eq!(ops[0].operator, ContentStreamOperator::BeginText);
    assert_eq!(ops[1].operator, ContentStreamOperator::EndText);
}

#[test]
fn show_text_and_adjusted() {
    let ops = parse_content_stream(b"(Hi) Tj [(x)10] TJ").unwrap();
    assert_eq!(ops[0].operator, ContentStreamOperator::ShowText);
    assert_eq!(ops[1].operator, ContentStreamOperator::ShowTextAdjusted);
}

#[test]
fn move_show_text_operators() {
    let ops = parse_content_stream(b"(Hi) ' 0 0 (Hi) \"").unwrap();
    assert_eq!(ops[0].operator, ContentStreamOperator::MoveShowText);
    assert_eq!(ops[1].operator, ContentStreamOperator::MoveSetShowText);
}

#[test]
fn graphics_state_operators() {
    let ops = parse_content_stream(b"q Q 1 0 0 1 0 0 cm /GS1 gs").unwrap();
    assert_eq!(ops[0].operator, ContentStreamOperator::SaveState);
    assert_eq!(ops[1].operator, ContentStreamOperator::RestoreState);
    assert_eq!(ops[2].operator, ContentStreamOperator::ConcatMatrix);
    assert_eq!(ops[3].operator, ContentStreamOperator::SetGraphicsState);
}

#[test]
fn path_operators_classified() {
    let ops = parse_content_stream(b"0 0 m 10 10 l h re f* W*").unwrap();
    // m, l, h requires operands but keyword_to_operator is pure
    // Just check operator types
    assert_eq!(ops[0].operator, ContentStreamOperator::MoveTo);
    assert_eq!(ops[1].operator, ContentStreamOperator::LineTo);
    assert_eq!(ops[2].operator, ContentStreamOperator::ClosePath);
    // re needs 4 operands; without them it's still classified
    // f*, W*
    let fstar_idx = ops
        .iter()
        .position(|o| o.operator == ContentStreamOperator::FillEvenOdd);
    assert!(fstar_idx.is_some());
    let wstar_idx = ops
        .iter()
        .position(|o| o.operator == ContentStreamOperator::ClipEvenOdd);
    assert!(wstar_idx.is_some());
}

#[test]
fn color_operators_classified() {
    let ops = parse_content_stream(b"1 0 0 RG 0.5 g 0 0 0 1 k").unwrap();
    assert_eq!(ops[0].operator, ContentStreamOperator::SetStrokeRGB);
    assert_eq!(ops[1].operator, ContentStreamOperator::SetFillGray);
    assert_eq!(ops[2].operator, ContentStreamOperator::SetFillCMYK);
}

#[test]
fn xobject_operator() {
    let ops = parse_content_stream(b"/Image1 Do").unwrap();
    assert_eq!(ops[0].operator, ContentStreamOperator::InvokeXObject);
}

#[test]
fn marked_content_operators() {
    let ops = parse_content_stream(b"/Tag BMC EMC").unwrap();
    assert_eq!(ops[0].operator, ContentStreamOperator::BeginMarkedContent);
    assert_eq!(ops[1].operator, ContentStreamOperator::EndMarkedContent);
}

#[test]
fn compatibility_operators() {
    let ops = parse_content_stream(b"BX EX").unwrap();
    assert_eq!(ops[0].operator, ContentStreamOperator::BeginCompatibility);
    assert_eq!(ops[1].operator, ContentStreamOperator::EndCompatibility);
}

#[test]
fn unknown_keyword_preserved() {
    let ops = parse_content_stream(b"xyz").unwrap();
    assert_eq!(ops.len(), 1);
    assert_eq!(
        ops[0].operator,
        ContentStreamOperator::Unknown(b"xyz".to_vec())
    );
}

// ── 인라인 이미지와 q/Q 단위 테스트 ────────────────────────────────────

#[test]
fn inline_image_basic() {
    // BI /W 10 /H 5 /CS /G /BPC 8 ID <10*5=50 bytes> EI
    let mut data = b"BI /W 10 /H 5 /CS /G /BPC 8\nID ".to_vec();
    data.extend_from_slice(&[0xABu8; 50]); // 50 raw bytes
    data.extend_from_slice(b"\nEI");
    let ops = parse_content_stream(&data).unwrap();
    assert_eq!(ops.len(), 1);
    assert_eq!(ops[0].operator, ContentStreamOperator::InlineImage);
    // dict: /W 10 /H 5 /CS /G /BPC 8 → 4쌍 = 8개 피연산자
    assert_eq!(ops[0].operands.len(), 8);
    assert_eq!(ops[0].inline_data.as_ref().unwrap().len(), 50);
}

#[test]
fn inline_image_without_id_returns_error() {
    let data = b"BI /W 10\n";
    let err = parse_content_stream(data).unwrap_err();
    assert!(matches!(err, ParseError::MalformedInlineImage { .. }));
}

#[test]
fn inline_image_without_ei_returns_error() {
    let mut data = b"BI /W 10 ID ".to_vec();
    data.extend_from_slice(&[0xABu8; 20]);
    let err = parse_content_stream(&data).unwrap_err();
    assert!(matches!(err, ParseError::MalformedInlineImage { .. }));
}

#[test]
fn inline_image_ei_in_data_without_preceding_whitespace_is_not_ei() {
    // raw bytes에 EI가 있어도 앞에 공백이 없으면 EI로 인식하지 않음
    let mut data = b"BI /W 2 /H 1 ID ".to_vec();
    data.extend_from_slice(b"xEI"); // 공백 없이 EI → EI 아님
    data.extend_from_slice(b"\nEI"); // 진짜 EI
    let ops = parse_content_stream(&data).unwrap();
    assert_eq!(ops.len(), 1);
    // inline_data에는 'xEI'가 포함되어야 함
    let img_data = ops[0].inline_data.as_ref().unwrap();
    assert!(img_data.contains(&b'x'));
}

#[test]
fn q_q_balanced_succeeds() {
    let ops = parse_content_stream(b"q q Q Q").unwrap();
    assert_eq!(ops.len(), 4);
}

#[test]
fn q_q_unbalanced_excess_q_at_end() {
    let err = parse_content_stream(b"q q Q").unwrap_err();
    match err {
        ParseError::UnbalancedGraphicsState { depth, .. } => assert_eq!(depth, 1),
        other => panic!("expected UnbalancedGraphicsState, got {other:?}"),
    }
}

#[test]
fn q_unmatched_restore_first() {
    let err = parse_content_stream(b"Q q Q").unwrap_err();
    match err {
        ParseError::UnbalancedGraphicsState { depth, offset } => {
            assert_eq!(depth, -1);
            assert_eq!(offset, 0); // Q는 위치 0
        }
        other => panic!("expected UnbalancedGraphicsState, got {other:?}"),
    }
}

#[test]
fn integrated_text_path_color_stream() {
    let stream = b"\
BT\n\
  /F1 12 Tf\n\
  72 720 Td\n\
  (Hello) Tj\n\
ET\n\
q\n\
  1 0 0 RG\n\
  100 100 m\n\
  200 200 l\n\
  S\n\
Q\n\
";
    let ops = parse_content_stream(stream).unwrap();
    // BT, Tf, Td, Tj, ET, q, RG, m, l, S, Q = 11개
    assert_eq!(ops.len(), 11);
    assert_eq!(ops[0].operator, ContentStreamOperator::BeginText);
    assert_eq!(ops[4].operator, ContentStreamOperator::EndText);
    assert_eq!(ops[5].operator, ContentStreamOperator::SaveState);
    assert_eq!(ops[10].operator, ContentStreamOperator::RestoreState);
}

#[test]
fn empty_bt_et_pair() {
    let ops = parse_content_stream(b"BT ET").unwrap();
    assert_eq!(ops.len(), 2);
    assert!(ops[0].operands.is_empty());
    assert!(ops[1].operands.is_empty());
}

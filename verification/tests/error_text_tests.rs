use rpdf::parser::{parse_content_stream, parse_header, parse_indirect_object, parse_object, ParseError};

fn invalid_object(err: ParseError) -> (usize, String) {
    match err {
        ParseError::InvalidObject { offset, reason } => (offset, reason),
        other => panic!("expected InvalidObject, got {:?}", other),
    }
}

fn malformed_stream(err: ParseError) -> (usize, String) {
    match err {
        ParseError::MalformedStream { offset, reason } => (offset, reason),
        other => panic!("expected MalformedStream, got {:?}", other),
    }
}

#[test]
fn stream_without_length_says_so() {
    let err = parse_object(b"<< >>\nstream\nabc\nendstream", 0).unwrap_err();
    assert_eq!(malformed_stream(err), (6, "missing /Length in stream dictionary".to_string()));
}

#[test]
fn stream_with_indirect_length_says_so() {
    let err = parse_object(b"<< /Length 3 0 R >>\nstream\nabc\nendstream", 0).unwrap_err();
    assert_eq!(malformed_stream(err), (20, "/Length is an indirect reference (not yet supported; Task #7)".to_string()));
}

#[test]
fn stream_with_too_long_length_says_so() {
    let err = parse_object(b"<< /Length 99 >>\nstream\nabc\nendstream", 0).unwrap_err();
    assert_eq!(malformed_stream(err), (17, "/Length 99 exceeds available data (13)".to_string()));
}

#[test]
fn stream_without_endstream_says_so() {
    let err = parse_object(b"<< /Length 3 >>\nstream\nabc\nend", 0).unwrap_err();
    assert_eq!(malformed_stream(err), (27, "missing endstream keyword".to_string()));
}

#[test]
fn name_with_incomplete_escape_says_so() {
    let err = parse_object(b"/a#4", 0).unwrap_err();
    assert_eq!(invalid_object(err), (2, "incomplete #HH escape in name".to_string()));
}

#[test]
fn name_with_bad_escape_digit_says_so() {
    let err = parse_object(b"/a#zz", 0).unwrap_err();
    assert_eq!(invalid_object(err), (3, "invalid hex digit in name escape: 0x7a".to_string()));
}

#[test]
fn unterminated_literal_string_says_so() {
    let err = parse_object(b"  (abc", 0).unwrap_err();
    assert_eq!(invalid_object(err), (2, "unterminated literal string (missing ')')".to_string()));
}

#[test]
fn bad_hex_string_byte_says_so() {
    let err = parse_object(b"<4x>", 0).unwrap_err();
    assert_eq!(invalid_object(err), (2, "invalid hex character in hex string: 0x78".to_string()));
}

#[test]
fn dictionary_key_that_is_not_a_name_says_so() {
    let err = parse_object(b"<< 1 2 >>", 0).unwrap_err();
    assert_eq!(invalid_object(err), (3, "dictionary key must be a Name, found \"1 2 >>\"".to_string()));
}

#[test]
fn indirect_object_without_obj_keyword_says_so() {
    let err = parse_indirect_object(b"1 0 ob 1 endobj", 0).unwrap_err();
    assert_eq!(invalid_object(err), (4, "expected 'obj' keyword, found \"ob 1 end\"".to_string()));
}

#[test]
fn inline_image_without_ei_says_so() {
    let err = parse_content_stream(b"BI /W 1 ID").unwrap_err();
    match err {
        ParseError::MalformedInlineImage { offset, reason } => {
            assert_eq!(offset, 0);
            assert_eq!(reason, "인라인 이미지 EI 키워드 없이 데이터 끝");
        },
        other => panic!("expected MalformedInlineImage, got {:?}", other),
    }
}

#[test]
fn inline_image_key_that_is_not_a_name_says_so() {
    let err = parse_content_stream(b"BI 1 2 ID x EI").unwrap_err();
    match err {
        ParseError::MalformedInlineImage { offset, reason } => {
            assert_eq!(offset, 3);
            assert_eq!(reason, "인라인 이미지 dict key가 Name이 아님: 0x31");
        },
        other => panic!("expected MalformedInlineImage, got {:?}", other),
    }
}

#[test]
fn stray_byte_in_content_stream_says_so() {
    let err = parse_content_stream(b"q ) Q").unwrap_err();
    match err {
        ParseError::MalformedContentStream { offset, reason } => {
            assert_eq!(offset, 2);
            assert_eq!(reason, "예상치 못한 바이트: 0x29 (')')");
        },
        other => panic!("expected MalformedContentStream, got {:?}", other),
    }
}

#[test]
fn bad_version_shows_what_was_found() {
    let err = parse_header(b"%PDF-x.7\n").unwrap_err();
    match err {
        ParseError::InvalidVersion { offset, found } => {
            assert_eq!(offset, 5);
            assert_eq!(found, "x.7");
        },
        other => panic!("expected InvalidVersion, got {:?}", other),
    }
}

#[test]
fn boolean_running_into_a_name_shows_what_follows() {
    let err = parse_object(b"truex", 0).unwrap_err();
    assert_eq!(invalid_object(err), (0, "boolean `true` followed by name char: \"truex\"".to_string()));
}

#[test]
fn unsupported_start_byte_is_shown_in_hex_and_as_a_character() {
    let err = parse_object(b" )", 0).unwrap_err();
    assert_eq!(invalid_object(err), (1, "unsupported object start byte: 0x29 (')')".to_string()));
}

#[test]
fn object_number_past_u32_is_shown() {
    let err = parse_indirect_object(b"99999999999 0 obj 1 endobj", 0).unwrap_err();
    assert_eq!(invalid_object(err), (0, "object number 99999999999 exceeds u32::MAX".to_string()));
}

#[test]
fn object_number_past_u64_overflows() {
    let err = parse_indirect_object(b"99999999999999999999999 0 obj 1 endobj", 0).unwrap_err();
    assert_eq!(invalid_object(err), (0, "object number overflow".to_string()));
}

#[test]
fn integer_below_i64_is_too_small() {
    let err = parse_object(b"-99999999999999999999", 0).unwrap_err();
    assert_eq!(
        invalid_object(err),
        (0, "integer out of range: number too small to fit in target type".to_string())
    );
}

#[test]
fn stream_keyword_with_lone_cr_says_so() {
    let err = parse_object(b"<< /Length 1 >>\nstream\rx\nendstream", 0).unwrap_err();
    assert_eq!(
        malformed_stream(err),
        (22, "stream keyword followed by CR alone (must be LF or CRLF)".to_string())
    );
}

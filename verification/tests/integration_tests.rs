use rpdf::parser::{find_eof, parse_header, ParseError};

// ─── IT-2: 헤더 오프셋 != 0 ──────────────────────────────────────────────────

#[test]
fn it2_header_at_nonzero_offset() {
    // %PDF-1.4 앞에 512 바이트 정크 데이터
    let mut data = vec![b'X'; 512];
    data.extend_from_slice(b"%PDF-1.4\n");
    data.extend_from_slice(b"trailer\n<<\n/Size 1\n/Root 1 0 R\n>>\nstartxref\n0\n%%EOF\n");

    let header = parse_header(&data).unwrap();
    assert_eq!(header.byte_offset, 512);
    assert_eq!(header.version.major(), 1);
    assert_eq!(header.version.minor(), 4);
}

// ─── IT-4: 파일 잘림 — MissingEof 반환 ──────────────────────────────────────

#[test]
fn it4_truncated_file_returns_missing_eof() {
    // 완전한 PDF 끝에서 %%EOF 를 잘라낸다
    let base = b"trailer\n<<\n/Size 5\n/Root 1 0 R\n>>\nstartxref\n100\n";
    // %%EOF 없이 끝나는 데이터
    assert!(matches!(
        find_eof(base).unwrap_err(),
        ParseError::MissingEof
    ));
}


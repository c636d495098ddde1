use rpdf::cli::{parse_page_list, parse_single_range, split_output_path};
use std::path::Path;


// parse_page_list 단위 테스트

#[test]
fn parse_page_list_normal() {
    let result = parse_page_list("2,4,6").unwrap();
    assert_eq!(result, vec![1, 3, 5]); // 0-based
}

#[test]
fn parse_page_list_dedup() {
    let result = parse_page_list("2,2,4").unwrap();
    assert_eq!(result, vec![1, 3]); // 중복 제거
}

#[test]
fn parse_page_list_zero_error() {
    let err = parse_page_list("0").unwrap_err();
    assert!(err.message().contains("1-based"));
}

#[test]
fn parse_page_list_empty_error() {
    let err = parse_page_list("").unwrap_err();
    assert!(err.message().contains("비어있습니다"));
}

#[test]
fn parse_page_list_letters_error() {
    let err = parse_page_list("2,abc,4").unwrap_err();
    assert!(err.message().contains("잘못된 페이지 번호"));
}

// parse_single_range 단위 테스트

#[test]
fn parse_single_range_range() {
    let (start, end) = parse_single_range("5-10").unwrap();
    assert_eq!(start, 5);
    assert_eq!(end, 10);
}

#[test]
fn parse_single_range_single() {
    let (start, end) = parse_single_range("5").unwrap();
    assert_eq!(start, 5);
    assert_eq!(end, 5);
}

#[test]
fn parse_single_range_inverted_error() {
    let err = parse_single_range("10-5").unwrap_err();
    assert!(err.message().contains("start > end"));
}

#[test]
fn parse_single_range_zero_start_error() {
    let err = parse_single_range("0-5").unwrap_err();
    assert!(err.message().contains("1-based"));
}

#[test]
fn parse_single_range_zero_single_error() {
    let err = parse_single_range("0").unwrap_err();
    assert!(err.message().contains("1-based"));
}

// split_output_path 단위 테스트

#[test]
fn split_output_path_normal() {
    let dir = Path::new("/tmp/out");
    let path = split_output_path(dir, "fw4-2024", 1);
    assert_eq!(path, Path::new("/tmp/out/fw4-2024_part1.pdf"));
}

#[test]
fn split_output_path_part2() {
    let dir = Path::new("/tmp/out");
    let path = split_output_path(dir, "fw4-2024", 2);
    assert_eq!(path, Path::new("/tmp/out/fw4-2024_part2.pdf"));
}

#[test]
fn split_output_path_empty_stem_fallback() {
    let dir = Path::new("/tmp/out");
    let path = split_output_path(dir, "", 1);
    assert_eq!(path, Path::new("/tmp/out/output_part1.pdf"));
}

use rpdf::parser::object_parser::{
    find_dict_close, parse_indirect_ref, parse_u64_val, peek_str, skip_literal_string, skip_value,
    skip_whitespace,
};
use rpdf::types::ObjectId;

#[test]
fn dict_close_simple() {
    assert_eq!(find_dict_close(b" /A 1 >>"), Some(6));
}

#[test]
fn dict_close_nested() {
    assert_eq!(find_dict_close(b"/A << /B 1 >> >> tail"), Some(14));
}

#[test]
fn dict_close_skips_strings() {
    // the `>>` inside the literal string and the hex string are not the close
    assert_eq!(find_dict_close(b"/A (x>>y) /B <41> >>"), Some(18));
}

#[test]
fn dict_close_unclosed() {
    assert_eq!(find_dict_close(b"/A 1"), None);
    assert_eq!(find_dict_close(b""), None);
}

#[test]
fn literal_string_length() {
    assert_eq!(skip_literal_string(b"(abc) rest"), 5);
    assert_eq!(skip_literal_string(b"(a(b)c)"), 7);
    assert_eq!(skip_literal_string(b"(a\\)b)"), 6);
}

#[test]
fn literal_string_unclosed() {
    assert_eq!(skip_literal_string(b"(abc"), 4);
    // a backslash in last place steps one past the end
    assert_eq!(skip_literal_string(b"(ab\\"), 5);
}

#[test]
fn skip_value_each_kind() {
    assert_eq!(skip_value(b""), 0);
    assert_eq!(skip_value(b"<< /A 1 >> x"), 10);
    assert_eq!(skip_value(b"(str) x"), 5);
    assert_eq!(skip_value(b"[1 [2] (])] x"), 11);
    assert_eq!(skip_value(b"<4142> x"), 6);
    assert_eq!(skip_value(b"/Name x"), 5);
    assert_eq!(skip_value(b"true x"), 4);
    assert_eq!(skip_value(b"false x"), 5);
    assert_eq!(skip_value(b"null x"), 4);
    assert_eq!(skip_value(b"12 0 R /X"), 6);
    assert_eq!(skip_value(b"12 /X"), 2);
    assert_eq!(skip_value(b"3.5]"), 3);
}

#[test]
fn skip_value_unclosed_dict() {
    // an unclosed dictionary counts its whole input and two more
    assert_eq!(skip_value(b"<< /A 1"), 9);
}

#[test]
fn whitespace_run() {
    assert_eq!(skip_whitespace(b" \t\r\n\x0c\x00x"), 6);
    assert_eq!(skip_whitespace(b"x"), 0);
    assert_eq!(skip_whitespace(b"   "), 3);
}

#[test]
fn u64_values() {
    assert_eq!(parse_u64_val(b"123 "), Some((123, 3)));
    assert_eq!(parse_u64_val(b"18446744073709551615"), Some((u64::MAX, 20)));
    assert_eq!(parse_u64_val(b"18446744073709551616"), None);
    assert_eq!(parse_u64_val(b"x1"), None);
    assert_eq!(parse_u64_val(b""), None);
}

#[test]
fn indirect_refs() {
    assert_eq!(parse_indirect_ref(b"12 0 R"), Some((ObjectId { number: 12, generation: 0 }, 6)));
    assert_eq!(parse_indirect_ref(b"7  3\nR>>"), Some((ObjectId { number: 7, generation: 3 }, 6)));
    assert_eq!(parse_indirect_ref(b"1 0 Rect"), None);
    assert_eq!(parse_indirect_ref(b"1 0 obj"), None);
    assert_eq!(parse_indirect_ref(b"4294967296 0 R"), None);
    assert_eq!(parse_indirect_ref(b"1 65536 R"), None);
    assert_eq!(parse_indirect_ref(b"1 R"), None);
}

#[test]
fn peek_text() {
    assert_eq!(peek_str(b"hello world", 5), "hello");
    assert_eq!(peek_str(b"hi", 5), "hi");
    assert_eq!(peek_str(b"\xffab", 3), "\u{fffd}ab");
}

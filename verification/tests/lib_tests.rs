#[test]
fn version_is_set() {
    assert!(!rpdf::version().is_empty());
    assert_eq!(rpdf::version(), "0.1.0");
}

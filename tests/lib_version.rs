use harness::VERSION;

#[test]
fn test_version_is_set() {
    assert_eq!(VERSION, "0.1.0");
}

#[test]
fn lib_test_version_is_set() {
    assert!(!VERSION.is_empty());
    assert_eq!(VERSION, "0.1.0");
}

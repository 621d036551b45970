use rift_l1::VERSION;

#[test]
fn test_version() {
    assert!(!VERSION.is_empty());
}

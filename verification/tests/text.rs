use airuntime::text::{decimal_text, same};

#[test]
fn text_decimal() {
    assert_eq!(decimal_text(0), "0");
    assert_eq!(decimal_text(7), "7");
    assert_eq!(decimal_text(10), "10");
    assert_eq!(decimal_text(1234567890), "1234567890");
    assert_eq!(decimal_text(u64::MAX), "18446744073709551615");
    for n in [0u64, 9, 10, 99, 100, 101, 4096, u32::MAX as u64] {
        assert_eq!(decimal_text(n), n.to_string());
    }
}

#[test]
fn text_same() {
    assert!(same("", ""));
    assert!(same("ai.onnx", "ai.onnx"));
    assert!(!same("ai.onnx", "ai.onnx.ml"));
    assert!(!same("a", "b"));
    assert!(!same("a", ""));
    assert!(same("模型", "模型"));
}

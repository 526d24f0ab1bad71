use gpuix::text::str_equals;

#[test]
fn str_equals_compares_characters() {
    assert!(str_equals("div", "div"));
    assert!(!str_equals("div", "text"));
    assert!(!str_equals("div", "di"));
    assert!(str_equals("", ""));
}

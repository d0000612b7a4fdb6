use scheduler::text::{decimal_string, same_text, sorts_before};

#[test]
fn decimal_string_writes_zero_and_both_signs() {
    assert_eq!(decimal_string(0), "0");
    assert_eq!(decimal_string(3), "3");
    assert_eq!(decimal_string(-17), "-17");
    assert_eq!(decimal_string(1200), "1200");
    assert_eq!(decimal_string(i32::MAX), "2147483647");
    assert_eq!(decimal_string(i32::MIN), "-2147483648");
}

#[test]
fn same_text_compares_contents() {
    assert!(same_text("", ""));
    assert!(same_text("chat", "chat"));
    assert!(!same_text("chat", "chats"));
    assert!(!same_text("chat", "char"));
}

#[test]
fn sorts_before_follows_string_order() {
    assert!(sorts_before("", "a"));
    assert!(sorts_before("10", "3"));
    assert!(sorts_before("3", "30"));
    assert!(sorts_before("-1", "1"));
    assert!(!sorts_before("3", "3"));
    assert!(!sorts_before("b", "a"));
    assert_eq!(sorts_before("é", "z"), "é" < "z");
}

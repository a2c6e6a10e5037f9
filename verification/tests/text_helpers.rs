use hekate_mobile::text::{contains_exec, string_from};

#[test]
fn substring_search() {
    assert!(contains_exec("abc 0 valid identities found", "0 valid identities found"));
    assert!(!contains_exec("10 valid identities", "0 valid identities found"));
    assert!(contains_exec("ωαβ", "αβ"));
    assert_eq!(string_from("x→y"), "x→y");
}

use ejdb2::ejdb::{text_from_jbl, text_to_jbl, Rendered};
use ejdb2::text::has_nul_str;

#[test]
fn nul_detection() {
    assert!(!has_nul_str("test.db"));
    assert!(!has_nul_str(""));
    assert!(has_nul_str("te\0st.db"));
    assert!(has_nul_str("ü\0"));
}

#[test]
fn string_conversions() {
    assert_eq!(text_from_jbl(Rendered { rc: 0, text: String::from("{}") }), Ok(String::from("{}")));
    assert_eq!(text_from_jbl(Rendered { rc: 70013, text: String::new() }), Err(70013));
    assert_eq!(text_to_jbl(0), Ok(()));
    assert_eq!(text_to_jbl(86001), Err(86001));
}

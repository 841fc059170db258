use minifetch::headers::decode_header_value;
use minifetch::headers::upsert_all;

fn pair(name: &str, value: &str) -> (String, String) {
    (name.to_string(), value.to_string())
}

#[test]
fn visible_ascii_value_decodes_to_its_text() {
    assert_eq!(decode_header_value(&b"text/html; charset=utf-8".to_vec()), "text/html; charset=utf-8");
}

#[test]
fn tab_is_allowed_in_a_value() {
    assert_eq!(decode_header_value(&b"a\tb".to_vec()), "a\tb");
}

#[test]
fn non_ascii_byte_empties_the_value() {
    assert_eq!(decode_header_value(&vec![0xFFu8, b'a']), "");
}

#[test]
fn control_byte_empties_the_value() {
    assert_eq!(decode_header_value(&vec![0x01u8]), "");
}

#[test]
fn empty_value_decodes_to_empty_text() {
    assert_eq!(decode_header_value(&Vec::new()), "");
}

#[test]
fn later_entry_with_equal_name_wins() {
    let pairs = vec![pair("a", "1"), pair("b", "2"), pair("a", "3")];
    let collapsed = upsert_all(&pairs);
    assert_eq!(collapsed.len(), 2);
    assert!(collapsed.iter().any(|p| p.0 == "a" && p.1 == "3"));
    assert!(collapsed.iter().any(|p| p.0 == "b" && p.1 == "2"));
    assert!(!collapsed.iter().any(|p| p.1 == "1"));
}

#[test]
fn names_differing_in_case_stay_separate() {
    // Name case-folding is the wire client's convention, applied before the
    // pairs reach this library: names that still differ here stay distinct.
    let pairs = vec![pair("Content-Type", "a"), pair("content-type", "b")];
    let collapsed = upsert_all(&pairs);
    assert_eq!(collapsed.len(), 2);
}

#[test]
fn unique_names_pass_through_unchanged() {
    let pairs = vec![pair("x", "1"), pair("y", "2")];
    let collapsed = upsert_all(&pairs);
    assert_eq!(collapsed.len(), 2);
    assert!(collapsed.iter().any(|p| p.0 == "x" && p.1 == "1"));
    assert!(collapsed.iter().any(|p| p.0 == "y" && p.1 == "2"));
}

#[test]
fn empty_pair_list_collapses_to_nothing() {
    let collapsed = upsert_all(&Vec::new());
    assert!(collapsed.is_empty());
}

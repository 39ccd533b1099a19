use ciam_store::text::{precedes_or_equals, same};

#[test]
fn a_text_precedes_itself() {
    assert!(precedes_or_equals("", ""));
    assert!(precedes_or_equals("2024-01-01", "2024-01-01"));
}

#[test]
fn a_prefix_precedes_what_extends_it() {
    assert!(precedes_or_equals("", "a"));
    assert!(precedes_or_equals("2024-01-01", "2024-01-01T00:00:00"));
    assert!(!precedes_or_equals("2024-01-01T00:00:00", "2024-01-01"));
}

#[test]
fn the_first_difference_decides() {
    assert!(precedes_or_equals("2023-12-31T23:59:59", "2024-01-01T00:00:00"));
    assert!(!precedes_or_equals("2024-01-01T00:00:00", "2023-12-31T23:59:59"));
    assert!(precedes_or_equals("abc", "abd"));
    assert!(!precedes_or_equals("abd", "abc"));
    assert!(precedes_or_equals("Z", "a"));
    assert!(precedes_or_equals("10", "9"));
}

#[test]
fn text_outside_ascii_is_ordered_by_its_bytes() {
    assert!(precedes_or_equals("z", "я"));
    assert!(!precedes_or_equals("я", "z"));
    assert_eq!(precedes_or_equals("а", "б"), "а" <= "б");
    assert_eq!(precedes_or_equals("€", "я"), "€" <= "я");
}

#[test]
fn the_order_agrees_with_the_order_of_strings() {
    let samples = ["", "0", "2024", "2024-01-01", "2024-01-02", "2024-1", "a", "ab", "b", "É", "é"];
    for a in samples.iter() {
        for b in samples.iter() {
            assert_eq!(precedes_or_equals(a, b), a <= b);
            assert_eq!(same(a, b), a == b);
        }
    }
}

#[test]
fn same_tells_equal_text_from_different_text() {
    assert!(same("", ""));
    assert!(same("well", "well"));
    assert!(!same("well", "Well"));
    assert!(!same("well", "wel"));
    assert!(!same("wel", "well"));
    assert!(same("скважина", "скважина"));
    assert!(!same("скважина", "скважинa"));
}

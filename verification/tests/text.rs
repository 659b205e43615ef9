use mkinit::text::{chars_le, chars_of, contains_name, starts_with_underscore};

fn le(a: &str, b: &str) -> bool {
    chars_le(&chars_of(a), &chars_of(b))
}

#[test]
fn characters_of_a_string() {
    assert_eq!(chars_of(""), Vec::<char>::new());
    assert_eq!(chars_of("a_é"), vec!['a', '_', 'é']);
}

#[test]
fn names_are_ordered_by_code_point() {
    assert!(le("", ""));
    assert!(le("", "a"));
    assert!(!le("a", ""));
    assert!(le("a", "a"));
    assert!(le("a", "ab"));
    assert!(!le("ab", "a"));
    assert!(le("B", "a"));
    assert!(!le("a", "B"));
    assert!(le("_", "a"));
    assert!(le("Z", "_"));
    assert!(le("ab", "b"));
    assert!(le("z", "é"));
    assert!(le("\u{ffff}", "\u{10000}"));
}

#[test]
fn order_of_names_agrees_with_the_order_of_strings() {
    let names = ["", "a", "A", "_a", "ab", "b", "é", "z", "a1", "a_", "\u{10000}", "\u{ff5e}"];
    for a in names {
        for b in names {
            assert_eq!(le(a, b), a <= b, "{:?} and {:?}", a, b);
        }
    }
}

#[test]
fn leading_underscore() {
    assert!(starts_with_underscore("_"));
    assert!(starts_with_underscore("__all__"));
    assert!(starts_with_underscore("_x"));
    assert!(!starts_with_underscore(""));
    assert!(!starts_with_underscore("x_"));
    assert!(!starts_with_underscore("é"));
}

#[test]
fn membership_among_names() {
    let names = vec!["a".to_string(), "bc".to_string()];
    assert!(contains_name(&names, &"a".to_string()));
    assert!(contains_name(&names, &"bc".to_string()));
    assert!(!contains_name(&names, &"b".to_string()));
    assert!(!contains_name(&names, &"".to_string()));
    assert!(!contains_name(&vec![], &"a".to_string()));
}

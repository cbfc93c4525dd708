use nix_search::text::{compare, starts_with, Order};

#[test]
fn compare_orders_by_first_difference() {
    assert_eq!(compare("abc", "abd"), Order::Before);
    assert_eq!(compare("abd", "abc"), Order::After);
    assert_eq!(compare("b", "abc"), Order::After);
}

#[test]
fn compare_puts_a_proper_prefix_first() {
    assert_eq!(compare("foo", "foobar"), Order::Before);
    assert_eq!(compare("foobar", "foo"), Order::After);
    assert_eq!(compare("", "a"), Order::Before);
}

#[test]
fn compare_equal_names() {
    assert_eq!(compare("", ""), Order::Same);
    assert_eq!(compare("foo-1.0", "foo-1.0"), Order::Same);
}

#[test]
fn compare_is_case_sensitive() {
    assert_eq!(compare("Zed", "apple"), Order::Before);
    assert_eq!(compare("apple", "Apple"), Order::After);
}

#[test]
fn compare_agrees_with_the_standard_order() {
    let names = ["", "a", "ab", "b", "B", "é", "zz", "日本", "foo-1.0", "foobar-2.0", "foo"];
    for a in names.iter() {
        for b in names.iter() {
            let expected = match a.cmp(b) {
                std::cmp::Ordering::Less => Order::Before,
                std::cmp::Ordering::Equal => Order::Same,
                std::cmp::Ordering::Greater => Order::After,
            };
            assert_eq!(compare(a, b), expected);
        }
    }
}

#[test]
fn starts_with_literal_prefix() {
    assert!(starts_with("foobar-2.0", "foo"));
    assert!(starts_with("foo", "foo"));
    assert!(starts_with("foo", ""));
    assert!(starts_with("", ""));
}

#[test]
fn starts_with_rejects_other_names() {
    assert!(!starts_with("foo", "foobar"));
    assert!(!starts_with("foo", "bar"));
    assert!(!starts_with("Foo", "foo"));
    assert!(!starts_with("", "a"));
}

#[test]
fn starts_with_compares_characters() {
    assert!(starts_with("émacs", "é"));
    assert!(!starts_with("émacs", "e"));
}

use std::cmp::Ordering;

use redstrap::version::{compare, is_newer, parse};

#[test]
fn parses_common_shapes() {
    assert_eq!(parse("1.2.3"), Some([1, 2, 3, 0]));
    assert_eq!(parse("v2.0"), Some([2, 0, 0, 0]));
    assert_eq!(parse("0.636.0.58101"), Some([0, 636, 0, 58101]));
    assert_eq!(parse("1.4.0-beta.2"), Some([1, 4, 0, 0]));
    assert_eq!(parse("1.4.0+20240101"), Some([1, 4, 0, 0]));
    assert_eq!(parse("  3 "), Some([3, 0, 0, 0]));
    assert_eq!(parse(""), None);
    assert_eq!(parse("abc"), None);
    assert_eq!(parse("1.x"), None);
}

#[test]
fn compares_numerically() {
    assert_eq!(compare("1.2.3", "1.2.3"), Ordering::Equal);
    assert_eq!(compare("1.2.10", "1.2.9"), Ordering::Greater);
    assert_eq!(compare("1.2", "1.2.0"), Ordering::Equal);
    assert_eq!(compare("0.636.0.58101", "0.636.0.58000"), Ordering::Greater);
    assert!(is_newer("v1.0.0", "v1.0.1"));
    assert!(!is_newer("1.0.1", "1.0.0"));
}

#[test]
fn version_extra_components_and_gaps() {
    // Only the first four components are read; empty ones count as zero.
    assert_eq!(parse("1.2.3.4.x"), Some([1, 2, 3, 4]));
    assert_eq!(parse("1..3"), Some([1, 0, 3, 0]));
    assert_eq!(parse("V7"), Some([7, 0, 0, 0]));
    assert_eq!(parse("+5"), None);
    assert_eq!(parse("18446744073709551616"), None);
}

#[test]
fn unparseable_versions_sort_first() {
    assert_eq!(compare("garbage", "0.0.1"), Ordering::Less);
    assert_eq!(compare("0.0.1", "garbage"), Ordering::Greater);
    assert_eq!(compare("x", "y"), Ordering::Equal);
    assert!(!is_newer("1.0.0", "1.0.0"));
}

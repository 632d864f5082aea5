use lab::entries::has_date_prefix;

#[test]
fn test_has_date_prefix_valid() {
    assert!(has_date_prefix("2025-01-15-project"));
    assert!(has_date_prefix("2024-12-31-test"));
    assert!(has_date_prefix("1999-06-01-old"));
}

#[test]
fn test_has_date_prefix_invalid() {
    assert!(!has_date_prefix("alpha"));
    assert!(!has_date_prefix("not-a-date"));
    assert!(!has_date_prefix("2025-1-1-short")); // month/day too short
    assert!(!has_date_prefix("2025-01-15")); // no trailing dash
    assert!(!has_date_prefix("20250115-nohyphen"));
    assert!(!has_date_prefix("")); // empty
    assert!(!has_date_prefix("short")); // too short
}

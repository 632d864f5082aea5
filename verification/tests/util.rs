use lab::util::{quote_path, resolve_unique_name};

#[test]
fn test_quote_path_simple() {
    assert_eq!(quote_path("/tmp/foo"), "'/tmp/foo'");
}

#[test]
fn test_quote_path_with_spaces() {
    assert_eq!(quote_path("/tmp/my dir"), "'/tmp/my dir'");
}

#[test]
fn test_quote_path_with_single_quote() {
    assert_eq!(quote_path("it's"), "'it'\"'\"'s'");
}

#[test]
fn test_quote_path_with_multiple_single_quotes() {
    assert_eq!(quote_path("a'b'c"), "'a'\"'\"'b'\"'\"'c'");
}

#[test]
fn test_quote_path_empty() {
    assert_eq!(quote_path(""), "''");
}

#[test]
fn test_quote_path_only_single_quote() {
    assert_eq!(quote_path("'"), "''\"'\"''");
}

#[test]
fn test_quote_path_with_special_chars() {
    assert_eq!(quote_path("/tmp/$HOME"), "'/tmp/$HOME'");
}

#[test]
fn test_quote_path_with_double_quotes() {
    assert_eq!(quote_path("/tmp/\"foo\""), "'/tmp/\"foo\"'");
}

#[test]
fn test_quote_path_with_backslash() {
    assert_eq!(quote_path("/tmp/foo\\bar"), "'/tmp/foo\\bar'");
}

#[test]
fn test_quote_path_unicode() {
    assert_eq!(quote_path("/tmp/café"), "'/tmp/café'");
}

// ---- resolve_unique_name tests ----

#[test]
fn test_resolve_unique_name_no_collision() {
    let existing: Vec<String> = Vec::new();
    let result = resolve_unique_name(&existing, "2025-01-15", "feature");
    assert_eq!(result, "feature");
}

#[test]
fn test_resolve_unique_name_trailing_digits_bumps_number() {
    // The colliding lab
    let existing: Vec<String> = vec!["2025-01-15-feature1".to_string()];
    let result = resolve_unique_name(&existing, "2025-01-15", "feature1");
    assert_eq!(result, "feature2");
}

#[test]
fn test_resolve_unique_name_trailing_digits_skips_existing() {
    let existing: Vec<String> = vec![
        "2025-01-15-feature1".to_string(),
        "2025-01-15-feature2".to_string(),
    ];
    let result = resolve_unique_name(&existing, "2025-01-15", "feature1");
    assert_eq!(result, "feature3");
}

#[test]
fn test_resolve_unique_name_no_digits_appends_dash_2() {
    let existing: Vec<String> = vec!["2025-01-15-nonum".to_string()];
    let result = resolve_unique_name(&existing, "2025-01-15", "nonum");
    assert_eq!(result, "nonum-2");
}

#[test]
fn test_resolve_unique_name_no_digits_increments_suffix() {
    let existing: Vec<String> = vec![
        "2025-01-15-nonum".to_string(),
        "2025-01-15-nonum-2".to_string(),
    ];
    let result = resolve_unique_name(&existing, "2025-01-15", "nonum");
    assert_eq!(result, "nonum-3");
}

#[test]
fn test_resolve_unique_name_large_trailing_number() {
    let existing: Vec<String> = vec!["2025-01-15-test99".to_string()];
    let result = resolve_unique_name(&existing, "2025-01-15", "test99");
    assert_eq!(result, "test100");
}

#[test]
fn test_resolve_unique_name_stem_with_hyphens_and_digits() {
    let existing: Vec<String> = vec!["2025-01-15-my-feature1".to_string()];
    let result = resolve_unique_name(&existing, "2025-01-15", "my-feature1");
    assert_eq!(result, "my-feature2");
}

#[test]
fn test_resolve_unique_name_ignores_other_dates_and_names() {
    let existing: Vec<String> = vec![
        "2025-01-14-feature".to_string(),
        "2025-01-15-feature-x".to_string(),
        "feature".to_string(),
    ];
    assert_eq!(resolve_unique_name(&existing, "2025-01-15", "feature"), "feature");
}

#[test]
fn test_resolve_unique_name_skips_taken_dash_numbers() {
    let existing: Vec<String> = vec![
        "2025-01-15-nonum".to_string(),
        "2025-01-15-nonum-2".to_string(),
        "2025-01-15-nonum-4".to_string(),
        "2025-01-15-nonum-3".to_string(),
    ];
    assert_eq!(resolve_unique_name(&existing, "2025-01-15", "nonum"), "nonum-5");
}

#[test]
fn test_resolve_unique_name_number_past_u64_max_wraps_to_zero() {
    let existing: Vec<String> = vec!["2025-01-15-x18446744073709551615".to_string()];
    assert_eq!(
        resolve_unique_name(&existing, "2025-01-15", "x18446744073709551615"),
        "x0"
    );
}

#[test]
fn test_resolve_unique_name_number_too_large_starts_at_one() {
    let existing: Vec<String> = vec!["2025-01-15-x99999999999999999999".to_string()];
    assert_eq!(
        resolve_unique_name(&existing, "2025-01-15", "x99999999999999999999"),
        "x1"
    );
}

use context_generator::filter::Filter;
use context_generator::catalog::{
    get_all_patterns, get_category_for_pattern, get_exclusion_categories, get_filtered_patterns,
    validate_category_ids,
};

#[test]
fn test_filter_creation() {
    let filter = Filter::new(vec!["*.txt".to_string()]).unwrap();
    assert_eq!(filter.pattern_count(), 1);
}

#[test]
fn test_filter_with_defaults() {
    let filter = Filter::new_with_defaults(vec!["*.custom".to_string()], &[]).unwrap();
    assert!(filter.pattern_count() > 1);
}

#[test]
fn test_should_exclude() {
    let filter = Filter::new(vec!["*.log".to_string()]).unwrap();
    let base_dir = "/tmp";
    let log_file = "/tmp/test.log";
    let txt_file = "/tmp/test.txt";

    assert!(filter.should_exclude(log_file, base_dir, false));
    assert!(!filter.should_exclude(txt_file, base_dir, false));
}

#[test]
fn test_validate_category_ids() {
    let invalid = validate_category_ids(&["nonexistent".to_string()]);
    assert_eq!(invalid, vec!["nonexistent".to_string()]);

    let invalid = validate_category_ids(&["go".to_string(), "python".to_string()]);
    assert!(invalid.is_empty());
}

#[test]
fn test_get_category_for_pattern() {
    assert_eq!(get_category_for_pattern("go.sum"), "Go Specific");
    assert_eq!(get_category_for_pattern("*.pyc"), "Python");
    assert_eq!(get_category_for_pattern("*.tmp"), "Logs & Temporary");
    assert_eq!(get_category_for_pattern("nonexistent"), "Custom");
}

#[test]
fn test_load_exclusion_data() {
    let categories = get_exclusion_categories();
    assert!(!categories.is_empty());

    let ids: Vec<String> = categories.iter().map(|c| c.id.clone()).collect();
    assert!(ids.contains(&"go".to_string()));
    assert!(ids.contains(&"python".to_string()));
    assert!(ids.contains(&"logs".to_string()));
    assert!(ids.contains(&"vcs".to_string()));
}

#[test]
fn test_yaml_parsing() {
    let categories = get_exclusion_categories();
    assert!(!categories.is_empty());

    let go_category = categories.iter().find(|c| c.id == "go");
    assert!(go_category.is_some());

    let go_category = go_category.unwrap();
    assert!(go_category.patterns.contains(&"go.sum".to_string()));
    assert!(go_category.patterns.contains(&"*.test".to_string()));
}

#[test]
fn test_filtered_patterns_disables_category() {
    let all = get_all_patterns();
    assert!(all.contains(&"*.pyc".to_string()));

    let without_python = get_filtered_patterns(&["python".to_string()]);
    assert!(!without_python.contains(&"*.pyc".to_string()));
    assert!(without_python.contains(&"go.sum".to_string()));
    assert!(without_python.len() < all.len());
}

#[test]
fn test_invalid_pattern_reports_first_bad() {
    let err = Filter::new(vec!["ok.txt".to_string(), "a***".to_string()]).unwrap_err();
    assert_eq!(err.pattern, "a***");
}

#[test]
fn test_first_match_wins_reason() {
    let filter = Filter::new(vec!["*.log".to_string(), "test.*".to_string()]).unwrap();
    let reason = filter
        .get_exclusion_reason("/tmp/test.log", "/tmp", false)
        .unwrap();
    assert_eq!(reason.pattern, "*.log");
    assert_eq!(reason.category, "Custom");
}

#[test]
fn test_defaults_attribute_catalog_category() {
    let filter = Filter::new_with_defaults(vec![], &[]).unwrap();
    let reason = filter
        .get_exclusion_reason("/p/debug.log", "/p", false)
        .unwrap();
    assert_eq!(reason.pattern, "*.log");
    assert_eq!(reason.category, "Logs & Temporary");
}

#[test]
fn test_relative_path_matching() {
    let filter = Filter::new(vec!["build/*".to_string()]).unwrap();
    assert!(filter.should_exclude("/root/build/out.bin", "/root", false));
    assert!(!filter.should_exclude("/root/src/out.bin", "/root", false));
    // outside the base directory the path is used unchanged
    assert!(!filter.should_exclude("/elsewhere/build/x", "/root", false));
}

#[test]
fn test_exclusion_reason_none_for_unmatched() {
    let filter = Filter::new(vec!["*.log".to_string()]).unwrap();
    assert!(filter.get_exclusion_reason("/tmp/a.rs", "/tmp", false).is_none());
}

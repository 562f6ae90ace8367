use context_generator::filter::Filter;
use context_generator::listing::{print_category_exclusions, print_exclusions, print_patterns_only};
use context_generator::scanner::{ScanEntry, Scanner};
use context_generator::strkit::sort_strings;
use context_generator::tree::{print_dry_run_results, print_tree_files, FileInfo};

fn file_info(rel: &str, is_dir: bool, is_text: bool) -> FileInfo {
    FileInfo {
        rel_path: rel.to_string(),
        is_dir,
        is_text,
        excluded: false,
        reason: None,
    }
}

fn entry(rel: &str, name: &str, is_dir: bool, is_file: bool, content: &[u8]) -> ScanEntry {
    ScanEntry {
        rel_path: rel.to_string(),
        name: name.to_string(),
        is_dir,
        is_file,
        content: content.to_vec(),
    }
}

#[test]
fn test_tree_ordering() {
    let files = vec![
        file_info("b.txt", false, true),
        file_info("a", true, false),
        file_info("a/c.txt", false, true),
    ];
    let out = print_tree_files(files, false);
    assert_eq!(out, "  ├── a/\n  │   └── c.txt\n  └── b.txt\n");
    let dir_pos = out.find("a/").unwrap();
    let file_pos = out.find("b.txt").unwrap();
    assert!(dir_pos < file_pos);
    assert!(out.find("c.txt").unwrap() < file_pos);
}

#[test]
fn test_tree_binary_annotation() {
    let files = vec![file_info("img.png", false, false)];
    let out = print_tree_files(files, false);
    assert_eq!(out, "  └── img.png (binary, will be skipped)\n");
}

#[test]
fn test_dry_run_report_sections() {
    let included = vec![file_info("src", true, false), file_info("src/main.rs", false, true)];
    let excluded = vec![FileInfo {
        rel_path: "debug.log".to_string(),
        is_dir: false,
        is_text: false,
        excluded: true,
        reason: Some(context_generator::filter::ExclusionReason {
            pattern: "*.log".to_string(),
            category: "Logs & Temporary".to_string(),
        }),
    }];
    let out = print_dry_run_results(included, excluded, "proj");
    assert!(out.starts_with("Dry run for directory: proj\n\n"));
    assert!(out.contains("Files that would be processed:\n  └── src/\n      └── main.rs\n"));
    assert!(out.contains(
        "Files that would be excluded:\n  └── debug.log [Logs & Temporary: *.log]\n"
    ));
}

#[test]
fn test_dry_run_none_sections() {
    let out = print_dry_run_results(vec![], vec![], "d");
    assert_eq!(
        out,
        "Dry run for directory: d\n\nFiles that would be processed:\n  (none)\n\nFiles that would be excluded:\n  (none)\n"
    );
}

#[test]
fn test_excluded_dir_does_not_exclude_children() {
    let filter = Filter::new(vec!["build".to_string()]).unwrap();
    let scanner = Scanner::new(filter);
    let entries = vec![
        entry("build", "build", true, false, b""),
        entry("build/notes.txt", "notes.txt", false, true, b"note\n"),
    ];
    let out = scanner.dry_run("proj", &entries);
    let processed = out.find("Files that would be processed:").unwrap();
    let excluded = out.find("Files that would be excluded:").unwrap();
    let notes = out.find("notes.txt").unwrap();
    assert!(processed < notes && notes < excluded);
    assert!(out[excluded..].contains("build/ [Custom: build]"));
}

#[test]
fn test_dry_run_classifies_included_files() {
    let filter = Filter::new(vec![]).unwrap();
    let scanner = Scanner::new(filter);
    let entries = vec![
        entry("a.bin", "a.bin", false, true, &[0u8, 1, 2]),
        entry("a.txt", "a.txt", false, true, b"text\n"),
    ];
    let out = scanner.dry_run("p", &entries);
    assert!(out.contains("a.bin (binary, will be skipped)"));
    assert!(out.contains("├── a.bin"));
    assert!(out.contains("└── a.txt\n"));
}

#[test]
fn test_print_category_exclusions_sorted() {
    let out = print_category_exclusions("go");
    assert_eq!(out, "*.test\ngo.sum\nvendor/*\n");
}

#[test]
fn test_print_category_exclusions_unknown() {
    let out = print_category_exclusions("nope");
    assert_eq!(out, "Category nope not found\n");
}

#[test]
fn test_print_patterns_only_wildcards_first() {
    let out = print_patterns_only();
    let lines: Vec<&str> = out.lines().collect();
    let first_literal = lines
        .iter()
        .position(|l| !l.contains('*') && !l.contains('?') && !l.contains('['))
        .unwrap();
    // every line after the first literal is a literal too
    for l in &lines[first_literal..] {
        assert!(!l.contains('*') && !l.contains('?') && !l.contains('['));
    }
    assert!(out.contains("*.pyc\n"));
    assert!(out.contains("node_modules\n"));
}

#[test]
fn test_print_exclusions_summary() {
    let out = print_exclusions();
    assert!(out.starts_with("Default Exclusions by Category\n==============================\n"));
    assert!(out.contains("ID: go - Go Specific\n"));
    assert!(out.contains("  Total categories: 6\n"));
    assert!(out.contains("Usage:"));
}

#[test]
fn test_sort_strings_lexicographic() {
    let sorted = sort_strings(vec![
        "b".to_string(),
        "a/c".to_string(),
        "a".to_string(),
    ]);
    assert_eq!(sorted, vec!["a".to_string(), "a/c".to_string(), "b".to_string()]);
}
